//! Decimal text read as a scaled integer.
//!
//! `12.5` at a scale of three is `12500`: the whole part, then as many
//! digits of the fraction as the scale says, with zeros where the fraction
//! is shorter and without what it has beyond.

use crate::text::{trim, trimmed};
use vstd::prelude::*;
use vstd::string::*;
use vstd::utf8::is_ascii_chars;

verus! {

/// Whether the character is one of the ten digits.
pub open spec fn is_digit(c: char) -> bool {
    '0' <= c <= '9'
}

/// Whether every character is a digit.
pub open spec fn all_digits(s: Seq<char>) -> bool {
    forall|i: int| 0 <= i < s.len() ==> is_digit(#[trigger] s[i])
}

/// The number that decimal digits stand for; the empty text stands for
/// zero.
pub open spec fn digits_value(s: Seq<char>) -> nat
    decreases s.len(),
{
    if s.len() == 0 {
        0
    } else {
        digits_value(s.drop_last()) * 10 + (s.last() as nat - 48) as nat
    }
}

/// The first `scale` digits of a fraction, with zeros where the fraction
/// is shorter.
pub open spec fn fraction_digits(fraction: Seq<char>, scale: nat) -> Seq<char> {
    Seq::new(
        scale,
        |i: int|
            if i < fraction.len() {
                fraction[i]
            } else {
                '0'
            },
    )
}

/// The scaled integer that decimal text stands for, however large.
///
/// The text is a whole part, and after a point, if it has one, a
/// fraction; each is made of digits alone and may be empty. It is `None`
/// for the empty text, for a second point and for any other character.
pub open spec fn decimal_number(s: Seq<char>, scale: nat) -> Option<nat> {
    if s.len() == 0 {
        None
    } else if s.contains('.') {
        let point = s.index_of('.');
        let whole = s.subrange(0, point);
        let fraction = s.subrange(point + 1, s.len() as int);
        if all_digits(whole) && all_digits(fraction) {
            Some(digits_value(whole + fraction_digits(fraction, scale)))
        } else {
            None
        }
    } else if all_digits(s) {
        Some(digits_value(s + fraction_digits(Seq::empty(), scale)))
    } else {
        None
    }
}

/// The scaled integer that decimal text stands for, or `None` where it
/// stands for none or for one that does not fit in 128 bits.
pub open spec fn decimal_of(s: Seq<char>, scale: nat) -> Option<u128> {
    match decimal_number(s, scale) {
        Some(v) => if v <= u128::MAX {
            Some(v as u128)
        } else {
            None
        },
        None => None,
    }
}

/// Digits that follow others never make the number smaller.
proof fn lemma_digits_value_grows(a: Seq<char>, b: Seq<char>)
    ensures
        digits_value(a + b) >= digits_value(a),
    decreases b.len(),
{
    if b.len() == 0 {
        assert(a + b =~= a);
    } else {
        lemma_digits_value_grows(a, b.drop_last());
        assert((a + b).drop_last() =~= a + b.drop_last());
    }
}

/// One more digit at the end.
proof fn lemma_digits_value_step(s: Seq<char>, k: int)
    requires
        0 <= k < s.len(),
    ensures
        digits_value(s.subrange(0, k + 1)) == digits_value(s.subrange(0, k)) * 10 + (s[k] as nat
            - 48) as nat,
{
    assert(s.subrange(0, k + 1).drop_last() =~= s.subrange(0, k));
}

/// Appends one digit to a number, or gives `None` where the result does
/// not fit in 128 bits.
fn push_digit(acc: u128, digit: u8) -> (r: Option<u128>)
    requires
        digit <= 9,
    ensures
        match r {
            Some(v) => v == acc * 10 + digit,
            None => acc * 10 + digit > u128::MAX,
        },
{
    match acc.checked_mul(10) {
        Some(v) => v.checked_add(digit as u128),
        None => None,
    }
}

/// The scaled integer that decimal text stands for, read as it stands.
pub fn parse_decimal_text(text: &str, scale: u32) -> (r: Option<u128>)
    ensures
        r == decimal_of(text@, scale as nat),
{
    if text.unicode_len() == 0 {
        return None;
    }
    if !text.is_ascii() {
        proof {
            let k = choose|k: int|
                0 <= k < text@.len() && !('\0' <= #[trigger] text@[k] <= '\u{7f}');
            lemma_odd_character(text@, k, scale as nat);
        }
        return None;
    }
    let n = text.unicode_len();
    // The place of the point, or the length where there is none.
    let mut point: usize = n;
    let mut i: usize = 0;
    while i < n
        invariant
            i <= n,
            n == text@.len(),
            is_ascii_chars(text@),
            point <= n,
            point < n ==> point < i && text@[point as int] == '.',
            forall|k: int| 0 <= k < i && k != point ==> is_digit(#[trigger] text@[k]),
        decreases n - i,
    {
        let b = text.get_ascii(i);
        if b == 46 {
            if point < n {
                proof {
                    lemma_second_point(text@, point as int, i as int, scale as nat);
                }
                return None;
            }
            point = i;
        } else if !(48 <= b && b <= 57) {
            proof {
                lemma_odd_character(text@, i as int, scale as nat);
            }
            return None;
        }
        i = i + 1;
    }
    let ghost whole = text@.subrange(0, point as int);
    let ghost fraction = if point < n {
        text@.subrange(point + 1, n as int)
    } else {
        Seq::<char>::empty()
    };
    let ghost digits = whole + fraction_digits(fraction, scale as nat);
    proof {
        lemma_well_formed(text@, point as int, scale as nat);
    }
    let mut acc: u128 = 0;
    let mut k: usize = 0;
    assert(digits.subrange(0, 0) =~= Seq::<char>::empty());
    while k < point
        invariant
            k <= point <= n,
            n == text@.len(),
            is_ascii_chars(text@),
            whole == text@.subrange(0, point as int),
            digits == whole + fraction_digits(fraction, scale as nat),
            all_digits(whole),
            decimal_number(text@, scale as nat) == Some(digits_value(digits)),
            acc == digits_value(digits.subrange(0, k as int)),
        decreases point - k,
    {
        let b = text.get_ascii(k);
        proof {
            assert(digits[k as int] == whole[k as int]);
            assert(is_digit(whole[k as int]));
            lemma_digits_value_step(digits, k as int);
        }
        acc = match push_digit(acc, b - 48) {
            Some(v) => v,
            None => {
                proof {
                    lemma_digits_value_grows(
                        digits.subrange(0, k + 1),
                        digits.subrange(k + 1, digits.len() as int),
                    );
                    assert(digits.subrange(0, k + 1) + digits.subrange(k + 1, digits.len() as int)
                        =~= digits);
                }
                return None;
            },
        };
        k = k + 1;
    }
    let fraction_len: usize = if point < n {
        n - point - 1
    } else {
        0
    };
    let mut j: u32 = 0;
    while j < scale
        invariant
            j <= scale,
            point <= n,
            n == text@.len(),
            is_ascii_chars(text@),
            fraction_len == fraction.len(),
            point < n ==> fraction_len == n - point - 1,
            point == n ==> fraction_len == 0,
            point < n ==> fraction == text@.subrange(point + 1, n as int),
            whole.len() == point,
            digits == whole + fraction_digits(fraction, scale as nat),
            all_digits(fraction),
            decimal_number(text@, scale as nat) == Some(digits_value(digits)),
            acc == digits_value(digits.subrange(0, point + j)),
        decreases scale - j,
    {
        let digit: u8 = if (j as usize) < fraction_len {
            let b = text.get_ascii(point + 1 + j as usize);
            proof {
                assert(fraction[j as int] == text@[point + 1 + j]);
                assert(is_digit(fraction[j as int]));
            }
            b - 48
        } else {
            0
        };
        proof {
            assert(digits[point + j] == fraction_digits(fraction, scale as nat)[j as int]);
            lemma_digits_value_step(digits, point + j);
        }
        acc = match push_digit(acc, digit) {
            Some(v) => v,
            None => {
                proof {
                    lemma_digits_value_grows(
                        digits.subrange(0, point + j + 1),
                        digits.subrange(point + j + 1, digits.len() as int),
                    );
                    assert(digits.subrange(0, point + j + 1) + digits.subrange(
                        point + j + 1,
                        digits.len() as int,
                    ) =~= digits);
                }
                return None;
            },
        };
        j = j + 1;
    }
    assert(digits.subrange(0, point + j) =~= digits);
    Some(acc)
}

/// A character that is neither a digit nor a point leaves no number.
proof fn lemma_odd_character(s: Seq<char>, k: int, scale: nat)
    requires
        0 <= k < s.len(),
        !is_digit(s[k]),
        s[k] != '.',
    ensures
        decimal_number(s, scale) is None,
{
    if s.contains('.') {
        let point = s.index_of('.');
        assert(s[point] == '.');
        let whole = s.subrange(0, point);
        let fraction = s.subrange(point + 1, s.len() as int);
        if k < point {
            assert(whole[k] == s[k]);
        } else {
            assert(fraction[k - point - 1] == s[k]);
        }
    }
}

/// A second point leaves no number.
proof fn lemma_second_point(s: Seq<char>, first: int, second: int, scale: nat)
    requires
        0 <= first < second < s.len(),
        s[first] == '.',
        s[second] == '.',
    ensures
        decimal_number(s, scale) is None,
{
    assert(s.contains('.'));
    let point = s.index_of('.');
    assert(s[point] == '.');
    let whole = s.subrange(0, point);
    let fraction = s.subrange(point + 1, s.len() as int);
    if point < second {
        assert(fraction[second - point - 1] == '.');
    } else {
        assert(whole[first] == '.');
    }
}

/// Text of digits around at most one point, at `point`, stands for the
/// number of its digits.
proof fn lemma_well_formed(s: Seq<char>, point: int, scale: nat)
    requires
        s.len() > 0,
        0 <= point <= s.len(),
        point < s.len() ==> s[point] == '.',
        forall|k: int| 0 <= k < s.len() && k != point ==> is_digit(#[trigger] s[k]),
    ensures
        all_digits(s.subrange(0, point)),
        point < s.len() ==> all_digits(s.subrange(point + 1, s.len() as int)),
        decimal_number(s, scale) == Some(
            digits_value(
                s.subrange(0, point) + fraction_digits(
                    if point < s.len() {
                        s.subrange(point + 1, s.len() as int)
                    } else {
                        Seq::<char>::empty()
                    },
                    scale,
                ),
            ),
        ),
{
    if point < s.len() {
        assert(s.contains('.'));
        let first = s.index_of('.');
        assert(s[first] == '.');
        assert(first == point) by {
            if first != point {
                assert(is_digit(s[first]));
            }
        }
    } else {
        assert(!s.contains('.')) by {
            if s.contains('.') {
                let k = choose|k: int| 0 <= k < s.len() && s[k] == '.';
                assert(is_digit(s[k]));
            }
        }
        assert(s.subrange(0, point) =~= s);
        assert(all_digits(s));
    }
}

/// The scaled integer that decimal text stands for, white space around it
/// left out.
pub fn parse_decimal_to_u128(value: &str, scale: u32) -> (r: Option<u128>)
    ensures
        r == decimal_of(trimmed(value@), scale as nat),
{
    parse_decimal_text(trim(value), scale)
}

} // verus!
