//! The text codec of the remote-call boundary: hexadecimal words, token
//! addresses and call data.
//!
//! Words and addresses are ASCII text. Text that holds any other character
//! is no word and no hexadecimal string, and is rejected as such.

use crate::text::{lowercased, to_lowercase};
use vstd::prelude::*;
use vstd::string::*;
use vstd::utf8::is_ascii_chars;

verus! {

/// Whether the text begins with `0x`.
pub open spec fn has_0x_prefix(s: Seq<char>) -> bool {
    s.len() >= 2 && s[0] == '0' && s[1] == 'x'
}

/// The text without one leading `0x`, where it has one.
pub open spec fn strip_0x_of(s: Seq<char>) -> Seq<char> {
    if has_0x_prefix(s) {
        s.subrange(2, s.len() as int)
    } else {
        s
    }
}

/// Whether every character is the digit zero.
pub open spec fn all_zero_digits(s: Seq<char>) -> bool {
    forall|i: int| 0 <= i < s.len() ==> #[trigger] s[i] == '0'
}

/// The value of a hexadecimal digit of either case.
pub open spec fn hex_digit_of(c: char) -> Option<u8> {
    if '0' <= c <= '9' {
        Some((c as u8 - 48) as u8)
    } else if 'a' <= c <= 'f' {
        Some((c as u8 - 87) as u8)
    } else if 'A' <= c <= 'F' {
        Some((c as u8 - 55) as u8)
    } else {
        None
    }
}

/// Whether every character is a hexadecimal digit.
pub open spec fn all_hex_digits(s: Seq<char>) -> bool {
    forall|i: int| 0 <= i < s.len() ==> hex_digit_of(#[trigger] s[i]) is Some
}

/// The bytes that hexadecimal text stands for, two digits to a byte, with
/// one leading `0x` left out; `None` where the number of digits is odd or
/// a character is no hexadecimal digit.
pub open spec fn hex_bytes_of(s: Seq<char>) -> Option<Seq<u8>> {
    let digits = strip_0x_of(s);
    if digits.len() % 2 == 0 && all_hex_digits(digits) {
        Some(
            Seq::new(
                digits.len() / 2,
                |i: int|
                    (hex_digit_of(digits[2 * i])->0 * 16 + hex_digit_of(
                        digits[2 * i + 1],
                    )->0) as u8,
            ),
        )
    } else {
        None
    }
}

/// The address in a 32-byte word given as 64 ASCII characters, with one
/// leading `0x` left out: `0x` and the last 40 characters. `None` where
/// the word has another length or holds a character outside ASCII.
pub open spec fn address_of_word(s: Seq<char>) -> Option<Seq<char>> {
    let word = strip_0x_of(s);
    if word.len() == 64 && is_ascii_chars(word) {
        Some(seq!['0', 'x'] + word.subrange(24, 64))
    } else {
        None
    }
}

/// A letter of ASCII in lower case, any other character as it is; as a
/// code point.
pub open spec fn ascii_fold(c: char) -> u32 {
    if 'A' <= c <= 'Z' {
        (c as u32 + 32) as u32
    } else {
        c as u32
    }
}

/// Whether two texts are the same but for the case of ASCII letters.
pub open spec fn same_ignoring_ascii_case(a: Seq<char>, b: Seq<char>) -> bool {
    a.len() == b.len() && forall|i: int|
        0 <= i < a.len() ==> ascii_fold(#[trigger] a[i]) == ascii_fold(b[i])
}

/// The text without one leading `0x`, where it has one.
pub fn strip_0x<'a>(value: &'a str) -> (r: &'a str)
    ensures
        r@ == strip_0x_of(value@),
{
    let n = value.unicode_len();
    if n >= 2 && value.get_char(0) == '0' && value.get_char(1) == 'x' {
        value.substring_char(2, n)
    } else {
        value
    }
}

/// Whether an address, with one leading `0x` left out, is made of zero
/// digits alone. The empty address is.
pub fn is_zero_address(address: &str) -> (r: bool)
    ensures
        r == all_zero_digits(strip_0x_of(address@)),
{
    let cleaned = strip_0x(address);
    if !cleaned.is_ascii() {
        return false;
    }
    let n = cleaned.unicode_len();
    let mut i: usize = 0;
    while i < n
        invariant
            i <= n,
            n == cleaned@.len(),
            cleaned@ == strip_0x_of(address@),
            is_ascii_chars(cleaned@),
            forall|k: int| 0 <= k < i ==> #[trigger] cleaned@[k] == '0',
        decreases n - i,
    {
        if cleaned.get_ascii(i) != 48 {
            assert(cleaned@[i as int] != '0');
            return false;
        }
        i = i + 1;
    }
    true
}

/// The value of an ASCII byte as a hexadecimal digit.
fn hex_digit(b: u8) -> (r: Option<u8>)
    requires
        b < 128,
    ensures
        r == hex_digit_of(b as char),
        r matches Some(v) ==> v < 16,
{
    if 48 <= b && b <= 57 {
        Some(b - 48)
    } else if 97 <= b && b <= 102 {
        Some(b - 87)
    } else if 65 <= b && b <= 70 {
        Some(b - 55)
    } else {
        None
    }
}

/// The bytes that hexadecimal text stands for.
pub fn hex_to_bytes(value: &str) -> (r: Option<Vec<u8>>)
    ensures
        match hex_bytes_of(value@) {
            Some(bytes) => r matches Some(v) && v@ == bytes,
            None => r is None,
        },
{
    let cleaned = strip_0x(value);
    if !cleaned.is_ascii() {
        proof {
            let k = choose|k: int|
                0 <= k < cleaned@.len() && !('\0' <= #[trigger] cleaned@[k] <= '\u{7f}');
            assert(hex_digit_of(cleaned@[k]) is None);
        }
        return None;
    }
    let n = cleaned.unicode_len();
    if n % 2 != 0 {
        return None;
    }
    let mut bytes: Vec<u8> = Vec::new();
    let mut i: usize = 0;
    while i < n
        invariant
            i <= n,
            i % 2 == 0,
            n % 2 == 0,
            n == cleaned@.len(),
            cleaned@ == strip_0x_of(value@),
            is_ascii_chars(cleaned@),
            bytes@.len() == i / 2,
            forall|k: int| 0 <= k < i ==> hex_digit_of(#[trigger] cleaned@[k]) is Some,
            forall|k: int|
                0 <= k < i / 2 ==> #[trigger] bytes@[k] == (hex_digit_of(cleaned@[2 * k])->0 * 16
                    + hex_digit_of(cleaned@[2 * k + 1])->0) as u8,
        decreases n - i,
    {
        let high_byte = cleaned.get_ascii(i);
        let low_byte = cleaned.get_ascii(i + 1);
        assert(high_byte as char == cleaned@[i as int]);
        assert(low_byte as char == cleaned@[i + 1]);
        let high = match hex_digit(high_byte) {
            Some(v) => v,
            None => {
                assert(hex_digit_of(cleaned@[i as int]) is None);
                return None;
            },
        };
        let low = match hex_digit(low_byte) {
            Some(v) => v,
            None => {
                assert(hex_digit_of(cleaned@[i + 1]) is None);
                return None;
            },
        };
        bytes.push(high * 16 + low);
        i = i + 2;
    }
    assert(bytes@ =~= hex_bytes_of(value@)->0);
    Some(bytes)
}

/// The address in a 32-byte word given as 64 ASCII characters: `0x` and
/// the last 40 characters of the word.
pub fn parse_address_from_32byte(value: &str) -> (r: Option<String>)
    ensures
        match address_of_word(value@) {
            Some(address) => r matches Some(s) && s@ == address,
            None => r is None,
        },
{
    let cleaned = strip_0x(value);
    if !cleaned.is_ascii() {
        return None;
    }
    if cleaned.unicode_len() != 64 {
        return None;
    }
    let address = cleaned.substring_ascii(24, 64);
    let mut result = String::from_str("0x");
    proof {
        reveal_strlit("0x");
        assert("0x"@ =~= seq!['0', 'x']);
    }
    result.append(address);
    Some(result)
}

/// Whether two texts are the same but for the case of ASCII letters.
pub fn eq_ignore_ascii_case(a: &str, b: &str) -> (r: bool)
    ensures
        r == same_ignoring_ascii_case(a@, b@),
{
    let n = a.unicode_len();
    if n != b.unicode_len() {
        return false;
    }
    let mut i: usize = 0;
    while i < n
        invariant
            i <= n,
            n == a@.len(),
            n == b@.len(),
            forall|k: int| 0 <= k < i ==> ascii_fold(#[trigger] a@[k]) == ascii_fold(b@[k]),
        decreases n - i,
    {
        if fold_char(a.get_char(i)) != fold_char(b.get_char(i)) {
            return false;
        }
        i = i + 1;
    }
    true
}

/// A letter of ASCII in lower case, any other character as it is.
fn fold_char(c: char) -> (r: u32)
    ensures
        r == ascii_fold(c),
{
    let v = c as u32;
    if 65 <= v && v <= 90 {
        v + 32
    } else {
        v
    }
}

/// The text with zero digits put before it until it has `width`
/// characters; a text that has as many is left as it is.
pub open spec fn zero_padded(s: Seq<char>, width: nat) -> Seq<char> {
    if s.len() >= width {
        s
    } else {
        Seq::new((width - s.len()) as nat, |i: int| '0') + s
    }
}

/// The data of a call with two arguments: the selector, then each argument
/// padded with zero digits to a word of 64 characters.
pub open spec fn call_data_of(selector: Seq<char>, a: Seq<char>, b: Seq<char>) -> Seq<char> {
    selector + zero_padded(a, 64) + zero_padded(b, 64)
}

/// Appends `word`, padded with zero digits to 64 characters, to `data`.
fn append_padded_word(data: &mut String, word: &str)
    ensures
        final(data)@ == old(data)@ + zero_padded(word@, 64),
{
    let n = word.unicode_len();
    let ghost start = data@;
    let mut i: usize = n;
    proof {
        reveal_strlit("0");
        assert(data@ =~= start + Seq::new(0, |k: int| '0'));
    }
    while i < 64
        invariant
            n <= i,
            n < 64 ==> i <= 64,
            n >= 64 ==> i == n,
            data@ == start + Seq::new((i - n) as nat, |k: int| '0'),
        decreases 64 - i,
    {
        proof {
            reveal_strlit("0");
            assert(start + Seq::new((i - n) as nat, |k: int| '0') + "0"@ =~= start + Seq::new(
                (i + 1 - n) as nat,
                |k: int| '0',
            ));
        }
        data.append("0");
        i = i + 1;
    }
    proof {
        if n >= 64 {
            assert(start + Seq::new((i - n) as nat, |k: int| '0') + word@ =~= start + word@);
        } else {
            assert(start + Seq::new((i - n) as nat, |k: int| '0') + word@ =~= start + (Seq::new(
                (64 - n) as nat,
                |k: int| '0',
            ) + word@));
        }
    }
    data.append(word);
}

/// The data of a call with two arguments that are taken as they stand.
pub fn call_data(selector: &str, a: &str, b: &str) -> (r: String)
    ensures
        r@ == call_data_of(selector@, a@, b@),
{
    let mut data = String::from_str(selector);
    append_padded_word(&mut data, a);
    append_padded_word(&mut data, b);
    data
}

/// The data of a call with two addresses: the selector, then each address
/// without its leading `0x`, in lower case, padded with zero digits to a
/// word of 64 characters.
pub fn encode_call_with_two_addresses(selector: &str, a: &str, b: &str) -> (r: String)
    ensures
        r@ == call_data_of(
            selector@,
            lowercased(strip_0x_of(a@)),
            lowercased(strip_0x_of(b@)),
        ),
{
    let a = to_lowercase(strip_0x(a));
    let b = to_lowercase(strip_0x(b));
    call_data(selector, a.as_str(), b.as_str())
}

/// The number that hexadecimal digits stand for; the empty text stands
/// for zero.
pub open spec fn hex_value(s: Seq<char>) -> nat
    decreases s.len(),
{
    if s.len() == 0 {
        0
    } else {
        hex_value(s.drop_last()) * 16 + match hex_digit_of(s.last()) {
            Some(d) => d as nat,
            None => 0,
        }
    }
}

/// The text without any `0x` at its start, however many there are.
pub open spec fn strip_all_0x(s: Seq<char>) -> Seq<char>
    decreases s.len(),
{
    if has_0x_prefix(s) {
        strip_all_0x(s.subrange(2, s.len() as int))
    } else {
        s
    }
}

/// The block height that hexadecimal text stands for, any `0x` at its
/// start left out; `None` where no digit is left, a character is no
/// hexadecimal digit or the number does not fit in 64 bits.
pub open spec fn block_number_of(s: Seq<char>) -> Option<u64> {
    let digits = strip_all_0x(s);
    if digits.len() > 0 && all_hex_digits(digits) && hex_value(digits) <= u64::MAX {
        Some(hex_value(digits) as u64)
    } else {
        None
    }
}

/// The character of a hexadecimal digit, in lower case.
pub open spec fn hex_char(d: nat) -> char
    recommends
        d < 16,
{
    if d < 10 {
        (48 + d) as char
    } else {
        (87 + d) as char
    }
}

/// A number in hexadecimal digits of lower case, without leading zeros.
pub open spec fn hex_text(n: nat) -> Seq<char>
    decreases n,
{
    if n < 16 {
        seq![hex_char(n)]
    } else {
        hex_text(n / 16).push(hex_char(n % 16))
    }
}

/// The tag of the block that a call is made at: `latest`, or `0x` and the
/// height in hexadecimal digits.
pub open spec fn block_tag_of(block: Option<u64>) -> Seq<char> {
    match block {
        Some(height) => seq!['0', 'x'] + hex_text(height as nat),
        None => "latest"@,
    }
}

/// Digits that follow others never make the number smaller.
proof fn lemma_hex_value_grows(a: Seq<char>, b: Seq<char>)
    ensures
        hex_value(a + b) >= hex_value(a),
    decreases b.len(),
{
    if b.len() == 0 {
        assert(a + b =~= a);
    } else {
        lemma_hex_value_grows(a, b.drop_last());
        assert((a + b).drop_last() =~= a + b.drop_last());
    }
}

/// The block height in the answer to a call for it, or `None` where the
/// answer stands for none.
pub fn parse_block_number(answer: &str) -> (r: Option<u64>)
    ensures
        r == block_number_of(answer@),
{
    let mut digits = answer;
    loop
        invariant
            strip_all_0x(digits@) == strip_all_0x(answer@),
        ensures
            !has_0x_prefix(digits@),
        decreases digits@.len(),
    {
        let rest = strip_0x(digits);
        if rest.unicode_len() == digits.unicode_len() {
            break ;
        }
        digits = rest;
    }
    assert(digits@ == strip_all_0x(answer@));
    if !digits.is_ascii() {
        proof {
            let k = choose|k: int|
                0 <= k < digits@.len() && !('\0' <= #[trigger] digits@[k] <= '\u{7f}');
            assert(hex_digit_of(digits@[k]) is None);
        }
        return None;
    }
    let n = digits.unicode_len();
    if n == 0 {
        return None;
    }
    let mut acc: u64 = 0;
    let mut i: usize = 0;
    assert(digits@.subrange(0, 0) =~= Seq::<char>::empty());
    while i < n
        invariant
            i <= n,
            n == digits@.len(),
            n > 0,
            digits@ == strip_all_0x(answer@),
            is_ascii_chars(digits@),
            forall|k: int| 0 <= k < i ==> hex_digit_of(#[trigger] digits@[k]) is Some,
            acc == hex_value(digits@.subrange(0, i as int)),
        decreases n - i,
    {
        let b = digits.get_ascii(i);
        assert(b as char == digits@[i as int]);
        let d = match hex_digit(b) {
            Some(d) => d,
            None => {
                assert(hex_digit_of(digits@[i as int]) is None);
                return None;
            },
        };
        proof {
            assert(digits@.subrange(0, i + 1).drop_last() =~= digits@.subrange(0, i as int));
            lemma_hex_value_grows(
                digits@.subrange(0, i + 1),
                digits@.subrange(i + 1, n as int),
            );
            assert(digits@.subrange(0, i + 1) + digits@.subrange(i + 1, n as int) =~= digits@);
        }
        acc = match acc.checked_mul(16) {
            Some(v) => match v.checked_add(d as u64) {
                Some(w) => w,
                None => {
                    return None;
                },
            },
            None => {
                return None;
            },
        };
        i = i + 1;
    }
    assert(digits@.subrange(0, i as int) =~= digits@);
    Some(acc)
}

/// A hexadecimal digit as text.
fn hex_digit_text(d: u8) -> (r: &'static str)
    requires
        d < 16,
    ensures
        r@ == seq![hex_char(d as nat)],
{
    proof {
        reveal_strlit("0");
        reveal_strlit("1");
        reveal_strlit("2");
        reveal_strlit("3");
        reveal_strlit("4");
        reveal_strlit("5");
        reveal_strlit("6");
        reveal_strlit("7");
        reveal_strlit("8");
        reveal_strlit("9");
        reveal_strlit("a");
        reveal_strlit("b");
        reveal_strlit("c");
        reveal_strlit("d");
        reveal_strlit("e");
        reveal_strlit("f");
    }
    let r = if d == 0 {
        "0"
    } else if d == 1 {
        "1"
    } else if d == 2 {
        "2"
    } else if d == 3 {
        "3"
    } else if d == 4 {
        "4"
    } else if d == 5 {
        "5"
    } else if d == 6 {
        "6"
    } else if d == 7 {
        "7"
    } else if d == 8 {
        "8"
    } else if d == 9 {
        "9"
    } else if d == 10 {
        "a"
    } else if d == 11 {
        "b"
    } else if d == 12 {
        "c"
    } else if d == 13 {
        "d"
    } else if d == 14 {
        "e"
    } else {
        "f"
    };
    assert(r@ =~= seq![hex_char(d as nat)]);
    r
}

/// Appends a number in hexadecimal digits.
fn append_hex(text: &mut String, n: u64)
    ensures
        final(text)@ == old(text)@ + hex_text(n as nat),
    decreases n,
{
    if n >= 16 {
        append_hex(text, n / 16);
    }
    let ghost before = text@;
    text.append(hex_digit_text((n % 16) as u8));
    proof {
        if n >= 16 {
            assert(text@ =~= old(text)@ + hex_text(n as nat));
        } else {
            assert(text@ =~= old(text)@ + hex_text(n as nat));
        }
    }
}

/// The tag of the block that a call is made at.
pub fn block_tag(block: Option<u64>) -> (r: String)
    ensures
        r@ == block_tag_of(block),
{
    match block {
        Some(height) => {
            let mut tag = String::from_str("0x");
            proof {
                reveal_strlit("0x");
                assert("0x"@ =~= seq!['0', 'x']);
            }
            append_hex(&mut tag, height);
            tag
        },
        None => String::from_str("latest"),
    }
}

} // verus!
