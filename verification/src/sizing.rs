//! The largest trade that a constant-product pool takes within a slippage
//! bound, found by a bisection of fixed length.
//!
//! The bisection rests on the assumption that slippage does not fall as
//! the trade grows. Nothing here derives that assumption: the search is
//! defined round by round, and what it returns is stated for every pool.

use crate::error::OracleError;
use crate::scoring::{abs_diff, abs_diff_u128, ratio_scaled, ratio_scaled_u128};
use crate::uint256::{
    floored_sub, lemma_value_bounded, max_value, u256_to_u128, words_add, words_div, U256,
};
use vstd::prelude::*;

verus! {

/// The slippage bound of the standard search: one percent.
pub const SLIPPAGE_LIMIT_1E6: u128 = 10_000;

/// The number of rounds of the bisection.
pub const SEARCH_ROUNDS: u32 = 28;

/// The factor by which a trade's input is scaled before it is divided by
/// its output: `10^18`.
pub const PRICE_UNIT: u128 = 1_000_000_000_000_000_000;

/// What a constant-product pool pays out for `amount_in` after a fee of
/// 0.3%: `amount_in * 997 * reserve_out / (reserve_in * 1000 + amount_in * 997)`.
/// It is a `RangeError` where a product or the sum does not fit in 256
/// bits, and `ZeroDenominator` where the denominator is zero.
pub open spec fn amm_amount_out_of(amount_in: nat, reserve_in: nat, reserve_out: nat) -> Result<
    nat,
    OracleError,
> {
    let with_fee = amount_in * 997;
    let numerator = with_fee * reserve_out;
    let denominator = reserve_in * 1000 + with_fee;
    if with_fee > max_value() || numerator > max_value() || denominator > max_value() {
        Err(OracleError::RangeError)
    } else if denominator == 0 {
        Err(OracleError::ZeroDenominator)
    } else {
        Ok(numerator / denominator)
    }
}

/// Whether a trade of `amount_in` stays within the slippage bound.
///
/// A trade that pays out nothing does not. Otherwise its effective price
/// is `amount_in * 10^18 / amount_out`, and it stays within the bound
/// where the distance of that price from `spot`, as a share of `spot`
/// capped at `SCALE`, is below `limit`.
pub open spec fn within_slippage(
    amount_in: nat,
    reserve_in: nat,
    reserve_out: nat,
    spot: nat,
    limit: nat,
) -> Result<bool, OracleError> {
    match amm_amount_out_of(amount_in, reserve_in, reserve_out) {
        Err(e) => Err(e),
        Ok(amount_out) => {
            if amount_out == 0 {
                Ok(false)
            } else if amount_in * (PRICE_UNIT as nat) > max_value() {
                Err(OracleError::RangeError)
            } else if amount_in * (PRICE_UNIT as nat) / amount_out > u128::MAX {
                Err(OracleError::RangeError)
            } else if spot == 0 {
                Err(OracleError::DivideByZero)
            } else {
                let effective_price = amount_in * (PRICE_UNIT as nat) / amount_out;
                Ok(ratio_scaled(abs_diff(effective_price, spot), spot) < limit)
            }
        },
    }
}

/// The bounds of a bisection and the best size found so far.
pub struct SearchState {
    pub low: nat,
    pub high: nat,
    pub best: nat,
}

/// The size probed next: the midpoint of the bounds, rounded down.
pub open spec fn midpoint(s: SearchState) -> nat {
    (s.low + s.high) / 2
}

/// What `rounds` further rounds of bisection return from state `s`.
///
/// A round probes the midpoint. A midpoint of zero ends the search. A
/// midpoint within the slippage bound becomes the best size and the search
/// goes on above it; otherwise the search goes on below it.
pub open spec fn search(
    s: SearchState,
    reserve_in: nat,
    reserve_out: nat,
    spot: nat,
    limit: nat,
    rounds: nat,
) -> Result<nat, OracleError>
    decreases rounds,
{
    let mid = midpoint(s);
    if rounds == 0 || mid == 0 {
        Ok(s.best)
    } else {
        match within_slippage(mid, reserve_in, reserve_out, spot, limit) {
            Err(e) => Err(e),
            Ok(true) => search(
                SearchState { low: mid + 1, high: s.high, best: mid },
                reserve_in,
                reserve_out,
                spot,
                limit,
                (rounds - 1) as nat,
            ),
            Ok(false) => search(
                SearchState { low: s.low, high: (mid - 1) as nat, best: s.best },
                reserve_in,
                reserve_out,
                spot,
                limit,
                (rounds - 1) as nat,
            ),
        }
    }
}

/// The largest trade size found by 28 rounds of bisection over
/// `[0, reserve_in / 2]`, or zero where none was found.
///
/// It is `ZeroReserves` where a reserve is zero, the failure of the first
/// probe that fails, and a `RangeError` where the size found does not fit
/// in 128 bits.
pub open spec fn max_safe_size(reserve_in: nat, reserve_out: nat, spot: nat, limit: nat) -> Result<
    nat,
    OracleError,
> {
    if reserve_in == 0 || reserve_out == 0 {
        Err(OracleError::ZeroReserves)
    } else {
        match search(
            SearchState { low: 0, high: reserve_in / 2, best: 0 },
            reserve_in,
            reserve_out,
            spot,
            limit,
            SEARCH_ROUNDS as nat,
        ) {
            Err(e) => Err(e),
            Ok(best) => if best > u128::MAX {
                Err(OracleError::RangeError)
            } else {
                Ok(best)
            },
        }
    }
}

/// What the pool pays out for `amount_in` after the fee.
pub fn amm_amount_out(amount_in: U256, reserve_in: U256, reserve_out: U256) -> (r: Result<
    U256,
    OracleError,
>)
    ensures
        match amm_amount_out_of(amount_in.value(), reserve_in.value(), reserve_out.value()) {
            Ok(v) => r matches Ok(out) && out.value() == v,
            Err(e) => r == Err::<U256, OracleError>(e),
        },
{
    let with_fee = match amount_in.checked_mul(U256::from_u128(997)) {
        Ok(v) => v,
        Err(e) => {
            return Err(e);
        },
    };
    let numerator = match with_fee.checked_mul(reserve_out) {
        Ok(v) => v,
        Err(e) => {
            return Err(e);
        },
    };
    let scaled_reserve = match reserve_in.checked_mul(U256::from_u128(1000)) {
        Ok(v) => v,
        Err(e) => {
            return Err(e);
        },
    };
    let denominator = match scaled_reserve.checked_add(with_fee) {
        Ok(v) => v,
        Err(e) => {
            return Err(e);
        },
    };
    if denominator.is_zero() {
        Err(OracleError::ZeroDenominator)
    } else {
        Ok(words_div(numerator, denominator))
    }
}

/// Whether a trade of `amount_in` stays within the slippage bound `limit`.
pub fn stays_within_slippage(
    amount_in: U256,
    reserve_in: U256,
    reserve_out: U256,
    spot_1e6: u128,
    limit_1e6: u128,
) -> (r: Result<bool, OracleError>)
    ensures
        r == within_slippage(
            amount_in.value(),
            reserve_in.value(),
            reserve_out.value(),
            spot_1e6 as nat,
            limit_1e6 as nat,
        ),
{
    let amount_out = match amm_amount_out(amount_in, reserve_in, reserve_out) {
        Ok(v) => v,
        Err(e) => {
            return Err(e);
        },
    };
    if amount_out.is_zero() {
        return Ok(false);
    }
    let scaled = match amount_in.checked_mul(U256::from_u128(PRICE_UNIT)) {
        Ok(v) => v,
        Err(e) => {
            return Err(e);
        },
    };
    let effective_price = words_div(scaled, amount_out);
    let effective_price_u128 = match u256_to_u128(effective_price) {
        Ok(v) => v,
        Err(e) => {
            return Err(e);
        },
    };
    let slippage = match ratio_scaled_u128(abs_diff_u128(effective_price_u128, spot_1e6), spot_1e6) {
        Ok(v) => v,
        Err(e) => {
            return Err(e);
        },
    };
    Ok(slippage < limit_1e6)
}

/// The largest trade size within the slippage bound `slippage_limit_1e6`
/// that 28 rounds of bisection over `[0, reserve_in / 2]` find.
///
/// The size is at most half the input reserve, and is zero or stays
/// within the bound.
pub fn max_safe_execution_size_within(
    reserve_in: U256,
    reserve_out: U256,
    spot_1e6: u128,
    slippage_limit_1e6: u128,
) -> (r: Result<u128, OracleError>)
    ensures
        match max_safe_size(
            reserve_in.value(),
            reserve_out.value(),
            spot_1e6 as nat,
            slippage_limit_1e6 as nat,
        ) {
            Ok(v) => r == Ok::<u128, OracleError>(v as u128),
            Err(e) => r == Err::<u128, OracleError>(e),
        },
        r matches Ok(size) ==> size <= reserve_in.value() / 2 && (size == 0 || within_slippage(
            size as nat,
            reserve_in.value(),
            reserve_out.value(),
            spot_1e6 as nat,
            slippage_limit_1e6 as nat,
        ) == Ok::<bool, OracleError>(true)),
{
    if reserve_in.is_zero() || reserve_out.is_zero() {
        return Err(OracleError::ZeroReserves);
    }
    let one = U256::one();
    let two = U256::from_u128(2);
    let mut low = U256::zero();
    let mut high = words_div(reserve_in, two);
    let mut best = U256::zero();
    let ghost start = SearchState { low: 0, high: reserve_in.value() / 2, best: 0 };
    let ghost rin = reserve_in.value();
    let ghost rout = reserve_out.value();
    let ghost spot = spot_1e6 as nat;
    let ghost limit = slippage_limit_1e6 as nat;
    let mut round: u32 = 0;
    while round < SEARCH_ROUNDS
        invariant
            round <= SEARCH_ROUNDS,
            one.value() == 1,
            two.value() == 2,
            rin == reserve_in.value(),
            rout == reserve_out.value(),
            spot == spot_1e6 as nat,
            limit == slippage_limit_1e6 as nat,
            rin != 0 && rout != 0,
            start == (SearchState { low: 0, high: rin / 2, best: 0 }),
            low.value() <= rin / 2 + 1,
            high.value() <= rin / 2,
            search(
                SearchState { low: low.value(), high: high.value(), best: best.value() },
                rin,
                rout,
                spot,
                limit,
                (SEARCH_ROUNDS - round) as nat,
            ) == search(start, rin, rout, spot, limit, SEARCH_ROUNDS as nat),
        decreases SEARCH_ROUNDS - round,
    {
        proof {
            lemma_value_bounded(reserve_in);
        }
        let mid = words_div(words_add(low, high), two);
        if mid.is_zero() {
            proof {
                lemma_size_found(rin, rout, spot, limit);
            }
            return u256_to_u128(best);
        }
        match stays_within_slippage(mid, reserve_in, reserve_out, spot_1e6, slippage_limit_1e6) {
            Err(e) => {
                return Err(e);
            },
            Ok(true) => {
                best = mid;
                low = words_add(mid, one);
            },
            Ok(false) => {
                high = mid.saturating_sub(one);
            },
        }
        round = round + 1;
    }
    proof {
        lemma_size_found(rin, rout, spot, limit);
    }
    u256_to_u128(best)
}

/// The largest trade size within a slippage of one percent that 28 rounds
/// of bisection over `[0, reserve_in / 2]` find.
pub fn max_safe_execution_size(reserve_in: U256, reserve_out: U256, spot_1e6: u128) -> (r: Result<
    u128,
    OracleError,
>)
    ensures
        match max_safe_size(
            reserve_in.value(),
            reserve_out.value(),
            spot_1e6 as nat,
            SLIPPAGE_LIMIT_1E6 as nat,
        ) {
            Ok(v) => r == Ok::<u128, OracleError>(v as u128),
            Err(e) => r == Err::<u128, OracleError>(e),
        },
        r matches Ok(size) ==> size <= reserve_in.value() / 2 && (size == 0 || within_slippage(
            size as nat,
            reserve_in.value(),
            reserve_out.value(),
            spot_1e6 as nat,
            SLIPPAGE_LIMIT_1E6 as nat,
        ) == Ok::<bool, OracleError>(true)),
{
    max_safe_execution_size_within(reserve_in, reserve_out, spot_1e6, SLIPPAGE_LIMIT_1E6)
}

/// What every state of a bisection that began at a lower bound of zero
/// satisfies: the bounds have not crossed by more than two, and the best
/// size is the one just below the lower bound.
pub open spec fn well_formed(s: SearchState) -> bool {
    s.low <= s.high + 2 && s.best == floored_sub(s.low, 1)
}

/// A wider slippage bound admits every trade that a narrower one admits,
/// and a probe fails under the one exactly where it fails under the other.
proof fn lemma_within_slippage_monotone(
    amount_in: nat,
    reserve_in: nat,
    reserve_out: nat,
    spot: nat,
    narrow: nat,
    wide: nat,
)
    requires
        narrow <= wide,
    ensures
        within_slippage(amount_in, reserve_in, reserve_out, spot, narrow) is Err
            <==> within_slippage(amount_in, reserve_in, reserve_out, spot, wide) is Err,
        within_slippage(amount_in, reserve_in, reserve_out, spot, narrow) == Ok::<
            bool,
            OracleError,
        >(true) ==> within_slippage(amount_in, reserve_in, reserve_out, spot, wide) == Ok::<
            bool,
            OracleError,
        >(true),
{
}

/// A search never returns less than the best size it starts with.
proof fn lemma_search_keeps_best(
    s: SearchState,
    reserve_in: nat,
    reserve_out: nat,
    spot: nat,
    limit: nat,
    rounds: nat,
)
    requires
        well_formed(s),
        search(s, reserve_in, reserve_out, spot, limit, rounds) is Ok,
    ensures
        search(s, reserve_in, reserve_out, spot, limit, rounds)->Ok_0 >= s.best,
    decreases rounds,
{
    let mid = midpoint(s);
    if rounds == 0 || mid == 0 {
    } else {
        match within_slippage(mid, reserve_in, reserve_out, spot, limit) {
            Err(e) => {},
            Ok(true) => {
                let next = SearchState { low: mid + 1, high: s.high, best: mid };
                lemma_search_keeps_best(
                    next,
                    reserve_in,
                    reserve_out,
                    spot,
                    limit,
                    (rounds - 1) as nat,
                );
            },
            Ok(false) => {
                let next = SearchState { low: s.low, high: (mid - 1) as nat, best: s.best };
                lemma_search_keeps_best(
                    next,
                    reserve_in,
                    reserve_out,
                    spot,
                    limit,
                    (rounds - 1) as nat,
                );
            },
        }
    }
}

/// A search whose bounds and best size lie at or below `bound` returns
/// nothing above `bound`.
proof fn lemma_search_stays_below(
    s: SearchState,
    bound: nat,
    reserve_in: nat,
    reserve_out: nat,
    spot: nat,
    limit: nat,
    rounds: nat,
)
    requires
        s.low <= bound + 1,
        s.high <= bound,
        s.best <= bound,
        search(s, reserve_in, reserve_out, spot, limit, rounds) is Ok,
    ensures
        search(s, reserve_in, reserve_out, spot, limit, rounds)->Ok_0 <= bound,
    decreases rounds,
{
    let mid = midpoint(s);
    if rounds == 0 || mid == 0 {
    } else {
        match within_slippage(mid, reserve_in, reserve_out, spot, limit) {
            Err(e) => {},
            Ok(true) => {
                let next = SearchState { low: mid + 1, high: s.high, best: mid };
                lemma_search_stays_below(
                    next,
                    bound,
                    reserve_in,
                    reserve_out,
                    spot,
                    limit,
                    (rounds - 1) as nat,
                );
            },
            Ok(false) => {
                let next = SearchState { low: s.low, high: (mid - 1) as nat, best: s.best };
                lemma_search_stays_below(
                    next,
                    bound,
                    reserve_in,
                    reserve_out,
                    spot,
                    limit,
                    (rounds - 1) as nat,
                );
            },
        }
    }
}

/// From one state, the search under the wider bound returns no less than
/// the search under the narrower one, where both succeed.
proof fn lemma_search_monotone(
    s: SearchState,
    reserve_in: nat,
    reserve_out: nat,
    spot: nat,
    narrow: nat,
    wide: nat,
    rounds: nat,
)
    requires
        well_formed(s),
        narrow <= wide,
        search(s, reserve_in, reserve_out, spot, narrow, rounds) is Ok,
        search(s, reserve_in, reserve_out, spot, wide, rounds) is Ok,
    ensures
        search(s, reserve_in, reserve_out, spot, narrow, rounds)->Ok_0 <= search(
            s,
            reserve_in,
            reserve_out,
            spot,
            wide,
            rounds,
        )->Ok_0,
    decreases rounds,
{
    let mid = midpoint(s);
    if rounds == 0 || mid == 0 {
    } else {
        lemma_within_slippage_monotone(mid, reserve_in, reserve_out, spot, narrow, wide);
        let below = SearchState { low: s.low, high: (mid - 1) as nat, best: s.best };
        let above = SearchState { low: mid + 1, high: s.high, best: mid };
        let remaining = (rounds - 1) as nat;
        let probe_narrow = within_slippage(mid, reserve_in, reserve_out, spot, narrow);
        let probe_wide = within_slippage(mid, reserve_in, reserve_out, spot, wide);
        if probe_narrow == Ok::<bool, OracleError>(true) {
            lemma_search_monotone(above, reserve_in, reserve_out, spot, narrow, wide, remaining);
        } else if probe_wide == Ok::<bool, OracleError>(false) {
            lemma_search_monotone(below, reserve_in, reserve_out, spot, narrow, wide, remaining);
        } else {
            // The searches part: the narrow one goes on below the midpoint,
            // the wide one keeps the midpoint as its best size.
            lemma_search_stays_below(
                below,
                mid,
                reserve_in,
                reserve_out,
                spot,
                narrow,
                remaining,
            );
            lemma_search_keeps_best(above, reserve_in, reserve_out, spot, wide, remaining);
        }
    }
}

/// The size found does not fall as the slippage bound grows: for fixed
/// reserves and spot price and two bounds `narrow <= wide` under both of
/// which the search succeeds, the size under `narrow` is at most the size
/// under `wide`.
pub proof fn lemma_max_safe_size_monotone(
    reserve_in: nat,
    reserve_out: nat,
    spot: nat,
    narrow: nat,
    wide: nat,
)
    requires
        narrow <= wide,
        max_safe_size(reserve_in, reserve_out, spot, narrow) is Ok,
        max_safe_size(reserve_in, reserve_out, spot, wide) is Ok,
    ensures
        max_safe_size(reserve_in, reserve_out, spot, narrow)->Ok_0 <= max_safe_size(
            reserve_in,
            reserve_out,
            spot,
            wide,
        )->Ok_0,
{
    let start = SearchState { low: 0, high: reserve_in / 2, best: 0 };
    lemma_search_monotone(
        start,
        reserve_in,
        reserve_out,
        spot,
        narrow,
        wide,
        SEARCH_ROUNDS as nat,
    );
}

/// A search returns the best size it starts with or a size that it has
/// probed and found within the slippage bound.
proof fn lemma_search_returns_probed(
    s: SearchState,
    reserve_in: nat,
    reserve_out: nat,
    spot: nat,
    limit: nat,
    rounds: nat,
)
    requires
        search(s, reserve_in, reserve_out, spot, limit, rounds) is Ok,
    ensures
        ({
            let found = search(s, reserve_in, reserve_out, spot, limit, rounds)->Ok_0;
            found == s.best || within_slippage(found, reserve_in, reserve_out, spot, limit) == Ok::<
                bool,
                OracleError,
            >(true)
        }),
    decreases rounds,
{
    let mid = midpoint(s);
    if rounds == 0 || mid == 0 {
    } else {
        match within_slippage(mid, reserve_in, reserve_out, spot, limit) {
            Err(e) => {},
            Ok(true) => {
                let next = SearchState { low: mid + 1, high: s.high, best: mid };
                lemma_search_returns_probed(
                    next,
                    reserve_in,
                    reserve_out,
                    spot,
                    limit,
                    (rounds - 1) as nat,
                );
            },
            Ok(false) => {
                let next = SearchState { low: s.low, high: (mid - 1) as nat, best: s.best };
                lemma_search_returns_probed(
                    next,
                    reserve_in,
                    reserve_out,
                    spot,
                    limit,
                    (rounds - 1) as nat,
                );
            },
        }
    }
}

/// The size found is zero or stays within the slippage bound.
pub proof fn lemma_max_safe_size_is_safe(reserve_in: nat, reserve_out: nat, spot: nat, limit: nat)
    requires
        max_safe_size(reserve_in, reserve_out, spot, limit) is Ok,
    ensures
        ({
            let found = max_safe_size(reserve_in, reserve_out, spot, limit)->Ok_0;
            found == 0 || within_slippage(found, reserve_in, reserve_out, spot, limit) == Ok::<
                bool,
                OracleError,
            >(true)
        }),
{
    let start = SearchState { low: 0, high: reserve_in / 2, best: 0 };
    lemma_search_returns_probed(
        start,
        reserve_in,
        reserve_out,
        spot,
        limit,
        SEARCH_ROUNDS as nat,
    );
}

/// What holds of a size that is found: it is at most half the input
/// reserve, and is zero or stays within the slippage bound.
proof fn lemma_size_found(reserve_in: nat, reserve_out: nat, spot: nat, limit: nat)
    ensures
        max_safe_size(reserve_in, reserve_out, spot, limit) matches Ok(found) ==> found
            <= reserve_in / 2 && (found == 0 || within_slippage(
            found,
            reserve_in,
            reserve_out,
            spot,
            limit,
        ) == Ok::<bool, OracleError>(true)),
{
    if max_safe_size(reserve_in, reserve_out, spot, limit) is Ok {
        lemma_max_safe_size_bounded(reserve_in, reserve_out, spot, limit);
        lemma_max_safe_size_is_safe(reserve_in, reserve_out, spot, limit);
    }
}

/// The size found is at most half the input reserve.
pub proof fn lemma_max_safe_size_bounded(reserve_in: nat, reserve_out: nat, spot: nat, limit: nat)
    requires
        max_safe_size(reserve_in, reserve_out, spot, limit) is Ok,
    ensures
        max_safe_size(reserve_in, reserve_out, spot, limit)->Ok_0 <= reserve_in / 2,
{
    let start = SearchState { low: 0, high: reserve_in / 2, best: 0 };
    lemma_search_stays_below(
        start,
        reserve_in / 2,
        reserve_in,
        reserve_out,
        spot,
        limit,
        SEARCH_ROUNDS as nat,
    );
}

} // verus!
