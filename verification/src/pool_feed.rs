//! The feed of a single pool: the price of the most liquid pool of the
//! wanted pair among the pools that an exchange reports.

use crate::abi::{abi_encode, be_word, AbiValue};
use crate::codec::{
    address_of_word, all_zero_digits, call_data_of, encode_call_with_two_addresses,
    is_zero_address, parse_address_from_32byte, strip_0x_of,
};
use crate::decimal::{decimal_of, parse_decimal_to_u128};
use crate::error::OracleError;
use crate::text::{lowercased, same_text, trimmed};
use crate::uint256::U256;
use vstd::prelude::*;
use vstd::string::*;

verus! {

/// The symbol of the base token of the wanted pair.
pub const TARGET_BASE_SYMBOL: &'static str = "WCRO";

/// The symbol of the quote token of the wanted pair.
pub const TARGET_QUOTE_SYMBOL: &'static str = "USDC";

/// The number of decimals that a price is published with.
pub const PRICE_DECIMALS: u32 = 8;

/// The number of decimals that a liquidity is compared with.
pub const LIQUIDITY_DECIMALS: u32 = 18;

/// A pool as an exchange reports it.
#[derive(Debug)]
pub struct VvsPair {
    pub base_symbol: String,
    pub quote_symbol: String,
    /// The price, as decimal text.
    pub price: String,
    /// The liquidity, as decimal text.
    pub liquidity: String,
}

/// The liquidity of a pool of the wanted pair; `None` for a pool of
/// another pair and for one whose liquidity is no decimal text.
pub open spec fn eligible_liquidity(pair: VvsPair) -> Option<u128> {
    if pair.base_symbol@ == TARGET_BASE_SYMBOL@ && pair.quote_symbol@ == TARGET_QUOTE_SYMBOL@ {
        decimal_of(trimmed(pair.liquidity@), LIQUIDITY_DECIMALS as nat)
    } else {
        None
    }
}

/// The place of the pool that is selected among those reported: each
/// pool of the wanted pair takes the place of the one selected before it
/// where it is more liquid.
pub open spec fn selected(pairs: Seq<VvsPair>) -> Option<int>
    decreases pairs.len(),
{
    if pairs.len() == 0 {
        None
    } else {
        let before = selected(pairs.drop_last());
        match eligible_liquidity(pairs.last()) {
            None => before,
            Some(liquidity) => match before {
                None => Some(pairs.len() - 1),
                Some(place) => if liquidity > eligible_liquidity(pairs[place])->0 {
                    Some(pairs.len() - 1)
                } else {
                    before
                },
            },
        }
    }
}

/// The price of the selected pool at eight decimals.
///
/// It is `NoPoolInResponse` where no pool is selected and
/// `PriceUnreadable` where the price of the selected pool is no decimal
/// text.
pub open spec fn selected_price(pairs: Seq<VvsPair>) -> Result<u128, OracleError> {
    match selected(pairs) {
        None => Err(OracleError::NoPoolInResponse),
        Some(place) => match decimal_of(trimmed(pairs[place].price@), PRICE_DECIMALS as nat) {
            Some(price) => Ok(price),
            None => Err(OracleError::PriceUnreadable),
        },
    }
}

/// The selected pool is the first of the most liquid pools of the wanted
/// pair: it is of that pair, no pool of the pair is more liquid, and none
/// before it is as liquid. Where none is selected, none is of the pair.
pub proof fn lemma_selected_is_first_maximum(pairs: Seq<VvsPair>)
    ensures
        match selected(pairs) {
            Some(place) => {
                &&& 0 <= place < pairs.len()
                &&& eligible_liquidity(pairs[place]) is Some
                &&& forall|i: int|
                    0 <= i < pairs.len() && eligible_liquidity(#[trigger] pairs[i]) is Some
                        ==> eligible_liquidity(pairs[i])->0 <= eligible_liquidity(pairs[place])->0
                &&& forall|i: int|
                    0 <= i < place && eligible_liquidity(#[trigger] pairs[i]) is Some
                        ==> eligible_liquidity(pairs[i])->0 < eligible_liquidity(pairs[place])->0
            },
            None => forall|i: int|
                0 <= i < pairs.len() ==> eligible_liquidity(#[trigger] pairs[i]) is None,
        },
    decreases pairs.len(),
{
    if pairs.len() > 0 {
        let earlier = pairs.drop_last();
        lemma_selected_is_first_maximum(earlier);
        assert forall|i: int| 0 <= i < earlier.len() implies earlier[i] == pairs[i] by {}
        match selected(pairs) {
            Some(place) => {
                assert forall|i: int|
                    0 <= i < pairs.len() && eligible_liquidity(
                        #[trigger] pairs[i],
                    ) is Some implies eligible_liquidity(pairs[i])->0 <= eligible_liquidity(
                    pairs[place],
                )->0 by {
                    if i < earlier.len() {
                        assert(eligible_liquidity(earlier[i]) is Some);
                    }
                }
                assert forall|i: int|
                    0 <= i < place && eligible_liquidity(
                        #[trigger] pairs[i],
                    ) is Some implies eligible_liquidity(pairs[i])->0 < eligible_liquidity(
                    pairs[place],
                )->0 by {
                    assert(eligible_liquidity(earlier[i]) is Some);
                }
            },
            None => {
                assert forall|i: int| 0 <= i < pairs.len() implies eligible_liquidity(
                    #[trigger] pairs[i],
                ) is None by {
                    if i < earlier.len() {
                        assert(eligible_liquidity(earlier[i]) is None);
                    }
                }
            },
        }
    }
}

/// The price, at eight decimals, of the most liquid pool of the wanted
/// pair; of several that are as liquid, of the first.
pub fn select_price(pairs: &Vec<VvsPair>) -> (r: Result<u128, OracleError>)
    ensures
        r == selected_price(pairs@),
{
    let mut place: Option<usize> = None;
    let mut best: u128 = 0;
    let mut i: usize = 0;
    assert(pairs@.subrange(0, 0) =~= Seq::<VvsPair>::empty());
    while i < pairs.len()
        invariant
            i <= pairs.len(),
            match place {
                Some(p) => selected(pairs@.subrange(0, i as int)) == Some(p as int) && p < i
                    && eligible_liquidity(pairs@[p as int]) == Some(best),
                None => selected(pairs@.subrange(0, i as int)) is None,
            },
        decreases pairs.len() - i,
    {
        proof {
            let longer = pairs@.subrange(0, i + 1);
            assert(longer.drop_last() =~= pairs@.subrange(0, i as int));
            assert(longer.last() == pairs@[i as int]);
            if let Some(p) = place {
                assert(longer[p as int] == pairs@[p as int]);
            }
        }
        let pair = &pairs[i];
        if same_text(pair.base_symbol.as_str(), TARGET_BASE_SYMBOL) && same_text(
            pair.quote_symbol.as_str(),
            TARGET_QUOTE_SYMBOL,
        ) {
            match parse_decimal_to_u128(pair.liquidity.as_str(), LIQUIDITY_DECIMALS) {
                Some(liquidity) => {
                    let replace = match place {
                        Some(_) => liquidity > best,
                        None => true,
                    };
                    if replace {
                        place = Some(i);
                        best = liquidity;
                    }
                },
                None => {},
            }
        }
        i = i + 1;
    }
    assert(pairs@.subrange(0, i as int) =~= pairs@);
    match place {
        None => Err(OracleError::NoPoolInResponse),
        Some(p) => match parse_decimal_to_u128(pairs[p].price.as_str(), PRICE_DECIMALS) {
            Some(price) => Ok(price),
            None => Err(OracleError::PriceUnreadable),
        },
    }
}

/// The feed is run by one node: any other number of reveals fails with
/// `RevealCount`.
pub fn require_single_reveal(count: usize) -> (r: Result<(), OracleError>)
    ensures
        count == 1 ==> r is Ok,
        count != 1 ==> r == Err::<(), OracleError>(OracleError::RevealCount),
{
    if count != 1 {
        Err(OracleError::RevealCount)
    } else {
        Ok(())
    }
}

/// The result of the feed as it is published: the price of the selected
/// pool, encoded as one `uint256`.
pub fn tally_phase(pairs: &Vec<VvsPair>) -> (r: Result<Vec<u8>, OracleError>)
    ensures
        match selected_price(pairs@) {
            Ok(price) => r matches Ok(bytes) && bytes@ == be_word(price as nat),
            Err(e) => r matches Err(f) && f == e,
        },
{
    let price = match select_price(pairs) {
        Ok(price) => price,
        Err(e) => {
            return Err(e);
        },
    };
    Ok(abi_encode(&AbiValue::Uint(U256::from_u128(price))))
}

/// The address of the pool in the answer of the factory.
///
/// It is `PairAddress` where the answer is no word, and `PoolNotFound`
/// where the address is made of zero digits alone.
pub open spec fn pool_address_of(answer: Seq<char>) -> Result<Seq<char>, OracleError> {
    match address_of_word(answer) {
        None => Err(OracleError::PairAddress),
        Some(address) => if all_zero_digits(address.subrange(2, address.len() as int)) {
            Err(OracleError::PoolNotFound)
        } else {
            Ok(address)
        },
    }
}

/// The address of the pool in the answer of the factory, which answers
/// with the zero address where it knows no pool of the pair.
pub fn pool_address(answer: &str) -> (r: Result<String, OracleError>)
    ensures
        match pool_address_of(answer@) {
            Ok(address) => r matches Ok(s) && s@ == address,
            Err(e) => r matches Err(f) && f == e,
        },
{
    let address = match parse_address_from_32byte(answer) {
        Some(address) => address,
        None => {
            return Err(OracleError::PairAddress);
        },
    };
    if is_zero_address(address.as_str()) {
        Err(OracleError::PoolNotFound)
    } else {
        Ok(address)
    }
}

/// The address of the factory that knows the pools.
pub const FACTORY_ADDRESS: &'static str = "0x3b44b2a187a7b3824131f8db5a74194d0a42fc15";

/// The address of the base token.
pub const WCRO_ADDRESS: &'static str = "0x5C7F8A570d578ED84E63fdFA7b1eE72dEae1AE23";

/// The address of the quote token.
pub const USDC_ADDRESS: &'static str = "0xc21223249CA28397B4B6541dfFaEcC539BfF0c59";

/// The selector of `getPair(address,address)`.
pub const SELECTOR_GET_PAIR: &'static str = "e6a43905";

/// The selector of `getReserves()`.
pub const SELECTOR_GET_RESERVES: &'static str = "0902f1ac";

/// The selector of `token0()`.
pub const SELECTOR_TOKEN0: &'static str = "0dfe1681";

/// A call of a contract: its address and the data of the call.
#[derive(Debug)]
pub struct ContractCall {
    pub to: String,
    pub data: String,
}

/// What the feed's execution reveals: the pool, its first token and the
/// answer that holds its reserves, as it came.
#[derive(Debug)]
pub struct RpcPayload {
    pub pair_address: String,
    pub token0: String,
    pub reserves_result: String,
}

/// How far the feed's execution has come.
#[derive(Debug)]
pub enum FeedState {
    AwaitPair,
    AwaitToken0 { pair: String },
    AwaitReserves { pair: String, token0: String },
}

/// What the feed's execution does next.
#[derive(Debug)]
pub enum FeedStep {
    /// Make the call, and go on from the state with its answer.
    Call(FeedState, ContractCall),
    /// Reveal the payload.
    Succeed(RpcPayload),
    /// Give up.
    Fail(OracleError),
}

/// What a [`ContractCall`] holds.
pub struct CallView {
    pub to: Seq<char>,
    pub data: Seq<char>,
}

/// What an [`RpcPayload`] holds.
pub struct PayloadView {
    pub pair_address: Seq<char>,
    pub token0: Seq<char>,
    pub reserves_result: Seq<char>,
}

/// What a [`FeedState`] holds.
pub enum FeedStateView {
    AwaitPair,
    AwaitToken0 { pair: Seq<char> },
    AwaitReserves { pair: Seq<char>, token0: Seq<char> },
}

/// What a [`FeedStep`] holds.
pub enum FeedStepView {
    Call(FeedStateView, CallView),
    Succeed(PayloadView),
    Fail(OracleError),
}

impl ContractCall {
    pub open spec fn view(self) -> CallView {
        CallView { to: self.to@, data: self.data@ }
    }
}

impl RpcPayload {
    pub open spec fn view(self) -> PayloadView {
        PayloadView {
            pair_address: self.pair_address@,
            token0: self.token0@,
            reserves_result: self.reserves_result@,
        }
    }
}

impl FeedState {
    pub open spec fn view(self) -> FeedStateView {
        match self {
            FeedState::AwaitPair => FeedStateView::AwaitPair,
            FeedState::AwaitToken0 { pair } => FeedStateView::AwaitToken0 { pair: pair@ },
            FeedState::AwaitReserves { pair, token0 } => FeedStateView::AwaitReserves {
                pair: pair@,
                token0: token0@,
            },
        }
    }
}

impl FeedStep {
    pub open spec fn view(self) -> FeedStepView {
        match self {
            FeedStep::Call(state, call) => FeedStepView::Call(state.view(), call.view()),
            FeedStep::Succeed(payload) => FeedStepView::Succeed(payload.view()),
            FeedStep::Fail(e) => FeedStepView::Fail(e),
        }
    }
}

/// The first step of the feed's execution: the factory is asked for the
/// pool of the two tokens. The feed is run by one node; with any other
/// number it fails with `ReplicationFactor`.
pub open spec fn first_step_of(replication_factor: u16) -> FeedStepView {
    if replication_factor != 1 {
        FeedStepView::Fail(OracleError::ReplicationFactor)
    } else {
        FeedStepView::Call(
            FeedStateView::AwaitPair,
            CallView {
                to: FACTORY_ADDRESS@,
                data: call_data_of(
                    SELECTOR_GET_PAIR@,
                    lowercased(strip_0x_of(WCRO_ADDRESS@)),
                    lowercased(strip_0x_of(USDC_ADDRESS@)),
                ),
            },
        )
    }
}

/// What the feed's execution in `state` does with an answer.
///
/// - The factory's answer must hold the pool's address, else
///   `PairAddress`, and not the zero address, else `PoolNotFound`; the
///   pool is asked for its first token next.
/// - The answer for the first token must be a word, else `Token0Address`;
///   the pool is asked for its reserves next.
/// - The answer for the reserves is revealed as it came, with the pool
///   and its first token.
pub open spec fn feed_step_of(state: FeedStateView, answer: Seq<char>) -> FeedStepView {
    match state {
        FeedStateView::AwaitPair => match pool_address_of(answer) {
            Err(e) => FeedStepView::Fail(e),
            Ok(pair) => FeedStepView::Call(
                FeedStateView::AwaitToken0 { pair },
                CallView { to: pair, data: SELECTOR_TOKEN0@ },
            ),
        },
        FeedStateView::AwaitToken0 { pair } => match address_of_word(answer) {
            None => FeedStepView::Fail(OracleError::Token0Address),
            Some(token0) => FeedStepView::Call(
                FeedStateView::AwaitReserves { pair, token0 },
                CallView { to: pair, data: SELECTOR_GET_RESERVES@ },
            ),
        },
        FeedStateView::AwaitReserves { pair, token0 } => FeedStepView::Succeed(
            PayloadView { pair_address: pair, token0, reserves_result: answer },
        ),
    }
}

/// The first step of the feed's execution.
pub fn begin(replication_factor: u16) -> (r: FeedStep)
    ensures
        r.view() == first_step_of(replication_factor),
{
    if replication_factor != 1 {
        return FeedStep::Fail(OracleError::ReplicationFactor);
    }
    let data = encode_call_with_two_addresses(SELECTOR_GET_PAIR, WCRO_ADDRESS, USDC_ADDRESS);
    FeedStep::Call(
        FeedState::AwaitPair,
        ContractCall { to: String::from_str(FACTORY_ADDRESS), data },
    )
}

/// What the feed's execution in `state` does with the answer to its call.
pub fn execution_phase(state: FeedState, answer: &str) -> (r: FeedStep)
    ensures
        r.view() == feed_step_of(state.view(), answer@),
{
    match state {
        FeedState::AwaitPair => {
            match pool_address(answer) {
                Err(e) => FeedStep::Fail(e),
                Ok(pair) => {
                    let to = pair.clone();
                    FeedStep::Call(
                        FeedState::AwaitToken0 { pair },
                        ContractCall { to, data: String::from_str(SELECTOR_TOKEN0) },
                    )
                },
            }
        },
        FeedState::AwaitToken0 { pair } => {
            match parse_address_from_32byte(answer) {
                None => FeedStep::Fail(OracleError::Token0Address),
                Some(token0) => {
                    let to = pair.clone();
                    FeedStep::Call(
                        FeedState::AwaitReserves { pair, token0 },
                        ContractCall { to, data: String::from_str(SELECTOR_GET_RESERVES) },
                    )
                },
            }
        },
        FeedState::AwaitReserves { pair, token0 } => FeedStep::Succeed(
            RpcPayload {
                pair_address: pair,
                token0,
                reserves_result: String::from_str(answer),
            },
        ),
    }
}

} // verus!
