use vstd::prelude::*;

verus! {

/// Which side of the market a trade is on.
#[derive(Clone, Copy, Debug, PartialEq, Eq, Structural)]
pub enum TradeSide {
    /// An offer to sell energy into the market.
    Push,
    /// An offer to buy energy from the market.
    Request,
}

/// One participant's current trade: its side, the energy volume offered or
/// claimed, and the settlement currency attached to the submission.
#[derive(Clone, Copy, Debug, PartialEq, Eq, Structural)]
pub struct EnergyTrade {
    pub side: TradeSide,
    pub energy_amount: u64,
    pub currency_paid: u64,
}

/// String equality; the building block for validating string parameters.
fn str_eq(a: &str, b: &str) -> (r: bool)
    ensures
        r == (a@ == b@),
{
    let a_owned: String = a.to_owned();
    let b_owned: String = b.to_owned();
    a_owned == b_owned
}

/// Decodes the wire form of a trade side: `"pushed"` or `"requested"`.
/// Any other value is rejected by the caller as `InvalidParameter`.
pub fn parse_trade_side(s: &str) -> (r: Option<TradeSide>)
    ensures
        r == (if s@ == "pushed"@ {
            Some(TradeSide::Push)
        } else if s@ == "requested"@ {
            Some(TradeSide::Request)
        } else {
            None::<TradeSide>
        }),
{
    if str_eq(s, "pushed") {
        Some(TradeSide::Push)
    } else if str_eq(s, "requested") {
        Some(TradeSide::Request)
    } else {
        None
    }
}

} // verus!
