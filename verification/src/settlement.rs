use vstd::prelude::*;

use crate::errors::MarketError;
use crate::ledger::{copy_bytes, TradeLedger};
use crate::trade::{EnergyTrade, TradeSide};

verus! {

/// One settlement line: the participant owed, and either the amount to
/// transfer or the reason this payout fails. A failing payout does not
/// abort settlement for the remaining participants.
#[derive(Debug, PartialEq, Eq)]
pub struct PayoutEntry {
    pub participant: Vec<u8>,
    pub payout: Result<u64, MarketError>,
}

/// The clearing ratio applied to pushed payouts: when supply exceeds
/// demand, pushers are scaled down by demand/supply (integer division,
/// which truncates toward zero; with demand strictly below supply the
/// ratio truncates to 0 and scaled payouts vanish entirely).
pub open spec fn spec_push_ratio(total_pushed: int, total_requested: int) -> int {
    if total_pushed > total_requested {
        total_requested / total_pushed
    } else {
        1
    }
}

/// The clearing ratio applied to requested payouts, symmetric to
/// `spec_push_ratio`.
pub open spec fn spec_request_ratio(total_pushed: int, total_requested: int) -> int {
    if total_requested > total_pushed {
        total_pushed / total_requested
    } else {
        1
    }
}

/// The payout owed for one trade, stepwise checked: a pusher earns
/// `energy * price` scaled by the push ratio; a requester is refunded
/// `currency - energy * price` scaled by the request ratio, and underpaying
/// is a `NegativePayout`. Any step outside the `u64` range is an
/// `ArithmeticOverflow` for this payout alone.
pub open spec fn spec_payout(
    t: EnergyTrade,
    total_pushed: int,
    total_requested: int,
    price_per_unit: int,
) -> Result<u64, MarketError> {
    match t.side {
        TradeSide::Push => {
            let gross = t.energy_amount * price_per_unit;
            if gross > u64::MAX {
                Err(MarketError::ArithmeticOverflow)
            } else {
                let scaled = gross * spec_push_ratio(total_pushed, total_requested);
                if scaled > u64::MAX {
                    Err(MarketError::ArithmeticOverflow)
                } else {
                    Ok(scaled as u64)
                }
            }
        },
        TradeSide::Request => {
            let gross = t.energy_amount * price_per_unit;
            if gross > u64::MAX {
                Err(MarketError::ArithmeticOverflow)
            } else if t.currency_paid < gross {
                Err(MarketError::NegativePayout)
            } else {
                let scaled = (t.currency_paid - gross) * spec_request_ratio(
                    total_pushed,
                    total_requested,
                );
                if scaled > u64::MAX {
                    Err(MarketError::ArithmeticOverflow)
                } else {
                    Ok(scaled as u64)
                }
            }
        },
    }
}

/// The payout owed for a single trade.
pub fn payout_for(
    t: &EnergyTrade,
    total_pushed: u64,
    total_requested: u64,
    price_per_unit: u64,
) -> (r: Result<u64, MarketError>)
    ensures
        r == spec_payout(*t, total_pushed as int, total_requested as int, price_per_unit as int),
{
    match t.side {
        TradeSide::Push => {
            let gross = match t.energy_amount.checked_mul(price_per_unit) {
                Some(g) => g,
                None => {
                    return Err(MarketError::ArithmeticOverflow);
                },
            };
            let ratio: u64 = if total_pushed > total_requested {
                total_requested / total_pushed
            } else {
                1
            };
            match gross.checked_mul(ratio) {
                Some(s) => Ok(s),
                None => Err(MarketError::ArithmeticOverflow),
            }
        },
        TradeSide::Request => {
            let gross = match t.energy_amount.checked_mul(price_per_unit) {
                Some(g) => g,
                None => {
                    return Err(MarketError::ArithmeticOverflow);
                },
            };
            if t.currency_paid < gross {
                return Err(MarketError::NegativePayout);
            }
            let ratio: u64 = if total_requested > total_pushed {
                total_pushed / total_requested
            } else {
                1
            };
            match (t.currency_paid - gross).checked_mul(ratio) {
                Some(s) => Ok(s),
                None => Err(MarketError::ArithmeticOverflow),
            }
        },
    }
}

/// Settles the whole ledger: one line per row, in ledger-enumeration order,
/// each independently checked. A market with no volume at all produces no
/// payouts.
pub fn compute_payouts(
    ledger: &TradeLedger,
    total_pushed: u64,
    total_requested: u64,
    price_per_unit: u64,
) -> (r: Vec<PayoutEntry>)
    ensures
        total_pushed == 0 && total_requested == 0 ==> r@.len() == 0,
        !(total_pushed == 0 && total_requested == 0) ==> {
            &&& r@.len() == ledger@.len()
            &&& forall|i: int|
                0 <= i < r@.len() ==> (#[trigger] r@[i]).participant@ == ledger@[i].0 && r@[i].payout
                    == spec_payout(
                    ledger@[i].1,
                    total_pushed as int,
                    total_requested as int,
                    price_per_unit as int,
                )
        },
{
    let mut out: Vec<PayoutEntry> = Vec::new();
    if total_pushed == 0 && total_requested == 0 {
        return out;
    }
    let n = ledger.len();
    let mut i: usize = 0;
    while i < n
        invariant
            0 <= i <= n,
            n == ledger@.len(),
            out@.len() == i,
            forall|k: int|
                0 <= k < i ==> (#[trigger] out@[k]).participant@ == ledger@[k].0 && out@[k].payout
                    == spec_payout(
                    ledger@[k].1,
                    total_pushed as int,
                    total_requested as int,
                    price_per_unit as int,
                ),
        decreases n - i,
    {
        let entry = ledger.entry_at(i);
        let payout = payout_for(&entry.trade, total_pushed, total_requested, price_per_unit);
        out.push(PayoutEntry { participant: copy_bytes(entry.participant.as_slice()), payout });
        i = i + 1;
    }
    out
}

} // verus!
