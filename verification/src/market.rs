use vstd::prelude::*;
use vstd::string::StringSliceAdditionalSpecFns;

use crate::codec::{decode_ledger, spec_decode_ledger};
use crate::errors::MarketError;
use crate::ledger::{
    bytes_eq, contains_key, index_of_key, lemma_side_volume_le_sum, lemma_sum_side_push,
    lemma_sum_side_update, lemma_sum_side_nonneg, sum_side, side_volume, TradeLedger,
};
use crate::lifecycle::{MarketPhase, TimeWindow};
use crate::numparse::{
    check_negative_decimal, dec_value, is_dec_digits, is_negative_decimal, parse_dec_u64,
};
use crate::settlement::{compute_payouts, spec_payout, PayoutEntry};
use crate::timeparse::{parse_utc_datetime, utc_datetime_timestamp};
use crate::trade::{parse_trade_side, EnergyTrade, TradeSide};

verus! {

/// The sequence a ledger view becomes when `k`'s trade is set to `t`:
/// the existing row is overwritten, or a new row is appended.
pub open spec fn upserted(
    s: Seq<(Seq<u8>, EnergyTrade)>,
    k: Seq<u8>,
    t: EnergyTrade,
) -> Seq<(Seq<u8>, EnergyTrade)> {
    if contains_key(s, k) {
        s.update(index_of_key(s, k), (k, t))
    } else {
        s.push((k, t))
    }
}

/// The persisted market: owner identity, lifecycle phase, trading window,
/// running volume totals, and the ledger of current trades. It is the
/// permanent record; nothing is ever deleted from it.
pub struct Market {
    pub owner: Vec<u8>,
    pub phase: MarketPhase,
    pub window: TimeWindow,
    pub total_pushed: u64,
    pub total_requested: u64,
    pub ledger: TradeLedger,
}

impl Market {
    /// The market's invariant: one row per participant, each running total
    /// is exactly the sum of `energy_amount` over the ledger rows currently
    /// on that side, and an uninitialized market has an empty ledger.
    pub open spec fn wf(&self) -> bool {
        &&& self.ledger.wf()
        &&& self.total_pushed == sum_side(self.ledger@, TradeSide::Push)
        &&& self.total_requested == sum_side(self.ledger@, TradeSide::Request)
        &&& (self.phase == MarketPhase::Uninitialized ==> self.ledger@.len() == 0)
    }

    /// A market as first created on the host ledger: owned, not yet
    /// initialized, with no deadline, no volume and no trades.
    pub fn new(owner: Vec<u8>) -> (r: Market)
        ensures
            r.wf(),
            r.owner@ == owner@,
            r.phase == MarketPhase::Uninitialized,
            r.window.deadline is None,
            r.total_pushed == 0,
            r.total_requested == 0,
            r.ledger@ =~= Seq::<(Seq<u8>, EnergyTrade)>::empty(),
    {
        Market {
            owner,
            phase: MarketPhase::Uninitialized,
            window: TimeWindow { deadline: None },
            total_pushed: 0,
            total_requested: 0,
            ledger: TradeLedger::new(),
        }
    }

    /// Rebuilds a market from its persisted pieces: the scalar fields and
    /// the ledger's wire form. The running totals are recomputed from the
    /// decoded ledger, so the result always satisfies the market invariant;
    /// `None` where the bytes are not a well-formed ledger, a total is out
    /// of machine range, or an uninitialized market carries trades.
    pub fn restore(
        owner: Vec<u8>,
        phase: MarketPhase,
        window: TimeWindow,
        ledger_bytes: &[u8],
    ) -> (r: Option<Market>)
        ensures
            r is Some <==> (spec_decode_ledger(ledger_bytes@) is Some && {
                let s = spec_decode_ledger(ledger_bytes@)->Some_0;
                &&& sum_side(s, TradeSide::Push) <= u64::MAX
                &&& sum_side(s, TradeSide::Request) <= u64::MAX
                &&& (phase == MarketPhase::Uninitialized ==> s.len() == 0)
            }),
            r matches Some(m) ==> {
                &&& m.wf()
                &&& m.owner@ == owner@
                &&& m.phase == phase
                &&& m.window == window
                &&& Some(m.ledger@) == spec_decode_ledger(ledger_bytes@)
            },
    {
        let ledger = match decode_ledger(ledger_bytes) {
            Some(l) => l,
            None => {
                return None;
            },
        };
        let total_pushed = match ledger.side_total(TradeSide::Push) {
            Some(v) => v,
            None => {
                return None;
            },
        };
        let total_requested = match ledger.side_total(TradeSide::Request) {
            Some(v) => v,
            None => {
                return None;
            },
        };
        if matches!(phase, MarketPhase::Uninitialized) && ledger.len() > 0 {
            return None;
        }
        Some(Market { owner, phase, window, total_pushed, total_requested, ledger })
    }

    /// Opens the market. Only the owner may do so, and only once. An empty
    /// `deadline_param` means no deadline; otherwise it must be a UTC
    /// datetime string "YYYY-MM-DD HH:MM", which becomes the deadline.
    pub fn initialize(&mut self, caller: &[u8], deadline_param: &str) -> (r: Result<
        (),
        MarketError,
    >)
        requires
            old(self).wf(),
        ensures
            final(self).wf(),
            caller@ != old(self).owner@ ==> r == Err::<(), MarketError>(MarketError::Unauthorized)
                && *final(self) == *old(self),
            caller@ == old(self).owner@ && old(self).phase != MarketPhase::Uninitialized ==> r
                == Err::<(), MarketError>(MarketError::AlreadyInitialized) && *final(self) == *old(
                self,
            ),
            caller@ == old(self).owner@ && old(self).phase == MarketPhase::Uninitialized ==> {
                if deadline_param@.len() == 0 {
                    &&& r == Ok::<(), MarketError>(())
                    &&& *final(self) == (Market {
                        phase: MarketPhase::Open,
                        window: TimeWindow { deadline: None },
                        total_pushed: 0,
                        total_requested: 0,
                        ..*old(self)
                    })
                } else {
                    match utc_datetime_timestamp(deadline_param@) {
                        None => r == Err::<(), MarketError>(MarketError::InvalidParameter)
                            && *final(self) == *old(self),
                        Some(ts) => r == Ok::<(), MarketError>(()) && *final(self) == (Market {
                            phase: MarketPhase::Open,
                            window: TimeWindow { deadline: Some(ts) },
                            total_pushed: 0,
                            total_requested: 0,
                            ..*old(self)
                        }),
                    }
                }
            },
    {
        if !bytes_eq(caller, self.owner.as_slice()) {
            return Err(MarketError::Unauthorized);
        }
        if !matches!(self.phase, MarketPhase::Uninitialized) {
            return Err(MarketError::AlreadyInitialized);
        }
        if deadline_param.is_empty() {
            self.window = TimeWindow { deadline: None };
        } else {
            match parse_utc_datetime(deadline_param) {
                None => {
                    return Err(MarketError::InvalidParameter);
                },
                Some(ts) => {
                    self.window = TimeWindow { deadline: Some(ts) };
                },
            }
        }
        self.total_pushed = 0;
        self.total_requested = 0;
        self.phase = MarketPhase::Open;
        Ok(())
    }

    /// The outcome `submit_trade` owes for given inputs, checked in order:
    /// phase and deadline gate the call; the side and amount parameters are
    /// validated; then the new running totals must fit the machine range.
    pub open spec fn spec_submit_result(
        m: Market,
        caller: Seq<u8>,
        now: i64,
        side_param: Seq<char>,
        energy_param: Seq<u8>,
        currency: i64,
    ) -> Result<(), MarketError> {
        if m.phase != MarketPhase::Open || !m.window.spec_accepts(now) {
            Err(MarketError::InvalidLifecycleTransition)
        } else if side_param != "pushed"@ && side_param != "requested"@ {
            Err(MarketError::InvalidParameter)
        } else if is_negative_decimal(energy_param) {
            Err(MarketError::InvalidAmount)
        } else if !(is_dec_digits(energy_param) && dec_value(energy_param) <= u64::MAX) {
            Err(MarketError::InvalidParameter)
        } else if currency < 0 {
            Err(MarketError::InvalidAmount)
        } else {
            let t = Market::spec_submitted_trade(side_param, energy_param, currency);
            let next = upserted(m.ledger@, caller, t);
            if sum_side(next, TradeSide::Push) > u64::MAX {
                Err(MarketError::ArithmeticOverflow)
            } else if sum_side(next, TradeSide::Request) > u64::MAX {
                Err(MarketError::ArithmeticOverflow)
            } else {
                Ok(())
            }
        }
    }

    /// The trade a successful submission records.
    pub open spec fn spec_submitted_trade(
        side_param: Seq<char>,
        energy_param: Seq<u8>,
        currency: i64,
    ) -> EnergyTrade {
        EnergyTrade {
            side: if side_param == "pushed"@ {
                TradeSide::Push
            } else {
                TradeSide::Request
            },
            energy_amount: dec_value(energy_param) as u64,
            currency_paid: currency as u64,
        }
    }

    /// Records or overwrites the caller's trade. `side_param` is the wire
    /// form of the side ("pushed"/"requested"), `energy_param` the base-ten
    /// energy volume, `currency` the settlement currency attached to the
    /// submission. On any error nothing is mutated; on success the
    /// caller's row is the one just submitted and the running totals again
    /// equal the per-side ledger sums.
    pub fn submit_trade(
        &mut self,
        caller: Vec<u8>,
        now: i64,
        side_param: &str,
        energy_param: &str,
        currency: i64,
    ) -> (r: Result<(), MarketError>)
        requires
            old(self).wf(),
        ensures
            final(self).wf(),
            r == Market::spec_submit_result(
                *old(self),
                caller@,
                now,
                side_param@,
                energy_param.spec_bytes(),
                currency,
            ),
            r is Err ==> *final(self) == *old(self),
            r is Ok ==> {
                let t = Market::spec_submitted_trade(
                    side_param@,
                    energy_param.spec_bytes(),
                    currency,
                );
                &&& final(self).ledger@ == upserted(old(self).ledger@, caller@, t)
                &&& final(self).owner == old(self).owner
                &&& final(self).phase == old(self).phase
                &&& final(self).window == old(self).window
            },
    {
        if !matches!(self.phase, MarketPhase::Open) {
            return Err(MarketError::InvalidLifecycleTransition);
        }
        if !self.window.accepts_trade(now) {
            return Err(MarketError::InvalidLifecycleTransition);
        }
        let side = match parse_trade_side(side_param) {
            Some(s) => s,
            None => {
                return Err(MarketError::InvalidParameter);
            },
        };
        let energy_bytes = energy_param.as_bytes();
        if check_negative_decimal(energy_bytes) {
            return Err(MarketError::InvalidAmount);
        }
        let energy = match parse_dec_u64(energy_bytes) {
            Some(v) => v,
            None => {
                return Err(MarketError::InvalidParameter);
            },
        };
        if currency < 0 {
            return Err(MarketError::InvalidAmount);
        }
        let t = EnergyTrade { side, energy_amount: energy, currency_paid: currency as u64 };
        let ghost next = upserted(self.ledger@, caller@, t);

        // The volume the caller's previous trade, if any, contributes to
        // each running total; it is reversed out so that resubmission does
        // not double-count.
        let (prev_pushed, prev_requested): (u64, u64) = match self.ledger.get(caller.as_slice()) {
            Some(p) => {
                match p.side {
                    TradeSide::Push => (p.energy_amount, 0),
                    TradeSide::Request => (0, p.energy_amount),
                }
            },
            None => (0, 0),
        };
        let (new_pushed, new_requested): (u64, u64) = match side {
            TradeSide::Push => (energy, 0),
            TradeSide::Request => (0, energy),
        };
        proof {
            let s = self.ledger@;
            let k = caller@;
            if contains_key(s, k) {
                let i = index_of_key(s, k);
                lemma_side_volume_le_sum(s, i, TradeSide::Push);
                lemma_side_volume_le_sum(s, i, TradeSide::Request);
                lemma_sum_side_update(s, i, (k, t), TradeSide::Push);
                lemma_sum_side_update(s, i, (k, t), TradeSide::Request);
                assert(prev_pushed == side_volume(s[i], TradeSide::Push));
                assert(prev_requested == side_volume(s[i], TradeSide::Request));
            } else {
                lemma_sum_side_push(s, (k, t), TradeSide::Push);
                lemma_sum_side_push(s, (k, t), TradeSide::Request);
            }
            lemma_sum_side_nonneg(next, TradeSide::Push);
            lemma_sum_side_nonneg(next, TradeSide::Request);
        }
        let base_pushed = self.total_pushed - prev_pushed;
        let base_requested = self.total_requested - prev_requested;
        let new_total_pushed = match base_pushed.checked_add(new_pushed) {
            Some(v) => v,
            None => {
                return Err(MarketError::ArithmeticOverflow);
            },
        };
        let new_total_requested = match base_requested.checked_add(new_requested) {
            Some(v) => v,
            None => {
                return Err(MarketError::ArithmeticOverflow);
            },
        };
        self.ledger.upsert(caller, t);
        self.total_pushed = new_total_pushed;
        self.total_requested = new_total_requested;
        Ok(())
    }

    /// Does a `close_market` call by `caller` at `now` actually close and
    /// settle: the caller is the owner, the market is open, and the trading
    /// period has ended.
    pub open spec fn spec_may_close(m: Market, caller: Seq<u8>, now: i64) -> bool {
        caller == m.owner@ && m.phase == MarketPhase::Open && m.window.spec_ended(now)
    }

    /// Closes the market and settles every trade. Only the owner may close,
    /// only after the deadline has passed (or at any time without one), and
    /// only once: a second close reports `AlreadyClosed` and pays nothing
    /// again. An empty ledger reports `NoTrades`; the market still closes.
    /// On success the returned lines, one per ledger row in enumeration
    /// order, carry the transfers the host is asked to perform.
    pub fn close_market(&mut self, caller: &[u8], now: i64, price_per_unit: u64) -> (r: Result<
        Vec<PayoutEntry>,
        MarketError,
    >)
        requires
            old(self).wf(),
        ensures
            final(self).wf(),
            final(self).owner == old(self).owner,
            final(self).window == old(self).window,
            final(self).ledger == old(self).ledger,
            final(self).total_pushed == old(self).total_pushed,
            final(self).total_requested == old(self).total_requested,
            caller@ != old(self).owner@ ==> (r matches Err(e) && e == MarketError::Unauthorized
                && *final(self) == *old(self)),
            caller@ == old(self).owner@ && old(self).phase == MarketPhase::Closed ==> (r
                matches Err(e) && e == MarketError::AlreadyClosed && *final(self) == *old(self)),
            caller@ == old(self).owner@ && old(self).phase != MarketPhase::Closed && !(old(
                self,
            ).phase == MarketPhase::Open && old(self).window.spec_ended(now)) ==> (r matches Err(e)
                && e == MarketError::NotYetClosable && *final(self) == *old(self)),
            Market::spec_may_close(*old(self), caller@, now) ==> final(self).phase
                == MarketPhase::Closed,
            Market::spec_may_close(*old(self), caller@, now) && old(self).ledger@.len() == 0 ==> (r
                matches Err(e) && e == MarketError::NoTrades),
            Market::spec_may_close(*old(self), caller@, now) && old(self).ledger@.len() > 0 && old(
                self,
            ).total_pushed == 0 && old(self).total_requested == 0 ==> (r matches Ok(p) && p@.len()
                == 0),
            Market::spec_may_close(*old(self), caller@, now) && old(self).ledger@.len() > 0 && !(old(
                self,
            ).total_pushed == 0 && old(self).total_requested == 0) ==> (r matches Ok(p) && p@.len()
                == old(self).ledger@.len() && (forall|i: int|
                0 <= i < p@.len() ==> (#[trigger] p@[i]).participant@ == old(self).ledger@[i].0
                    && p@[i].payout == spec_payout(
                    old(self).ledger@[i].1,
                    old(self).total_pushed as int,
                    old(self).total_requested as int,
                    price_per_unit as int,
                ))),
    {
        if !bytes_eq(caller, self.owner.as_slice()) {
            return Err(MarketError::Unauthorized);
        }
        match self.phase {
            MarketPhase::Closed => Err(MarketError::AlreadyClosed),
            MarketPhase::Uninitialized => Err(MarketError::NotYetClosable),
            MarketPhase::Open => {
                if !self.window.has_ended(now) {
                    return Err(MarketError::NotYetClosable);
                }
                self.phase = MarketPhase::Closed;
                if self.ledger.len() == 0 {
                    return Err(MarketError::NoTrades);
                }
                Ok(
                    compute_payouts(
                        &self.ledger,
                        self.total_pushed,
                        self.total_requested,
                        price_per_unit,
                    ),
                )
            },
        }
    }
}

} // verus!
