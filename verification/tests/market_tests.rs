use energy_market::errors::MarketError;
use energy_market::lifecycle::MarketPhase;
use energy_market::market::Market;

const OWNER: &[u8] = &[1, 2, 3];
const ALICE: &[u8] = &[10];
const BOB: &[u8] = &[20];

fn open_market() -> Market {
    let mut m = Market::new(OWNER.to_vec());
    assert_eq!(m.initialize(OWNER, ""), Ok(()));
    m
}

#[test]
fn balanced_market_pays_in_full() {
    let mut m = open_market();
    let price: u64 = 5;
    assert_eq!(m.submit_trade(ALICE.to_vec(), 0, "pushed", "100", 0), Ok(()));
    assert_eq!(m.submit_trade(BOB.to_vec(), 0, "requested", "100", 500), Ok(()));
    assert_eq!(m.total_pushed, 100);
    assert_eq!(m.total_requested, 100);
    let payouts = m.close_market(OWNER, 1, price).unwrap();
    assert_eq!(payouts.len(), 2);
    assert_eq!(payouts[0].participant, ALICE.to_vec());
    assert_eq!(payouts[0].payout, Ok(500));
    assert_eq!(payouts[1].participant, BOB.to_vec());
    assert_eq!(payouts[1].payout, Ok(0));
    assert_eq!(m.phase, MarketPhase::Closed);
}

#[test]
fn imbalanced_market_truncates_push_ratio() {
    // total_pushed = 200, total_requested = 100: the push ratio 100/200
    // truncates to 0 under integer division, so the pusher receives 0.
    let mut m = open_market();
    let price: u64 = 5;
    assert_eq!(m.submit_trade(ALICE.to_vec(), 0, "pushed", "200", 0), Ok(()));
    assert_eq!(m.submit_trade(BOB.to_vec(), 0, "requested", "100", 600), Ok(()));
    let payouts = m.close_market(OWNER, 1, price).unwrap();
    assert_eq!(payouts[0].payout, Ok(0));
    // The requester is on the minority side: paid in full, 600 - 100*5 = 100.
    assert_eq!(payouts[1].payout, Ok(100));
}

#[test]
fn resubmission_replaces_prior_trade() {
    let mut m = open_market();
    assert_eq!(m.submit_trade(ALICE.to_vec(), 0, "pushed", "100", 0), Ok(()));
    assert_eq!(m.total_pushed, 100);
    assert_eq!(m.submit_trade(ALICE.to_vec(), 0, "pushed", "70", 0), Ok(()));
    assert_eq!(m.total_pushed, 70);
    assert_eq!(m.ledger.len(), 1);
    assert_eq!(m.submit_trade(ALICE.to_vec(), 0, "requested", "40", 9), Ok(()));
    assert_eq!(m.total_pushed, 0);
    assert_eq!(m.total_requested, 40);
    assert_eq!(m.ledger.len(), 1);
}

#[test]
fn trade_after_deadline_rejected() {
    let mut m = Market::new(OWNER.to_vec());
    assert_eq!(m.initialize(OWNER, "2021-01-01 02:00"), Ok(()));
    let deadline = 1609466400;
    assert_eq!(m.window.deadline, Some(deadline));
    let r = m.submit_trade(ALICE.to_vec(), deadline + 1, "pushed", "100", 0);
    assert_eq!(r, Err(MarketError::InvalidLifecycleTransition));
    assert_eq!(m.total_pushed, 0);
    assert_eq!(m.total_requested, 0);
    assert_eq!(m.ledger.len(), 0);
    assert_eq!(m.phase, MarketPhase::Open);
}

#[test]
fn trade_at_deadline_accepted() {
    let mut m = Market::new(OWNER.to_vec());
    assert_eq!(m.initialize(OWNER, "2021-01-01 02:00"), Ok(()));
    let r = m.submit_trade(ALICE.to_vec(), 1609466400, "pushed", "100", 0);
    assert_eq!(r, Ok(()));
}

#[test]
fn close_by_non_owner_rejected() {
    let mut m = Market::new(OWNER.to_vec());
    assert_eq!(m.close_market(ALICE, 0, 5), Err(MarketError::Unauthorized));
    assert_eq!(m.initialize(OWNER, ""), Ok(()));
    assert_eq!(m.close_market(ALICE, 0, 5), Err(MarketError::Unauthorized));
    assert_eq!(m.submit_trade(ALICE.to_vec(), 0, "pushed", "1", 0), Ok(()));
    m.close_market(OWNER, 1, 5).unwrap();
    assert_eq!(m.close_market(ALICE, 2, 5), Err(MarketError::Unauthorized));
}

#[test]
fn close_twice_reports_already_closed() {
    let mut m = open_market();
    assert_eq!(m.submit_trade(ALICE.to_vec(), 0, "pushed", "1", 0), Ok(()));
    assert!(m.close_market(OWNER, 1, 5).is_ok());
    assert_eq!(m.close_market(OWNER, 2, 5), Err(MarketError::AlreadyClosed));
    assert_eq!(m.phase, MarketPhase::Closed);
}

#[test]
fn init_by_non_owner_unauthorized() {
    let mut m = Market::new(OWNER.to_vec());
    assert_eq!(m.initialize(ALICE, ""), Err(MarketError::Unauthorized));
    assert_eq!(m.phase, MarketPhase::Uninitialized);
}

#[test]
fn double_init_already_initialized() {
    let mut m = open_market();
    assert_eq!(m.initialize(OWNER, ""), Err(MarketError::AlreadyInitialized));
}

#[test]
fn init_parses_deadline() {
    let mut m = Market::new(OWNER.to_vec());
    assert_eq!(m.initialize(OWNER, "2021-01-01 02:00"), Ok(()));
    // 2021-01-01 00:00 UTC is 1609459200; two hours later.
    assert_eq!(m.window.deadline, Some(1609466400));
    assert_eq!(m.phase, MarketPhase::Open);
}

#[test]
fn init_without_deadline_has_none() {
    let m = open_market();
    assert_eq!(m.window.deadline, None);
}

#[test]
fn init_bad_deadline_invalid_parameter() {
    let mut m = Market::new(OWNER.to_vec());
    assert_eq!(m.initialize(OWNER, "not a date"), Err(MarketError::InvalidParameter));
    assert_eq!(m.phase, MarketPhase::Uninitialized);
    // A date that does not exist is rejected by the datetime parse too.
    assert_eq!(m.initialize(OWNER, "2021-02-30 10:00"), Err(MarketError::InvalidParameter));
}

#[test]
fn unknown_side_invalid_parameter() {
    let mut m = open_market();
    assert_eq!(
        m.submit_trade(ALICE.to_vec(), 0, "sideways", "100", 0),
        Err(MarketError::InvalidParameter)
    );
    assert_eq!(
        m.submit_trade(ALICE.to_vec(), 0, "PUSHED", "100", 0),
        Err(MarketError::InvalidParameter)
    );
    assert_eq!(m.ledger.len(), 0);
}

#[test]
fn malformed_energy_invalid_parameter() {
    let mut m = open_market();
    assert_eq!(
        m.submit_trade(ALICE.to_vec(), 0, "pushed", "12x", 0),
        Err(MarketError::InvalidParameter)
    );
    assert_eq!(
        m.submit_trade(ALICE.to_vec(), 0, "pushed", "", 0),
        Err(MarketError::InvalidParameter)
    );
    assert_eq!(m.total_pushed, 0);
}

#[test]
fn negative_amounts_invalid_amount() {
    let mut m = open_market();
    assert_eq!(
        m.submit_trade(ALICE.to_vec(), 0, "pushed", "-5", 0),
        Err(MarketError::InvalidAmount)
    );
    assert_eq!(
        m.submit_trade(ALICE.to_vec(), 0, "pushed", "5", -1),
        Err(MarketError::InvalidAmount)
    );
    assert_eq!(m.total_pushed, 0);
    assert_eq!(m.ledger.len(), 0);
}

#[test]
fn energy_at_u64_max_parses() {
    let mut m = open_market();
    assert_eq!(
        m.submit_trade(ALICE.to_vec(), 0, "pushed", "18446744073709551615", 0),
        Ok(())
    );
    assert_eq!(m.total_pushed, u64::MAX);
    assert_eq!(
        m.submit_trade(BOB.to_vec(), 0, "requested", "18446744073709551616", 0),
        Err(MarketError::InvalidParameter)
    );
}

#[test]
fn accumulation_overflow_rejected() {
    let mut m = open_market();
    assert_eq!(
        m.submit_trade(ALICE.to_vec(), 0, "pushed", "18446744073709551615", 0),
        Ok(())
    );
    assert_eq!(
        m.submit_trade(BOB.to_vec(), 0, "pushed", "1", 0),
        Err(MarketError::ArithmeticOverflow)
    );
    assert_eq!(m.total_pushed, u64::MAX);
    assert_eq!(m.ledger.len(), 1);
}

#[test]
fn submit_before_init_rejected() {
    let mut m = Market::new(OWNER.to_vec());
    assert_eq!(
        m.submit_trade(ALICE.to_vec(), 0, "pushed", "1", 0),
        Err(MarketError::InvalidLifecycleTransition)
    );
}

#[test]
fn close_with_no_trades_still_closes() {
    let mut m = open_market();
    assert_eq!(m.close_market(OWNER, 1, 5), Err(MarketError::NoTrades));
    assert_eq!(m.phase, MarketPhase::Closed);
    assert_eq!(
        m.submit_trade(ALICE.to_vec(), 2, "pushed", "1", 0),
        Err(MarketError::InvalidLifecycleTransition)
    );
}

#[test]
fn close_before_deadline_not_yet_closable() {
    let mut m = Market::new(OWNER.to_vec());
    assert_eq!(m.initialize(OWNER, "2021-01-01 02:00"), Ok(()));
    assert_eq!(m.close_market(OWNER, 1609466400, 5), Err(MarketError::NotYetClosable));
    assert_eq!(m.phase, MarketPhase::Open);
    assert_eq!(m.close_market(OWNER, 1609466401, 5), Err(MarketError::NoTrades));
    assert_eq!(m.phase, MarketPhase::Closed);
}

#[test]
fn close_uninitialized_not_yet_closable() {
    let mut m = Market::new(OWNER.to_vec());
    assert_eq!(m.close_market(OWNER, 0, 5), Err(MarketError::NotYetClosable));
}

#[test]
fn negative_payout_reported_not_fatal() {
    let mut m = open_market();
    let price: u64 = 5;
    // Bob claims 100 units of energy but attaches only 400 < 100 * 5.
    assert_eq!(m.submit_trade(BOB.to_vec(), 0, "requested", "100", 400), Ok(()));
    assert_eq!(m.submit_trade(ALICE.to_vec(), 0, "pushed", "100", 0), Ok(()));
    let payouts = m.close_market(OWNER, 1, price).unwrap();
    assert_eq!(payouts.len(), 2);
    assert_eq!(payouts[0].payout, Err(MarketError::NegativePayout));
    assert_eq!(payouts[1].payout, Ok(500));
}

#[test]
fn payout_overflow_reported_not_fatal() {
    let mut m = open_market();
    assert_eq!(
        m.submit_trade(ALICE.to_vec(), 0, "pushed", "18446744073709551615", 0),
        Ok(())
    );
    assert_eq!(m.submit_trade(BOB.to_vec(), 0, "pushed", "1", 0), Err(MarketError::ArithmeticOverflow));
    let payouts = m.close_market(OWNER, 1, 2).unwrap();
    assert_eq!(payouts.len(), 1);
    assert_eq!(payouts[0].payout, Err(MarketError::ArithmeticOverflow));
}

#[test]
fn zero_volume_market_produces_no_payouts() {
    let mut m = open_market();
    assert_eq!(m.submit_trade(ALICE.to_vec(), 0, "pushed", "0", 7), Ok(()));
    assert_eq!(m.total_pushed, 0);
    let payouts = m.close_market(OWNER, 1, 5).unwrap();
    assert_eq!(payouts.len(), 0);
}

#[test]
fn ledger_lookup_returns_current_trade() {
    let mut m = open_market();
    assert_eq!(m.submit_trade(ALICE.to_vec(), 0, "pushed", "100", 3), Ok(()));
    let t = m.ledger.get(ALICE).unwrap();
    assert_eq!(t.energy_amount, 100);
    assert_eq!(t.currency_paid, 3);
    assert!(m.ledger.get(BOB).is_none());
}
