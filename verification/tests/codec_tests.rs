use energy_market::codec::{decode_ledger, encode_ledger};
use energy_market::lifecycle::{MarketPhase, TimeWindow};
use energy_market::market::Market;

const OWNER: &[u8] = &[1];

fn market_with_trades() -> Market {
    let mut m = Market::new(OWNER.to_vec());
    m.initialize(OWNER, "").unwrap();
    m.submit_trade(vec![10, 11], 0, "pushed", "100", 3).unwrap();
    m.submit_trade(vec![20], 0, "requested", "40", 900).unwrap();
    m.submit_trade(vec![], 0, "pushed", "7", 0).unwrap();
    m
}

#[test]
fn round_trip_yields_identical_ledger() {
    let m = market_with_trades();
    let bytes = encode_ledger(&m.ledger);
    let decoded = decode_ledger(bytes.as_slice()).unwrap();
    assert_eq!(decoded, m.ledger);
}

#[test]
fn round_trip_empty_ledger() {
    let m = Market::new(OWNER.to_vec());
    let bytes = encode_ledger(&m.ledger);
    assert_eq!(bytes.len(), 0);
    let decoded = decode_ledger(bytes.as_slice()).unwrap();
    assert_eq!(decoded, m.ledger);
}

#[test]
fn encode_format_is_exact() {
    let mut m = Market::new(OWNER.to_vec());
    m.initialize(OWNER, "").unwrap();
    m.submit_trade(vec![65], 0, "pushed", "2", 3).unwrap();
    let bytes = encode_ledger(&m.ledger);
    let mut expected: Vec<u8> = Vec::new();
    expected.extend_from_slice(&1u64.to_le_bytes());
    expected.push(65);
    expected.push(0);
    expected.extend_from_slice(&2u64.to_le_bytes());
    expected.extend_from_slice(&3u64.to_le_bytes());
    assert_eq!(bytes, expected);
}

#[test]
fn decode_garbage_is_none() {
    assert!(decode_ledger(&[1, 2, 3]).is_none());
}

#[test]
fn decode_trailing_byte_is_none() {
    let m = market_with_trades();
    let mut bytes = encode_ledger(&m.ledger);
    bytes.push(0);
    assert!(decode_ledger(bytes.as_slice()).is_none());
}

#[test]
fn decode_duplicate_key_is_none() {
    let mut m = Market::new(OWNER.to_vec());
    m.initialize(OWNER, "").unwrap();
    m.submit_trade(vec![42], 0, "pushed", "5", 0).unwrap();
    let one = encode_ledger(&m.ledger);
    let mut twice = one.clone();
    twice.extend_from_slice(one.as_slice());
    assert!(decode_ledger(twice.as_slice()).is_none());
}

#[test]
fn decode_bad_side_byte_is_none() {
    let mut bytes: Vec<u8> = Vec::new();
    bytes.extend_from_slice(&1u64.to_le_bytes());
    bytes.push(7);
    bytes.push(9);
    bytes.extend_from_slice(&2u64.to_le_bytes());
    bytes.extend_from_slice(&3u64.to_le_bytes());
    assert!(decode_ledger(bytes.as_slice()).is_none());
}

#[test]
fn restore_rebuilds_market_with_recomputed_totals() {
    let m = market_with_trades();
    let bytes = encode_ledger(&m.ledger);
    let restored = Market::restore(
        OWNER.to_vec(),
        MarketPhase::Open,
        TimeWindow { deadline: None },
        bytes.as_slice(),
    )
    .unwrap();
    assert_eq!(restored.ledger, m.ledger);
    assert_eq!(restored.total_pushed, m.total_pushed);
    assert_eq!(restored.total_requested, m.total_requested);
    assert_eq!(restored.phase, MarketPhase::Open);
}

#[test]
fn restore_uninitialized_with_trades_is_none() {
    let m = market_with_trades();
    let bytes = encode_ledger(&m.ledger);
    let restored = Market::restore(
        OWNER.to_vec(),
        MarketPhase::Uninitialized,
        TimeWindow { deadline: None },
        bytes.as_slice(),
    );
    assert!(restored.is_none());
}

#[test]
fn restore_bad_bytes_is_none() {
    let restored = Market::restore(
        OWNER.to_vec(),
        MarketPhase::Open,
        TimeWindow { deadline: Some(5) },
        &[9, 9],
    );
    assert!(restored.is_none());
}
