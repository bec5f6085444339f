use tradecore::tick::{normalize, NormalizationError, RawPayload};

fn full_payload() -> RawPayload {
    RawPayload {
        symbol: Some("AAPL".to_string()),
        price: Some(18950),
        bid: Some(18940),
        ask: Some(18960),
        moving_average_50: Some(18000),
        moving_average_200: None,
        timestamp_text: Some("2024-01-01T00:00:00Z".to_string()),
    }
}

#[test]
fn full_payload_normalizes() {
    let tick = normalize(&full_payload()).unwrap();
    assert_eq!(tick.symbol, "AAPL");
    assert_eq!(tick.price, 18950);
    assert_eq!(tick.bid, Some(18940));
    assert_eq!(tick.ask, Some(18960));
    assert_eq!(tick.moving_average_50, Some(18000));
    assert_eq!(tick.moving_average_200, None);
    // 2024-01-01T00:00:00Z as Unix seconds: this fails if the
    // timestamp parse did anything other than read the text.
    assert_eq!(tick.timestamp, 1_704_067_200);
}

#[test]
fn offset_timestamps_are_normalized_to_utc() {
    let mut raw = full_payload();
    raw.timestamp_text = Some("2024-01-01T05:30:00+05:30".to_string());
    let tick = normalize(&raw).unwrap();
    assert_eq!(tick.timestamp, 1_704_067_200);
}

#[test]
fn missing_symbol_is_malformed() {
    let mut raw = full_payload();
    raw.symbol = None;
    assert_eq!(normalize(&raw).unwrap_err(), NormalizationError::Malformed);
}

#[test]
fn missing_price_is_malformed() {
    let mut raw = full_payload();
    raw.price = None;
    assert_eq!(normalize(&raw).unwrap_err(), NormalizationError::Malformed);
}

#[test]
fn missing_timestamp_is_malformed() {
    let mut raw = full_payload();
    raw.timestamp_text = None;
    assert_eq!(normalize(&raw).unwrap_err(), NormalizationError::Malformed);
}

#[test]
fn unparsable_timestamp_is_malformed() {
    let mut raw = full_payload();
    raw.timestamp_text = Some("yesterday at noon".to_string());
    assert_eq!(normalize(&raw).unwrap_err(), NormalizationError::Malformed);
}

#[test]
fn pre_epoch_timestamp_is_malformed() {
    let mut raw = full_payload();
    raw.timestamp_text = Some("1960-01-01T00:00:00Z".to_string());
    assert_eq!(normalize(&raw).unwrap_err(), NormalizationError::Malformed);
}

#[test]
fn absent_optional_fields_stay_absent() {
    let mut raw = full_payload();
    raw.bid = None;
    raw.ask = None;
    raw.moving_average_50 = None;
    let tick = normalize(&raw).unwrap();
    assert_eq!(tick.bid, None);
    assert_eq!(tick.ask, None);
    assert_eq!(tick.moving_average_50, None);
}
