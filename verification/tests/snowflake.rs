use podkit::decimal::{parse_u64, to_decimal};
use podkit::ids::{generate_id, machine_id_from, millis_since_custom_epoch, now_ms, SnowflakeGenerator, CUSTOM_EPOCH_MS};

#[test]
fn ids_lay_out_timestamp_machine_and_sequence() {
    let mut g = SnowflakeGenerator::new(5);
    let id = g.next(100).unwrap();
    assert_eq!(id, (100u64 << 22) | (5 << 12));
    assert_eq!(id >> 22, 100);
    assert_eq!((id >> 12) & 1023, 5);
    assert_eq!(id & 4095, 0);
    assert_eq!(g.next(100), Some(((100u64 << 22) | (5 << 12)) + 1));
}

#[test]
fn ids_increase_and_clock_going_back_is_refused() {
    let mut g = SnowflakeGenerator::new(1023);
    let a = g.next(50).unwrap();
    assert_eq!(g.next(49), None);
    let b = g.next(50).unwrap();
    let c = g.next(51).unwrap();
    assert!(a < b && b < c);
    assert_eq!(c & 4095, 0);
}

#[test]
fn sequence_exhaustion_waits_for_next_millisecond() {
    let mut g = SnowflakeGenerator::new(0);
    let mut last = g.next(7).unwrap();
    for _ in 0..4095 {
        let id = g.next(7).unwrap();
        assert!(id > last);
        last = id;
    }
    assert_eq!(last & 4095, 4095);
    assert_eq!(g.next(7), None);
    let next = g.next(8).unwrap();
    assert_eq!(next, 8u64 << 22);
}

#[test]
fn machine_id_is_folded() {
    let g = SnowflakeGenerator::new(1024 + 3);
    let mut g = g;
    assert_eq!(g.next(1).unwrap(), (1u64 << 22) | (3 << 12));
}

#[test]
fn generate_id_gives_decimal_text() {
    let mut g = SnowflakeGenerator::new(5);
    assert_eq!(generate_id(&mut g, 100).unwrap(), "419450880");
    assert_eq!(generate_id(&mut g, 100).unwrap(), "419450881");
    assert_eq!(generate_id(&mut g, 99), None);
}

#[test]
fn machine_id_from_configuration_or_hash() {
    assert_eq!(machine_id_from(Some("7"), Some("host"), 42), 7);
    assert_eq!(machine_id_from(Some("+1025"), None, 42), 1);
    assert_eq!(machine_id_from(Some("abc"), Some("host"), 42), 201);
    assert_eq!(machine_id_from(None, Some("host"), 42), 201);
    assert_eq!(machine_id_from(None, None, 1), 947);
}

#[test]
fn epoch_offsets() {
    assert_eq!(millis_since_custom_epoch(CUSTOM_EPOCH_MS as u128), Some(0));
    assert_eq!(millis_since_custom_epoch(CUSTOM_EPOCH_MS as u128 + 5), Some(5));
    assert_eq!(millis_since_custom_epoch(CUSTOM_EPOCH_MS as u128 - 1), None);
    assert_eq!(millis_since_custom_epoch(u64::MAX as u128 + 1), None);
    let _ = now_ms();
}

#[test]
fn decimal_text_and_parsing() {
    assert_eq!(to_decimal(0), "0");
    assert_eq!(to_decimal(1234567890), "1234567890");
    assert_eq!(to_decimal(u64::MAX), u64::MAX.to_string());
    assert_eq!(parse_u64("42"), Some(42));
    assert_eq!(parse_u64("+42"), Some(42));
    assert_eq!(parse_u64("007"), Some(7));
    assert_eq!(parse_u64("18446744073709551615"), Some(u64::MAX));
    assert_eq!(parse_u64("18446744073709551616"), None);
    assert_eq!(parse_u64(""), None);
    assert_eq!(parse_u64("+"), None);
    assert_eq!(parse_u64("-1"), None);
    assert_eq!(parse_u64("1a"), None);
    for s in ["0", "12", "+3", "99999999999999999999", "x", " 1"] {
        assert_eq!(parse_u64(s), s.parse::<u64>().ok());
    }
}

#[test]
fn successive_id_texts_read_as_increasing_numbers() {
    let mut g = SnowflakeGenerator::new(7);
    let a = generate_id(&mut g, 500).unwrap();
    let b = generate_id(&mut g, 500).unwrap();
    let c = generate_id(&mut g, 501).unwrap();
    let (a, b, c) = (parse_u64(&a).unwrap(), parse_u64(&b).unwrap(), parse_u64(&c).unwrap());
    assert!(a < b && b < c);
}
