use btc_average::{
    aggregate, combine, extract_price, finish_session, parse_json, parse_price, price_text,
    read_frame, record_frame, verdict_of, verify_signature, Extracted, Feed, KeyPair,
    KeyRegistry, Overall, Phase, RunningCounter, Session, SessionResult, Verdict, UNITS_PER_DOLLAR,
};

fn units(dollars: u64) -> u64 {
    dollars * UNITS_PER_DOLLAR
}

fn counter_of(feed: Feed, frames: &[&str]) -> RunningCounter {
    let mut c = RunningCounter::new();
    for f in frames {
        record_frame(&mut c, feed, f.to_string());
    }
    c
}

fn run(feed: Feed, frames: &[&str], keys: &mut KeyRegistry) -> SessionResult {
    let c = counter_of(feed, frames);
    let (result, public) = finish_session(&c, feed);
    keys.insert(feed, public);
    result
}

#[test]
fn parse_price_reads_decimals() {
    assert_eq!(parse_price("50000.12"), Some(5_000_012_000_000));
    assert_eq!(parse_price("98"), Some(units(98)));
    assert_eq!(parse_price("98.0"), Some(units(98)));
    assert_eq!(parse_price("0.00000001"), Some(1));
    assert_eq!(parse_price("12."), Some(units(12)));
    assert_eq!(parse_price("99999999999.99999999"), Some(9_999_999_999_999_999_999));
}

#[test]
fn parse_price_refuses_other_text() {
    assert_eq!(parse_price(""), None);
    assert_eq!(parse_price(".5"), None);
    assert_eq!(parse_price("-1.0"), None);
    assert_eq!(parse_price("1e5"), None);
    assert_eq!(parse_price("1.2.3"), None);
    assert_eq!(parse_price("1.123456789"), None);
    assert_eq!(parse_price("100000000000"), None);
    assert_eq!(parse_price("abc"), None);
}

#[test]
fn each_feed_reads_its_own_shape() {
    assert_eq!(
        read_frame(Feed::Gemini, r#"{"type":"update","events":[{"price":"50000.5","side":"bid"}]}"#),
        Extracted::Price(5_000_050_000_000)
    );
    assert_eq!(
        read_frame(Feed::Bybit, r#"{"topic":"trade.BTCUSD","data":[{"price":50001.5}]}"#),
        Extracted::Price(5_000_150_000_000)
    );
    assert_eq!(read_frame(Feed::Binance, r#"{"e":"trade","p":"50002.00"}"#), Extracted::Price(units(50002)));
    assert_eq!(
        read_frame(Feed::Kraken, r#"[340,{"a":["1"],"p":["50003.1","50003.2"]},"ticker","XBT/USD"]"#),
        Extracted::Price(5_000_310_000_000)
    );
    assert_eq!(
        read_frame(Feed::Bitfinex, r#"[17,[1,2,3,4,5,6,50004,7,8,9]]"#),
        Extracted::Price(units(50004))
    );
}

#[test]
fn frames_without_a_price_are_skipped() {
    assert_eq!(read_frame(Feed::Bybit, r#"{"success":true,"ret_msg":"subscribe"}"#), Extracted::NoPrice);
    assert_eq!(read_frame(Feed::Kraken, r#"{"event":"heartbeat"}"#), Extracted::NoPrice);
    assert_eq!(read_frame(Feed::Bitfinex, r#"[17,"hb"]"#), Extracted::NoPrice);
    assert_eq!(read_frame(Feed::Gemini, r#"{"events":[]}"#), Extracted::NoPrice);
    assert_eq!(read_frame(Feed::Binance, "not json"), Extracted::NoPrice);
}

#[test]
fn malformed_prices_are_reported() {
    assert_eq!(read_frame(Feed::Binance, r#"{"p":"abc"}"#), Extracted::Malformed);
    assert_eq!(read_frame(Feed::Binance, r#"{"p":50000}"#), Extracted::Malformed);
    assert_eq!(read_frame(Feed::Bybit, r#"{"data":[{"price":"50000"}]}"#), Extracted::Malformed);
    assert_eq!(read_frame(Feed::Bitfinex, r#"[17,[1,2,3,4,5,6,-3]]"#), Extracted::Malformed);
}

#[test]
fn extract_price_on_parsed_document() {
    let j = parse_json(r#"{"p":"1.5"}"#).unwrap();
    assert_eq!(extract_price(Feed::Binance, &j), Extracted::Price(150_000_000));
    assert_eq!(extract_price(Feed::Gemini, &j), Extracted::NoPrice);
    assert!(parse_json("{").is_none());
}

#[test]
fn record_frame_keeps_only_prices() {
    let mut c = RunningCounter::new();
    assert_eq!(record_frame(&mut c, Feed::Binance, r#"{"result":null,"id":1}"#.to_string()), Extracted::NoPrice);
    assert_eq!(c.len(), 0);
    assert_eq!(record_frame(&mut c, Feed::Binance, r#"{"p":"10"}"#.to_string()), Extracted::Price(units(10)));
    assert_eq!(c.len(), 1);
    assert_eq!(c.price_at(0), units(10));
    assert_eq!(c.frame_at(0).as_str(), r#"{"p":"10"}"#);
}

#[test]
fn average_is_the_mean_in_any_order() {
    let mut a = RunningCounter::new();
    let mut b = RunningCounter::new();
    for v in [3u64, 10, 5, 7] {
        a.add_price(v, v.to_string());
    }
    for v in [7u64, 5, 10, 3] {
        b.add_price(v, v.to_string());
    }
    assert_eq!(a.calculate_average(), Some(6));
    assert_eq!(b.calculate_average(), Some(6));
    let mut c = RunningCounter::new();
    c.add_price(1, "x".to_string());
    c.add_price(2, "y".to_string());
    assert_eq!(c.calculate_average(), Some(1));
}

#[test]
fn average_of_nothing_is_none() {
    assert_eq!(RunningCounter::new().calculate_average(), None);
}

#[test]
fn average_of_largest_values_does_not_overflow() {
    let mut c = RunningCounter::new();
    c.add_price(u64::MAX, "a".to_string());
    c.add_price(u64::MAX, "b".to_string());
    assert_eq!(c.calculate_average(), Some(u64::MAX));
}

#[test]
fn data_points_joins_frames_by_newline() {
    let mut c = RunningCounter::new();
    assert_eq!(c.data_points(), "");
    c.add_price(1, "first".to_string());
    c.add_price(2, "second".to_string());
    assert_eq!(c.data_points(), "first\nsecond");
}

#[test]
fn price_text_is_fixed_point() {
    assert_eq!(price_text(10_100_000_000), b"101.00000000".to_vec());
    assert_eq!(price_text(0), b"0.00000000".to_vec());
    assert_eq!(price_text(5_000_012_345_678), b"50000.12345678".to_vec());
}

#[test]
fn signature_verifies_only_the_signed_message_and_key() {
    let pair = KeyPair::generate_key_pair();
    let other = KeyPair::generate_key_pair();
    let msg = price_text(units(101));
    let sig = pair.sign_message(&msg);
    assert!(verify_signature(pair.public(), &msg, &sig));
    let mut altered = msg.clone();
    altered[0] = b'2';
    assert!(!verify_signature(pair.public(), &altered, &sig));
    assert!(!verify_signature(other.public(), &msg, &sig));
    assert!(!verify_signature(pair.public(), &msg, &vec![0u8; 3]));
    assert!(!verify_signature(&vec![1u8; 5], &msg, &sig));
}

#[test]
fn registry_keeps_the_last_key_of_a_feed() {
    let mut keys = KeyRegistry::new();
    assert!(keys.get(Feed::Kraken).is_none());
    keys.insert(Feed::Kraken, vec![1]);
    keys.insert(Feed::Kraken, vec![2]);
    assert_eq!(keys.get(Feed::Kraken), Some(&vec![2]));
    assert!(keys.get(Feed::Gemini).is_none());
}

#[test]
fn empty_session_still_reports_zero() {
    let c = RunningCounter::new();
    let (r, public) = finish_session(&c, Feed::Gemini);
    assert_eq!(r.average, 0);
    assert!(verify_signature(&public, &price_text(0), &r.signature));
}

#[test]
fn aggregate_skips_unverified_and_zero() {
    let vs = vec![
        Verdict { average: 10, verified: true },
        Verdict { average: 1000, verified: false },
        Verdict { average: 0, verified: true },
        Verdict { average: 20, verified: true },
    ];
    let o: Overall = aggregate(&vs);
    assert_eq!(o.mean, Some(15));
    assert_eq!(o.contributors, 2);
}

#[test]
fn two_feeds_average_their_means() {
    let mut keys = KeyRegistry::new();
    let a = run(
        Feed::Gemini,
        &[r#"{"events":[{"price":"100.0"}]}"#, r#"{"events":[{"price":"102.0"}]}"#],
        &mut keys,
    );
    let b = run(Feed::Bybit, &[r#"{"data":[{"price":98.0}]}"#], &mut keys);
    assert_eq!(a.average, units(101));
    assert_eq!(b.average, units(98));
    let (overall, verdicts) = combine(&keys, &vec![Some(a), Some(b)]);
    assert!(verdicts.iter().all(|v| v.verified));
    assert_eq!(overall.mean, Some(9_950_000_000));
    assert_eq!(overall.contributors, 2);
}

#[test]
fn one_verified_feed_of_three() {
    let mut keys = KeyRegistry::new();
    let forged = run(Feed::Binance, &[r#"{"p":"70000"}"#], &mut keys);
    keys.insert(Feed::Binance, KeyPair::generate_key_pair().public().clone());
    let empty = run(Feed::Kraken, &[r#"{"event":"heartbeat"}"#], &mut keys);
    let good = run(Feed::Bitfinex, &[r#"[5,[0,0,0,0,0,0,50000.0]]"#], &mut keys);
    assert_eq!(empty.average, 0);
    let results = vec![Some(forged), Some(empty), Some(good)];
    assert!(!verdict_of(&keys, &results[0]).verified);
    assert!(verdict_of(&keys, &results[1]).verified);
    let (overall, _) = combine(&keys, &results);
    assert_eq!(overall.mean, Some(units(50000)));
    assert_eq!(overall.contributors, 1);
}

#[test]
fn all_feeds_failing_gives_no_data() {
    let keys = KeyRegistry::new();
    let (overall, verdicts) = combine(&keys, &vec![None, None, None]);
    assert_eq!(overall.mean, None);
    assert_eq!(overall.contributors, 0);
    assert!(verdicts.iter().all(|v| !v.verified));
}

#[test]
fn session_counts_frames_only_while_streaming() {
    let mut s = Session::new(Feed::Binance);
    assert_eq!(s.phase(), Phase::Connecting);
    assert_eq!(s.on_frame(r#"{"p":"1"}"#.to_string()), None);
    s.start_streaming();
    assert_eq!(s.on_frame(r#"{"p":"100"}"#.to_string()), Some(Extracted::Price(units(100))));
    assert_eq!(s.on_frame(r#"{"p":"oops"}"#.to_string()), Some(Extracted::Malformed));
    assert_eq!(s.on_frame(r#"{"p":"200"}"#.to_string()), Some(Extracted::Price(units(200))));
    s.on_timer();
    assert_eq!(s.phase(), Phase::Draining);
    assert_eq!(s.on_frame(r#"{"p":"900"}"#.to_string()), None);
    assert_eq!(s.data_points(), "{\"p\":\"100\"}\n{\"p\":\"200\"}");
    let (r, public) = s.finish();
    assert_eq!(s.phase(), Phase::Finalized);
    assert_eq!(r.feed, Feed::Binance);
    assert_eq!(r.average, units(150));
    assert!(verify_signature(&public, &price_text(units(150)), &r.signature));
    assert!(!verify_signature(&public, &price_text(units(151)), &r.signature));
}
