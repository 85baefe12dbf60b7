use quotes_ctl::catalog::{apply_price_override, catalog, select_instruments};
use quotes_ctl::instrument::Instrument;
use quotes_ctl::rng::Rng;

const NAMES: [&str; 9] = [
    "XAUUSD", "XAGUSD", "EURUSD", "GBPUSD", "USDJPY", "AUDUSD", "USDCHF", "USDCAD", "NZDUSD",
];

#[test]
fn catalog_holds_nine_in_order() {
    let all = catalog();
    let names: Vec<&str> = all.iter().map(|i| i.name()).collect();
    assert_eq!(names, NAMES.to_vec());
}

#[test]
fn compact_quotes_use_each_precision() {
    let all = catalog();
    assert_eq!(all[0].format_json(), r#"{"symbol":"XAUUSD","bid":2650.00,"ask":2650.70}"#);
    assert_eq!(all[2].format_json(), r#"{"symbol":"EURUSD","bid":1.08500,"ask":1.08520}"#);
    assert_eq!(all[4].format_json(), r#"{"symbol":"USDJPY","bid":150.000,"ask":150.020}"#);
}

#[test]
fn timestamped_quote_appends_ts_ms() {
    let all = catalog();
    assert_eq!(
        all[2].format_json_ts(1771200000500),
        r#"{"symbol":"EURUSD","bid":1.08500,"ask":1.08520,"ts_ms":1771200000500}"#
    );
    assert_eq!(
        all[2].format_json_ts(-5),
        r#"{"symbol":"EURUSD","bid":1.08500,"ask":1.08520,"ts_ms":-5}"#
    );
}

#[test]
fn rounding_is_half_up() {
    let i = Instrument::new("TEST", 1_234_565_000, 0, 5, 1);
    assert_eq!(i.format_json(), r#"{"symbol":"TEST","bid":1.23457,"ask":1.23457}"#);
    let j = Instrument::new("TEST", 1_234_564_999, 0, 5, 1);
    assert_eq!(j.format_json(), r#"{"symbol":"TEST","bid":1.23456,"ask":1.23456}"#);
}

#[test]
fn first_tick_of_seed_42() {
    let mut inst = catalog()[2];
    let mut rng = Rng::new(42);
    inst.tick(&mut rng);
    assert_eq!(inst.price(), 1_084_500_000);
}

#[test]
fn price_never_falls_below_step() {
    let mut inst = Instrument::new("LOW", 1, 0, 5, 500_000);
    assert_eq!(inst.price(), 500_000);
    let mut rng = Rng::new(3);
    for _ in 0..100_000 {
        inst.tick(&mut rng);
        assert!(inst.price() >= inst.step());
    }
}

#[test]
fn tick_moves_less_than_one_step() {
    let mut inst = catalog()[0];
    let mut rng = Rng::new(11);
    for _ in 0..10_000 {
        let before = inst.price() as i64;
        inst.tick(&mut rng);
        let after = inst.price() as i64;
        assert!((after - before).abs() <= inst.step() as i64);
    }
}

#[test]
fn no_filter_selects_everything() {
    let all = select_instruments(None).unwrap();
    assert_eq!(all.len(), 9);
}

#[test]
fn filter_ignores_ascii_case() {
    let sel = select_instruments(Some("eurUSD")).unwrap();
    assert_eq!(sel.len(), 1);
    assert_eq!(sel[0].name(), "EURUSD");
}

#[test]
fn unknown_filter_lists_catalog() {
    let err = select_instruments(Some("FOO")).err().unwrap();
    assert_eq!(
        err,
        "unknown symbol: FOO\navailable: XAUUSD XAGUSD EURUSD GBPUSD USDJPY AUDUSD USDCHF USDCAD NZDUSD"
    );
    for n in NAMES {
        assert!(err.contains(n));
    }
}

#[test]
fn price_override_applies_to_single_instrument() {
    let mut sel = select_instruments(Some("EURUSD")).unwrap();
    apply_price_override(&mut sel, 1_100_000_000);
    assert_eq!(sel[0].price(), 1_100_000_000);
    apply_price_override(&mut sel, 0);
    assert_eq!(sel[0].price(), 1_100_000_000);
    apply_price_override(&mut sel, 1);
    assert_eq!(sel[0].price(), 500_000);
    let mut all = catalog();
    apply_price_override(&mut all, 1_100_000_000);
    assert_eq!(all[2].price(), 1_085_000_000);
}
