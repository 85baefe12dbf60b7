use quotes_ctl::catalog::select_instruments;
use quotes_ctl::generate::{generate_ticks, plan_generate};
use quotes_ctl::rng::Rng;

#[test]
fn one_minute_of_eurusd_at_one_second() {
    let plan = plan_generate(Some("2026-01-01T00:00:00Z"), Some("2026-01-01T00:01:00Z"), 1000)
        .unwrap();
    assert_eq!(plan.from_ms, 1767225600000);
    assert_eq!(plan.to_ms, 1767225660000);
    let mut insts = select_instruments(Some("EURUSD")).unwrap();
    let mut rng = Rng::new(42);
    let lines = generate_ticks(&mut insts, &mut rng, plan.from_ms, plan.to_ms, plan.interval_ms);
    assert_eq!(lines.len(), 60);
    let mut last_bucket = i64::MIN;
    for (k, l) in lines.iter().enumerate() {
        let bucket = plan.from_ms + k as i64 * 1000;
        assert!(l.ts_ms >= bucket && l.ts_ms <= bucket + 999);
        assert!(bucket >= last_bucket);
        last_bucket = bucket;
        assert!(l.line.ends_with(&format!(",\"ts_ms\":{}}}", l.ts_ms)));
    }
    assert_eq!(
        lines[0].line,
        r#"{"symbol":"EURUSD","bid":1.08450,"ask":1.08470,"ts_ms":1767225600471}"#
    );
    assert_eq!(
        lines[1].line,
        r#"{"symbol":"EURUSD","bid":1.08454,"ask":1.08474,"ts_ms":1767225601736}"#
    );
    assert_eq!(
        lines[2].line,
        r#"{"symbol":"EURUSD","bid":1.08435,"ask":1.08455,"ts_ms":1767225602427}"#
    );
}

#[test]
fn every_instrument_ticks_in_every_bucket() {
    let mut insts = select_instruments(None).unwrap();
    let mut rng = Rng::new(5);
    let lines = generate_ticks(&mut insts, &mut rng, 0, 10_500, 1000);
    assert_eq!(lines.len(), 11 * 9);
    for (k, l) in lines.iter().enumerate() {
        let bucket = (k / 9) as i64 * 1000;
        assert!(l.ts_ms >= bucket && l.ts_ms < bucket + 1000);
        let name = insts[k % 9].name();
        assert!(l.line.starts_with(&format!("{{\"symbol\":\"{name}\"")));
    }
}

#[test]
fn same_seed_generates_same_lines() {
    let run = || {
        let mut insts = select_instruments(None).unwrap();
        let mut rng = Rng::new(1234);
        generate_ticks(&mut insts, &mut rng, 0, 60_000, 250)
            .into_iter()
            .map(|l| l.line)
            .collect::<Vec<_>>()
    };
    assert_eq!(run(), run());
}

#[test]
fn empty_range_generates_nothing() {
    let mut insts = select_instruments(None).unwrap();
    let mut rng = Rng::new(1);
    assert!(generate_ticks(&mut insts, &mut rng, 5000, 5000, 1000).is_empty());
}

#[test]
fn generate_needs_both_ends() {
    assert_eq!(
        plan_generate(None, Some("2026-01-01"), 1000).err(),
        Some("--from is required with --generate".to_string())
    );
    assert_eq!(
        plan_generate(Some("2026-01-01"), None, 1000).err(),
        Some("--to is required with --generate".to_string())
    );
}

#[test]
fn generate_needs_forward_range_and_interval() {
    assert_eq!(
        plan_generate(Some("2026-01-02"), Some("2026-01-01"), 1000).err(),
        Some("--to must be after --from".to_string())
    );
    assert_eq!(
        plan_generate(Some("2026-01-01"), Some("2026-01-01"), 1000).err(),
        Some("--to must be after --from".to_string())
    );
    assert_eq!(
        plan_generate(Some("2026-01-01"), Some("2026-01-02"), 0).err(),
        Some("--interval is out of range".to_string())
    );
    assert_eq!(
        plan_generate(Some("2026-x1-01"), Some("2026-01-02"), 10).err(),
        Some("bad month: 2026-x1-01".to_string())
    );
}
