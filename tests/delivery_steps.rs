use quotes_ctl::catalog::select_instruments;
use quotes_ctl::delivery::{
    bulk_batches, chunk_lines, interactive_step, parse_command, progress_due, Command, PaceAction,
    PaceEvent, PacedRun, RandomSource, Reply, Source,
};
use quotes_ctl::replay::FileReader;
use quotes_ctl::rng::Rng;

fn replay(n: usize) -> Source {
    let text: String = (0..n).map(|i| format!("line{i}\n")).collect();
    Source::Replay(FileReader::from_content("f", &text).unwrap())
}

#[test]
fn chunks_of_2500_lines() {
    let lines: Vec<String> = (0..2500).map(|i| format!("m{i}")).collect();
    let batches = chunk_lines(&lines, 1000);
    assert_eq!(batches.len(), 3);
    assert_eq!(batches[0].len(), 1000);
    assert_eq!(batches[1].len(), 1000);
    assert_eq!(batches[2].len(), 500);
    let joined: Vec<String> = batches.into_iter().flatten().collect();
    assert_eq!(joined, lines);
}

#[test]
fn bulk_batches_follow_pacing() {
    let lines: Vec<String> = (0..2001).map(|i| format!("m{i}")).collect();
    assert_eq!(bulk_batches(&lines, false).len(), 3);
    let single = bulk_batches(&lines, true);
    assert_eq!(single.len(), 2001);
    assert!(single.iter().all(|b| b.len() == 1));
    assert!(bulk_batches(&Vec::new(), false).is_empty());
}

#[test]
fn commands_are_read() {
    assert!(matches!(parse_command("q"), Command::Quit));
    assert!(matches!(parse_command(" quit\n"), Command::Quit));
    assert!(matches!(parse_command(""), Command::Next));
    assert!(matches!(parse_command("  \n"), Command::Next));
    assert!(matches!(parse_command("5"), Command::Batch(5)));
    assert!(matches!(parse_command(" 12 "), Command::Batch(12)));
    assert!(matches!(parse_command("0"), Command::Unknown));
    assert!(matches!(parse_command("-3"), Command::Unknown));
    assert!(matches!(parse_command("quitter"), Command::Unknown));
    assert!(matches!(parse_command("99999999999"), Command::Unknown));
}

#[test]
fn interactive_replay_session() {
    let mut src = replay(3);
    match interactive_step(&mut src, "\n", 0) {
        Reply::Send(b) => assert_eq!(b, vec!["line0"]),
        _ => panic!("expected a send"),
    }
    match interactive_step(&mut src, "5", 0) {
        Reply::Send(b) => assert_eq!(b, vec!["line1", "line2"]),
        _ => panic!("expected a send"),
    }
    assert!(src.exhausted());
    assert!(matches!(interactive_step(&mut src, "", 0), Reply::Exhausted));
    assert!(matches!(interactive_step(&mut src, "2", 0), Reply::Exhausted));
    assert!(matches!(interactive_step(&mut src, "what", 0), Reply::Unknown));
    assert!(matches!(interactive_step(&mut src, "q", 0), Reply::Quit));
}

#[test]
fn interactive_random_session() {
    let insts = select_instruments(Some("XAUUSD")).unwrap();
    let mut src = Source::Random(RandomSource::new(insts, Rng::new(8), true));
    match interactive_step(&mut src, "3", 77) {
        Reply::Send(b) => {
            assert_eq!(b.len(), 3);
            for m in b {
                assert!(m.starts_with("{\"symbol\":\"XAUUSD\""));
                assert!(m.ends_with(",\"ts_ms\":77}"));
            }
        }
        _ => panic!("expected a send"),
    }
    assert!(!src.exhausted());
}

#[test]
fn random_source_without_timestamp() {
    let insts = select_instruments(Some("usdjpy")).unwrap();
    let mut src = RandomSource::new(insts, Rng::new(8), false);
    let q = src.next_quote(5);
    assert!(q.starts_with("{\"symbol\":\"USDJPY\",\"bid\":"));
    assert!(!q.contains("ts_ms"));
}

#[test]
fn paced_run_sends_until_exhausted() {
    let mut src = replay(2);
    let mut run = PacedRun::new();
    match run.on_event(&mut src, PaceEvent::Tick, 0) {
        PaceAction::Send(m) => assert_eq!(m, "line0"),
        _ => panic!("expected a send"),
    }
    assert!(!run.record_sent());
    match run.on_event(&mut src, PaceEvent::Tick, 0) {
        PaceAction::Send(m) => assert_eq!(m, "line1"),
        _ => panic!("expected a send"),
    }
    run.record_sent();
    assert!(matches!(run.on_event(&mut src, PaceEvent::Tick, 0), PaceAction::Finished(2)));
    assert!(matches!(run.on_event(&mut src, PaceEvent::Tick, 0), PaceAction::Finished(2)));
}

#[test]
fn paced_run_stops_on_cancel() {
    let mut src = replay(5);
    let mut run = PacedRun::new();
    assert!(matches!(run.on_event(&mut src, PaceEvent::Tick, 0), PaceAction::Send(_)));
    run.record_sent();
    assert!(matches!(run.on_event(&mut src, PaceEvent::Cancel, 0), PaceAction::Cancelled(1)));
    assert!(matches!(run.on_event(&mut src, PaceEvent::Tick, 0), PaceAction::Cancelled(1)));
    match &src {
        Source::Replay(r) => assert_eq!(r.remaining(), 4),
        _ => unreachable!(),
    }
}

#[test]
fn progress_every_hundred() {
    let mut run = PacedRun::new();
    let mut due = 0;
    for _ in 0..250 {
        if run.record_sent() {
            due += 1;
        }
    }
    assert_eq!(due, 2);
    assert_eq!(run.sent, 250);
    assert!(progress_due(500, 500));
    assert!(!progress_due(0, 500));
    assert!(!progress_due(499, 500));
}
