use kernel::exit::{verdict_code, FAILURE, SUCCESS};
use kernel::ktap::{KtapRun, KtestDesc, TestCtx};

fn desc(id: &'static str) -> KtestDesc<()> {
    KtestDesc { id, run: () }
}

#[test]
fn expect_passing_prints_nothing() {
    let mut t = TestCtx::new();
    assert_eq!(t.expect(true, "registry non-empty"), None);
    assert_eq!(t.expect_eq("scratch readback", 0x5A, 0x5A), None);
    let (mut run, _) = KtapRun::start(1);
    assert_eq!(run.report(&desc("serial.scratch"), &t), b"ok 1 - serial.scratch\n".to_vec());
    assert!(run.all_ok());
}

#[test]
fn expect_failure_diagnostic() {
    let mut t = TestCtx::new();
    let d = t.expect(false, "ids unique").expect("diagnostic");
    assert_eq!(d, b"# ids unique: observed false, expected true\n".to_vec());
}

#[test]
fn expect_eq_failure_diagnostic_in_hex() {
    let mut t = TestCtx::new();
    let d = t.expect_eq("scratch readback", 0xFF, 0x5A).expect("diagnostic");
    assert_eq!(d, b"# scratch readback: observed 0xff, expected 0x5a\n".to_vec());
    let d = t.expect_eq("LSR & 0x60 after drain", 0, 0x60).expect("diagnostic");
    assert_eq!(d, b"# LSR & 0x60 after drain: observed 0x0, expected 0x60\n".to_vec());
    let d = t.expect_eq("wide", u64::MAX, 0x1234_5678_9abc).expect("diagnostic");
    assert_eq!(d, b"# wide: observed 0xffffffffffffffff, expected 0x123456789abc\n".to_vec());
}

#[test]
fn failures_record_and_continue() {
    let mut t = TestCtx::new();
    assert!(t.expect(false, "first").is_some());
    assert_eq!(t.expect(true, "second"), None);
    assert!(t.expect_eq("third", 1, 2).is_some());
    let (mut run, _) = KtapRun::start(1);
    assert_eq!(run.report(&desc("serial.burst"), &t), b"not ok 1 - serial.burst\n".to_vec());
    assert!(!run.all_ok());
}

#[test]
fn skip_wins_over_failure() {
    let mut t = TestCtx::new();
    assert!(t.expect(false, "rx").is_some());
    t.skip("receive path arrives with the lab-07 IRQ line");
    assert!(t.expect_eq("after skip", 1, 2).is_some());
    let (mut run, _) = KtapRun::start(1);
    assert_eq!(
        run.report(&desc("serial.rx"), &t),
        b"ok 1 - serial.rx # SKIP receive path arrives with the lab-07 IRQ line\n".to_vec()
    );
    assert!(run.all_ok());
    assert_eq!(run.verdict(), SUCCESS);
}

#[test]
fn header_with_plan() {
    let (_, h) = KtapRun::start(5);
    assert_eq!(h, b"KTAP version 1\n1..5\n".to_vec());
    let (_, h) = KtapRun::start(123);
    assert_eq!(h, b"KTAP version 1\n1..123\n".to_vec());
}

#[test]
fn empty_registry_gets_truthful_plan() {
    let (run, h) = KtapRun::start(0);
    assert_eq!(h, b"KTAP version 1\n1..0\n".to_vec());
    assert!(run.all_ok());
    assert_eq!(run.verdict(), SUCCESS);
}

#[test]
fn run_numbers_tests_in_order_and_keeps_verdict() {
    let ids = ["serial.scratch", "serial.lsr.idle", "serial.burst", "serial.rx", "ktap.registry"];
    let (mut run, _) = KtapRun::start(ids.len());
    let mut lines = Vec::new();
    for (i, id) in ids.iter().enumerate() {
        let mut t = TestCtx::new();
        if i == 2 {
            let _ = t.expect_eq("LSR TEMT after burst", 0, 0x40);
        }
        if i == 3 {
            t.skip("no IRQ");
        }
        lines.push(run.report(&desc(id), &t));
    }
    assert_eq!(lines[0], b"ok 1 - serial.scratch\n".to_vec());
    assert_eq!(lines[1], b"ok 2 - serial.lsr.idle\n".to_vec());
    assert_eq!(lines[2], b"not ok 3 - serial.burst\n".to_vec());
    assert_eq!(lines[3], b"ok 4 - serial.rx # SKIP no IRQ\n".to_vec());
    assert_eq!(lines[4], b"ok 5 - ktap.registry\n".to_vec());
    assert!(!run.all_ok());
    assert_eq!(run.verdict(), FAILURE);
}

#[test]
fn verdict_codes() {
    assert_eq!(SUCCESS, 0x10);
    assert_eq!(FAILURE, 0x11);
    assert_eq!(verdict_code(true), SUCCESS);
    assert_eq!(verdict_code(false), FAILURE);
}

#[test]
fn numbering_past_nine() {
    let (mut run, _) = KtapRun::start(12);
    let t = TestCtx::new();
    let mut last = Vec::new();
    for _ in 0..12 {
        last = run.report(&desc("t"), &t);
    }
    assert_eq!(last, b"ok 12 - t\n".to_vec());
}

fn run_suite(failing: &[bool]) -> u8 {
    let (mut run, _) = KtapRun::start(failing.len());
    for &f in failing {
        let mut t = TestCtx::new();
        let _ = t.expect(!f, "check");
        let _ = run.report(&desc("t"), &t);
    }
    run.verdict()
}

#[test]
fn concatenated_registries_verdict() {
    let a = [false, false];
    let b = [false, true, false];
    let ab: Vec<bool> = a.iter().chain(b.iter()).copied().collect();
    assert_eq!(run_suite(&a), SUCCESS);
    assert_eq!(run_suite(&b), FAILURE);
    assert_eq!(run_suite(&ab), FAILURE);
    let aa: Vec<bool> = a.iter().chain(a.iter()).copied().collect();
    assert_eq!(run_suite(&aa), SUCCESS);
    assert_eq!(run_suite(&[]), SUCCESS);
}
