//! The test cockpit: per-test expectation recording and the KTAP report.
//!
//! Expectations record and continue (the KUnit model): a failed check yields
//! its diagnostic and the test keeps running, so one bad reading reports every
//! consequence. The runner numbers the tests in registry order, reports each
//! one on its own line and decides the suite's verdict from the reports.
//! Running a test and writing its lines out is the caller's job.
use vstd::prelude::*;
use vstd::string::StringSliceAdditionalSpecFns;
use crate::exit::{verdict_code, SUCCESS, FAILURE};

verus! {

/// ASCII decimal digits of `n`, most significant first, no leading zeros.
pub open spec fn decimal(n: nat) -> Seq<u8>
    decreases n,
{
    let head = if n < 10 {
        Seq::<u8>::empty()
    } else {
        decimal(n / 10)
    };
    head.push((48 + n % 10) as u8)
}

/// The lower-case ASCII hex digit for `d < 16`.
pub open spec fn hex_digit(d: nat) -> u8 {
    if d < 10 {
        (48 + d) as u8
    } else {
        (87 + d) as u8
    }
}

/// Lower-case ASCII hex digits of `n`, most significant first, no leading zeros.
pub open spec fn hex_digits(n: nat) -> Seq<u8>
    decreases n,
{
    let head = if n < 16 {
        Seq::<u8>::empty()
    } else {
        hex_digits(n / 16)
    };
    head.push(hex_digit(n % 16))
}

/// The alternate hex form of `n`: `0x` followed by its hex digits.
pub open spec fn hex(n: nat) -> Seq<u8> {
    seq![48u8, 120u8] + hex_digits(n)
}

/// The number an ASCII decimal digit string denotes.
pub open spec fn decimal_value(s: Seq<u8>) -> nat
    decreases s.len(),
{
    if s.len() == 0 {
        0
    } else {
        decimal_value(s.drop_last()) * 10 + (s.last() - 48) as nat
    }
}

/// The number a lower-case ASCII hex digit string denotes.
pub open spec fn hex_value(s: Seq<u8>) -> nat
    decreases s.len(),
{
    if s.len() == 0 {
        0
    } else {
        let c = s.last();
        hex_value(s.drop_last()) * 16 + (if c < 58 {
            c - 48
        } else {
            c - 87
        }) as nat
    }
}

/// The decimal form of `n` is made of digits and reads back as `n`.
pub proof fn lemma_decimal_reads_back(n: nat)
    ensures
        decimal_value(decimal(n)) == n,
        forall|i: int| 0 <= i < decimal(n).len() ==> 48 <= #[trigger] decimal(n)[i] <= 57,
    decreases n,
{
    let head = if n < 10 {
        Seq::<u8>::empty()
    } else {
        decimal(n / 10)
    };
    if n >= 10 {
        lemma_decimal_reads_back(n / 10);
    }
    assert(decimal(n).drop_last() =~= head);
    assert(decimal(n).last() == (48 + n % 10) as u8);
    assert(decimal(n).last() - 48 == n % 10);
    assert(decimal_value(decimal(n)) == decimal_value(head) * 10 + n % 10);
    assert(n == (n / 10) * 10 + n % 10);
    assert forall|i: int| 0 <= i < decimal(n).len() implies 48 <= #[trigger] decimal(n)[i] <= 57 by {
        if i < head.len() {
            assert(decimal(n)[i] == head[i]);
        }
    }
}

/// The hex digits of `n` are lower-case hex digits and read back as `n`.
pub proof fn lemma_hex_reads_back(n: nat)
    ensures
        hex_value(hex_digits(n)) == n,
        forall|i: int|
            0 <= i < hex_digits(n).len() ==> {
                let c = #[trigger] hex_digits(n)[i];
                (48 <= c <= 57) || (97 <= c <= 102)
            },
    decreases n,
{
    let head = if n < 16 {
        Seq::<u8>::empty()
    } else {
        hex_digits(n / 16)
    };
    if n >= 16 {
        lemma_hex_reads_back(n / 16);
    }
    assert(hex_digits(n).drop_last() =~= head);
    let c = hex_digits(n).last();
    assert(c == hex_digit(n % 16));
    assert((if c < 58 {
        c - 48
    } else {
        c - 87
    }) == n % 16);
    assert(hex_value(hex_digits(n)) == hex_value(head) * 16 + n % 16);
    assert(n == (n / 16) * 16 + n % 16);
    assert forall|i: int|
        0 <= i < hex_digits(n).len() implies {
            let c = #[trigger] hex_digits(n)[i];
            (48 <= c <= 57) || (97 <= c <= 102)
        } by {
        if i < head.len() {
            assert(hex_digits(n)[i] == head[i]);
        }
    }
}

fn push_bytes(out: &mut Vec<u8>, s: &str)
    ensures
        final(out)@ == old(out)@ + s.spec_bytes(),
{
    let bytes = s.as_bytes();
    let mut i: usize = 0;
    while i < bytes.len()
        invariant
            i <= bytes@.len(),
            bytes@ == s.spec_bytes(),
            out@ == old(out)@ + bytes@.take(i as int),
        decreases bytes@.len() - i,
    {
        out.push(bytes[i]);
        assert(bytes@.take(i as int + 1) =~= bytes@.take(i as int).push(bytes@[i as int]));
        i = i + 1;
    }
    assert(bytes@.take(i as int) =~= bytes@);
}

fn push_decimal(out: &mut Vec<u8>, n: u64)
    ensures
        final(out)@ == old(out)@ + decimal(n as nat),
    decreases n,
{
    if n >= 10 {
        push_decimal(out, n / 10);
    }
    out.push((48 + n % 10) as u8);
    assert(out@ =~= old(out)@ + decimal(n as nat));
}

fn push_hex_digits(out: &mut Vec<u8>, n: u64)
    ensures
        final(out)@ == old(out)@ + hex_digits(n as nat),
    decreases n,
{
    if n >= 16 {
        push_hex_digits(out, n / 16);
    }
    let d = n % 16;
    let c: u8 = if d < 10 {
        (48 + d) as u8
    } else {
        (87 + d) as u8
    };
    out.push(c);
    assert(out@ =~= old(out)@ + hex_digits(n as nat));
}

fn push_hex(out: &mut Vec<u8>, n: u64)
    ensures
        final(out)@ == old(out)@ + hex(n as nat),
{
    out.push(48);
    out.push(120);
    push_hex_digits(out, n);
    assert(out@ =~= old(out)@ + hex(n as nat));
}

/// One registered test: its id and the entry point that runs it.
pub struct KtestDesc<R> {
    pub id: &'static str,
    pub run: R,
}

/// Per-test expectation recorder.
pub struct TestCtx {
    failed: bool,
    skip: Option<&'static str>,
}

/// How a finished test is reported.
#[derive(Clone, Copy, Debug, PartialEq, Eq)]
pub enum Outcome {
    Pass,
    Fail,
    Skip,
}

impl TestCtx {
    /// Some expectation of this test failed.
    pub closed spec fn recorded_failure(&self) -> bool {
        self.failed
    }

    /// Why the test was skipped, if it was.
    pub closed spec fn skip_reason(&self) -> Option<&'static str> {
        self.skip
    }

    /// How the test is reported: a skip wins over any recorded failure.
    pub open spec fn outcome(&self) -> Outcome {
        if self.skip_reason() is Some {
            Outcome::Skip
        } else if self.recorded_failure() {
            Outcome::Fail
        } else {
            Outcome::Pass
        }
    }

    /// A fresh recorder: nothing failed, not skipped.
    pub fn new() -> (ctx: TestCtx)
        ensures
            !ctx.recorded_failure(),
            ctx.skip_reason() is None,
    {
        TestCtx { failed: false, skip: None }
    }

    /// Expect `cond`. On failure the test is marked failed and the diagnostic
    /// line to print is returned; the test keeps running either way.
    pub fn expect(&mut self, cond: bool, what: &str) -> (diag: Option<Vec<u8>>)
        ensures
            final(self).recorded_failure() == (old(self).recorded_failure() || !cond),
            final(self).skip_reason() == old(self).skip_reason(),
            diag is Some <==> !cond,
            diag matches Some(d) ==> d@ == expect_diag(what.spec_bytes()),
    {
        if !cond {
            self.failed = true;
            let mut d: Vec<u8> = Vec::new();
            push_bytes(&mut d, "# ");
            push_bytes(&mut d, what);
            push_bytes(&mut d, ": observed false, expected true\n");
            Some(d)
        } else {
            None
        }
    }

    /// Expect `observed == expected`. On failure the test is marked failed and
    /// the diagnostic line, with both values in hex, is returned.
    pub fn expect_eq(&mut self, what: &str, observed: u64, expected: u64) -> (diag: Option<
        Vec<u8>,
    >)
        ensures
            final(self).recorded_failure() == (old(self).recorded_failure() || observed
                != expected),
            final(self).skip_reason() == old(self).skip_reason(),
            diag is Some <==> observed != expected,
            diag matches Some(d) ==> d@ == expect_eq_diag(
                what.spec_bytes(),
                observed as nat,
                expected as nat,
            ),
    {
        if observed != expected {
            self.failed = true;
            let mut d: Vec<u8> = Vec::new();
            push_bytes(&mut d, "# ");
            push_bytes(&mut d, what);
            push_bytes(&mut d, ": observed ");
            push_hex(&mut d, observed);
            push_bytes(&mut d, ", expected ");
            push_hex(&mut d, expected);
            push_bytes(&mut d, "\n");
            Some(d)
        } else {
            None
        }
    }

    /// Mark the whole test skipped. Wins over any recorded failure: a check
    /// that cannot run on this machine must not fail on it either.
    pub fn skip(&mut self, reason: &'static str)
        ensures
            final(self).skip_reason() == Some(reason),
            final(self).recorded_failure() == old(self).recorded_failure(),
    {
        self.skip = Some(reason);
    }
}

/// The diagnostic of a failed `expect`.
pub open spec fn expect_diag(what: Seq<u8>) -> Seq<u8> {
    "# ".spec_bytes() + what + ": observed false, expected true\n".spec_bytes()
}

/// The diagnostic of a failed `expect_eq`.
pub open spec fn expect_eq_diag(what: Seq<u8>, observed: nat, expected: nat) -> Seq<u8> {
    "# ".spec_bytes() + what + ": observed ".spec_bytes() + hex(observed)
        + ", expected ".spec_bytes() + hex(expected) + "\n".spec_bytes()
}

/// The KTAP header for a suite of `total` tests: the version line and the plan.
pub open spec fn ktap_header(total: nat) -> Seq<u8> {
    "KTAP version 1\n".spec_bytes() + "1..".spec_bytes() + decimal(total) + "\n".spec_bytes()
}

/// The result line of test number `n` with id `id`, finished as `ctx` says.
pub open spec fn result_line(n: nat, id: Seq<u8>, ctx: TestCtx) -> Seq<u8> {
    match ctx.skip_reason() {
        Some(reason) => "ok ".spec_bytes() + decimal(n) + " - ".spec_bytes() + id
            + " # SKIP ".spec_bytes() + reason.spec_bytes() + "\n".spec_bytes(),
        None => if ctx.recorded_failure() {
            "not ok ".spec_bytes() + decimal(n) + " - ".spec_bytes() + id + "\n".spec_bytes()
        } else {
            "ok ".spec_bytes() + decimal(n) + " - ".spec_bytes() + id + "\n".spec_bytes()
        },
    }
}

/// A skipped test is reported `ok ... # SKIP` whatever its checks recorded,
/// and never counts against the verdict.
pub proof fn lemma_skip_wins(n: nat, id: Seq<u8>, ctx: TestCtx)
    requires
        ctx.skip_reason() is Some,
    ensures
        ctx.outcome() == Outcome::Skip,
        ctx.outcome() != Outcome::Fail,
        result_line(n, id, ctx) == "ok ".spec_bytes() + decimal(n) + " - ".spec_bytes() + id
            + " # SKIP ".spec_bytes() + ctx.skip_reason()->0.spec_bytes() + "\n".spec_bytes(),
{
}

/// A test that recorded a failure and was not skipped is reported `not ok`
/// and turns the verdict to failure.
pub proof fn lemma_failure_reported(n: nat, id: Seq<u8>, ctx: TestCtx, earlier: Seq<Outcome>)
    requires
        ctx.skip_reason() is None,
        ctx.recorded_failure(),
    ensures
        result_line(n, id, ctx) == "not ok ".spec_bytes() + decimal(n) + " - ".spec_bytes() + id
            + "\n".spec_bytes(),
        !none_failed(earlier.push(ctx.outcome())),
{
    assert(earlier.push(ctx.outcome())[earlier.len() as int] == Outcome::Fail);
}

/// No outcome in `outcomes` is a failure.
pub open spec fn none_failed(outcomes: Seq<Outcome>) -> bool {
    forall|i: int| 0 <= i < outcomes.len() ==> outcomes[i] != Outcome::Fail
}

/// Running two registries one after the other passes exactly when each
/// passes on its own; an empty registry passes.
pub proof fn lemma_none_failed_concat(a: Seq<Outcome>, b: Seq<Outcome>)
    ensures
        none_failed(a + b) == (none_failed(a) && none_failed(b)),
        none_failed(Seq::<Outcome>::empty()),
{
    assert forall|i: int| 0 <= i < a.len() implies (a + b)[i] == a[i] by {}
    assert forall|i: int| 0 <= i < b.len() implies (a + b)[a.len() + i] == b[i] by {}
    if none_failed(a) && none_failed(b) {
        assert forall|i: int| 0 <= i < (a + b).len() implies (a + b)[i] != Outcome::Fail by {
            if i >= a.len() {
                assert((a + b)[a.len() + (i - a.len())] == b[i - a.len()]);
            }
        }
    }
}

/// A KTAP run in progress: the planned number of tests and the outcomes
/// reported so far, in order.
pub struct KtapRun {
    total: usize,
    reported: usize,
    all_ok: bool,
    outcomes: Ghost<Seq<Outcome>>,
}

impl KtapRun {
    /// The number of tests in the plan.
    pub closed spec fn total(&self) -> nat {
        self.total as nat
    }

    /// The outcomes reported so far, in order.
    pub closed spec fn outcomes(&self) -> Seq<Outcome> {
        self.outcomes@
    }

    /// The run's bookkeeping agrees with the outcomes it has reported.
    pub closed spec fn wf(&self) -> bool {
        &&& self.reported == self.outcomes@.len()
        &&& self.reported <= self.total
        &&& self.all_ok == none_failed(self.outcomes@)
    }

    /// Start a run of `total` tests: the run, and the header to print.
    pub fn start(total: usize) -> (r: (KtapRun, Vec<u8>))
        ensures
            r.0.wf(),
            r.0.total() == total,
            r.0.outcomes() == Seq::<Outcome>::empty(),
            r.1@ == ktap_header(total as nat),
    {
        let mut header: Vec<u8> = Vec::new();
        push_bytes(&mut header, "KTAP version 1\n");
        push_bytes(&mut header, "1..");
        push_decimal(&mut header, total as u64);
        push_bytes(&mut header, "\n");
        let run = KtapRun { total, reported: 0, all_ok: true, outcomes: Ghost(Seq::empty()) };
        (run, header)
    }

    /// Record the next test in registry order, finished as `ctx` says: the
    /// result line to print.
    pub fn report<R>(&mut self, desc: &KtestDesc<R>, ctx: &TestCtx) -> (line: Vec<u8>)
        requires
            old(self).wf(),
            old(self).outcomes().len() < old(self).total(),
        ensures
            final(self).wf(),
            final(self).total() == old(self).total(),
            final(self).outcomes() == old(self).outcomes().push(ctx.outcome()),
            line@ == result_line(
                old(self).outcomes().len() + 1,
                desc.id.spec_bytes(),
                *ctx,
            ),
    {
        let n = self.reported + 1;
        let mut line: Vec<u8> = Vec::new();
        match ctx.skip {
            Some(reason) => {
                push_bytes(&mut line, "ok ");
                push_decimal(&mut line, n as u64);
                push_bytes(&mut line, " - ");
                push_bytes(&mut line, desc.id);
                push_bytes(&mut line, " # SKIP ");
                push_bytes(&mut line, reason);
                push_bytes(&mut line, "\n");
            },
            None => {
                if ctx.failed {
                    self.all_ok = false;
                    push_bytes(&mut line, "not ok ");
                } else {
                    push_bytes(&mut line, "ok ");
                }
                push_decimal(&mut line, n as u64);
                push_bytes(&mut line, " - ");
                push_bytes(&mut line, desc.id);
                push_bytes(&mut line, "\n");
            },
        }
        let ghost prev = self.outcomes@;
        self.reported = n;
        self.outcomes = Ghost(prev.push(ctx.outcome()));
        assert(none_failed(self.outcomes@) == (none_failed(prev) && ctx.outcome()
            != Outcome::Fail)) by {
            assert(self.outcomes@[prev.len() as int] == ctx.outcome());
            assert forall|i: int| 0 <= i < prev.len() implies self.outcomes@[i] == prev[i] by {}
        }
        line
    }

    /// Once every planned test is reported: whether every test that was not
    /// skipped passed.
    pub fn all_ok(&self) -> (ok: bool)
        requires
            self.wf(),
            self.outcomes().len() == self.total(),
        ensures
            ok == none_failed(self.outcomes()),
    {
        self.all_ok
    }

    /// A run whose reports are those of registry `a` followed by those of
    /// registry `b` ends in SUCCESS exactly when each registry alone would.
    pub proof fn lemma_verdict_concat(&self, a: Seq<Outcome>, b: Seq<Outcome>)
        requires
            self.wf(),
            self.outcomes() == a + b,
        ensures
            (if none_failed(self.outcomes()) { SUCCESS } else { FAILURE }) == (if none_failed(a)
                && none_failed(b) {
                SUCCESS
            } else {
                FAILURE
            }),
    {
        lemma_none_failed_concat(a, b);
    }

    /// The code to hand the exit device once the run is over.
    pub fn verdict(&self) -> (code: u8)
        requires
            self.wf(),
            self.outcomes().len() == self.total(),
        ensures
            code == (if none_failed(self.outcomes()) { SUCCESS } else { FAILURE }),
    {
        verdict_code(self.all_ok)
    }
}

} // verus!
