//! The boot handshake: fixed lines on COM1 sent before any other code runs,
//! with its own bounded transmit poll so that it can never hang a boot.
use vstd::prelude::*;
use vstd::string::StringSliceAdditionalSpecFns;
use crate::serial::thre;

verus! {

/// How many extra not-ready LSR readings a handshake byte waits through
/// before it is dropped.
pub const SPIN_LIMIT: u32 = 100_000;

/// What to do with a handshake byte after one LSR reading.
#[derive(Clone, Copy, Debug, PartialEq, Eq)]
pub enum PutStep {
    /// The transmitter is ready: write the byte to the data register now.
    Transmit,
    /// Not ready yet: read LSR again, with this many readings spent waiting.
    Retry(u32),
    /// Waited long enough: drop the byte.
    GiveUp,
}

/// The decision `put_step` makes.
pub open spec fn put_decision(spins: u32, lsr: u8) -> PutStep {
    if thre(lsr) {
        PutStep::Transmit
    } else if spins + 1 > SPIN_LIMIT {
        PutStep::GiveUp
    } else {
        PutStep::Retry((spins + 1) as u32)
    }
}

/// One step of sending a handshake byte: `spins` not-ready readings have
/// been seen so far, and `lsr` is the latest reading.
pub fn put_step(spins: u32, lsr: u8) -> (r: PutStep)
    requires
        spins <= SPIN_LIMIT,
    ensures
        r == put_decision(spins, lsr),
        r == PutStep::Transmit <==> (lsr & 0x20) != 0,
        (lsr & 0x20) == 0 && spins < 100_000 ==> r == PutStep::Retry((spins + 1) as u32),
        (lsr & 0x20) == 0 && spins == 100_000 ==> r == PutStep::GiveUp,
{
    if lsr & 0x20 != 0 {
        PutStep::Transmit
    } else if spins + 1 > SPIN_LIMIT {
        PutStep::GiveUp
    } else {
        PutStep::Retry(spins + 1)
    }
}

/// The handshake poll, too, looks at LSR bit 5 alone: readings that agree
/// on bit 5 get the same step, a reading with bit 5 set transmits and one
/// with bit 5 clear waits one more reading or, at the limit, gives up.
pub proof fn lemma_put_decision_bit5(spins: u32, lsr1: u8, lsr2: u8)
    requires
        spins <= SPIN_LIMIT,
    ensures
        put_decision(spins, 0x20) == PutStep::Transmit,
        put_decision(spins, 0xFF) == PutStep::Transmit,
        spins < 100_000 ==> put_decision(spins, 0x00) == PutStep::Retry((spins + 1) as u32),
        spins < 100_000 ==> put_decision(spins, 0xDF) == PutStep::Retry((spins + 1) as u32),
        spins == 100_000 ==> put_decision(spins, 0xDF) == PutStep::GiveUp,
        (lsr1 & 0x20) == (lsr2 & 0x20) ==> put_decision(spins, lsr1) == put_decision(spins, lsr2),
{
    assert(0x20u8 & 0x20u8 != 0u8) by (bit_vector);
    assert(0xFFu8 & 0x20u8 != 0u8) by (bit_vector);
    assert(0x00u8 & 0x20u8 == 0u8) by (bit_vector);
    assert(0xDFu8 & 0x20u8 == 0u8) by (bit_vector);
}

/// How sending one byte ended.
#[derive(Clone, Copy, Debug, PartialEq, Eq)]
pub enum PutEnd {
    Sent,
    Dropped,
}

/// Sending one byte from `spins` against successive LSR readings: how it
/// ends and how many readings it took, or `None` if the readings run out first.
pub open spec fn put_run(spins: u32, readings: Seq<u8>) -> Option<(PutEnd, nat)>
    decreases readings.len(),
{
    if readings.len() == 0 {
        None
    } else {
        match put_decision(spins, readings[0]) {
            PutStep::Transmit => Some((PutEnd::Sent, 1)),
            PutStep::GiveUp => Some((PutEnd::Dropped, 1)),
            PutStep::Retry(s) => match put_run(s, readings.drop_first()) {
                Some((e, k)) => Some((e, k + 1)),
                None => None,
            },
        }
    }
}

proof fn lemma_put_run_from(spins: u32, readings: Seq<u8>)
    requires
        spins <= SPIN_LIMIT,
        readings.len() >= SPIN_LIMIT + 1 - spins,
    ensures
        put_run(spins, readings) matches Some((e, k)) && {
            &&& 1 <= k <= SPIN_LIMIT + 1 - spins
            &&& forall|i: int| 0 <= i < k - 1 ==> !thre(#[trigger] readings[i])
            &&& (e == PutEnd::Sent <==> thre(readings[k - 1]))
            &&& (e == PutEnd::Dropped ==> k == SPIN_LIMIT + 1 - spins)
        },
    decreases SPIN_LIMIT - spins,
{
    if !thre(readings[0]) && spins + 1 <= SPIN_LIMIT {
        let rest = readings.drop_first();
        lemma_put_run_from((spins + 1) as u32, rest);
        let (e, k) = put_run((spins + 1) as u32, rest)->0;
        assert forall|i: int| 0 <= i < k + 1 - 1 implies !thre(#[trigger] readings[i]) by {
            if i > 0 {
                assert(readings[i] == rest[i - 1]);
            }
        }
        assert(readings[k + 1 - 1] == rest[k - 1]);
    }
}

/// A handshake byte never waits for more than `SPIN_LIMIT + 1` LSR readings:
/// it is sent at the first reading that shows the transmitter ready, and
/// dropped only after that many readings all showed it busy.
pub proof fn lemma_put_bounded(readings: Seq<u8>)
    requires
        readings.len() >= SPIN_LIMIT + 1,
    ensures
        put_run(0, readings) matches Some((e, k)) && {
            &&& 1 <= k <= SPIN_LIMIT + 1
            &&& forall|i: int| 0 <= i < k - 1 ==> !thre(#[trigger] readings[i])
            &&& (e == PutEnd::Sent <==> thre(readings[k - 1]))
            &&& (e == PutEnd::Dropped ==> k == SPIN_LIMIT + 1)
        },
{
    lemma_put_run_from(0, readings);
}

/// Print one handshake line, `\r\n`-terminated: the bytes to send, in order.
pub fn line(s: &str) -> (out: Vec<u8>)
    ensures
        out@ == s.spec_bytes() + seq![13u8, 10u8],
{
    let bytes = s.as_bytes();
    let mut out: Vec<u8> = Vec::new();
    let mut i: usize = 0;
    while i < bytes.len()
        invariant
            i <= bytes@.len(),
            bytes@ == s.spec_bytes(),
            out@ == bytes@.take(i as int),
        decreases bytes@.len() - i,
    {
        out.push(bytes[i]);
        assert(bytes@.take(i as int + 1) =~= bytes@.take(i as int).push(bytes@[i as int]));
        i = i + 1;
    }
    assert(bytes@.take(i as int) =~= bytes@);
    out.push(13);
    out.push(10);
    assert(out@ =~= s.spec_bytes() + seq![13u8, 10u8]);
    out
}

} // verus!
