//! The 16550 UART at COM1: the register programming that brings it up, the
//! transmit-ready decision, and the newline translation of the byte stream.
use vstd::prelude::*;
use vstd::string::StringSliceAdditionalSpecFns;

verus! {

/// COM1 I/O base port.
pub const COM1: u16 = 0x3F8;

/// Interrupt Enable Register (Divisor Latch high byte while DLAB is set).
pub const IER: u16 = COM1 + 1;

/// FIFO Control Register (write side).
pub const FCR: u16 = COM1 + 2;

/// Line Control Register; bit 7 is DLAB.
pub const LCR: u16 = COM1 + 3;

/// Modem Control Register.
pub const MCR: u16 = COM1 + 4;

/// Line Status Register; bit 5 (THRE) = transmit holding register empty.
pub const LSR: u16 = COM1 + 5;

/// LCR value for 8 data bits, no parity, one stop bit, DLAB clear.
pub const LCR_8N1: u8 = 0x03;

/// FCR value: FIFOs enabled, both cleared, 14-byte receive threshold.
pub const FCR_FIFO_ON: u8 = 0xC7;

/// MCR value: DTR and RTS asserted, OUT2 low so the UART cannot raise an IRQ.
pub const MCR_DTR_RTS: u8 = 0x03;

/// One byte written to one I/O port.
#[derive(Clone, Copy, Debug, PartialEq, Eq)]
pub struct PortWrite {
    pub port: u16,
    pub value: u8,
}

/// The programmable registers of the UART, as far as the bring-up touches them.
#[derive(Clone, Copy, Debug, PartialEq, Eq)]
pub struct UartRegs {
    pub ier: u8,
    pub lcr: u8,
    pub fcr: u8,
    pub mcr: u8,
    pub dll: u8,
    pub dlm: u8,
}

/// LCR bit 7 (DLAB) routes ports +0 and +1 to the baud-rate divisor latch.
pub open spec fn dlab_set(lcr: u8) -> bool {
    lcr >= 0x80
}

/// The register file after the UART receives one port write.
pub open spec fn apply_write(r: UartRegs, w: PortWrite) -> UartRegs {
    if w.port == COM1 {
        if dlab_set(r.lcr) {
            UartRegs { dll: w.value, ..r }
        } else {
            r
        }
    } else if w.port == IER {
        if dlab_set(r.lcr) {
            UartRegs { dlm: w.value, ..r }
        } else {
            UartRegs { ier: w.value, ..r }
        }
    } else if w.port == FCR {
        UartRegs { fcr: w.value, ..r }
    } else if w.port == LCR {
        UartRegs { lcr: w.value, ..r }
    } else if w.port == MCR {
        UartRegs { mcr: w.value, ..r }
    } else {
        r
    }
}

/// The register file after a sequence of port writes, in order.
pub open spec fn apply_writes(r: UartRegs, ws: Seq<PortWrite>) -> UartRegs
    decreases ws.len(),
{
    if ws.len() == 0 {
        r
    } else {
        apply_writes(apply_write(r, ws[0]), ws.drop_first())
    }
}

/// The bring-up sequence: DLAB off so that the next write reaches IER
/// whatever state the UART was left in, interrupts off, divisor 1 (115200 baud), 8N1,
/// FIFOs on, modem lines up with the IRQ gate closed.
pub open spec fn init_sequence() -> Seq<PortWrite> {
    seq![
        PortWrite { port: LCR, value: 0x00 },
        PortWrite { port: IER, value: 0x00 },
        PortWrite { port: LCR, value: 0x80 },
        PortWrite { port: COM1, value: 0x01 },
        PortWrite { port: IER, value: 0x00 },
        PortWrite { port: LCR, value: LCR_8N1 },
        PortWrite { port: FCR, value: FCR_FIFO_ON },
        PortWrite { port: MCR, value: MCR_DTR_RTS },
    ]
}

/// A UART configured for 8N1 at divisor 1, with FIFOs on and interrupts off.
pub open spec fn configured(r: UartRegs) -> bool {
    &&& r.lcr == LCR_8N1
    &&& r.ier == 0
    &&& r.fcr == FCR_FIFO_ON
    &&& r.mcr == MCR_DTR_RTS
    &&& r.dll == 1
    &&& r.dlm == 0
}

/// Initialise COM1: 8N1, FIFOs on, interrupts off. Returns the port writes
/// to perform, in order.
pub fn init() -> (ws: Vec<PortWrite>)
    ensures
        ws@ == init_sequence(),
        forall|r: UartRegs| #[trigger] configured(apply_writes(r, ws@)),
        forall|r: UartRegs|
            {
                let f = #[trigger] apply_writes(r, ws@);
                &&& f.lcr == 0x03
                &&& f.ier == 0x00
                &&& f.fcr == 0xC7
                &&& f.mcr == 0x03
                &&& f.dll == 0x01
                &&& f.dlm == 0x00
            },
{
    let mut ws: Vec<PortWrite> = Vec::new();
    ws.push(PortWrite { port: LCR, value: 0x00 });
    ws.push(PortWrite { port: IER, value: 0x00 });
    ws.push(PortWrite { port: LCR, value: 0x80 });
    ws.push(PortWrite { port: COM1, value: 0x01 });
    ws.push(PortWrite { port: IER, value: 0x00 });
    ws.push(PortWrite { port: LCR, value: LCR_8N1 });
    ws.push(PortWrite { port: FCR, value: FCR_FIFO_ON });
    ws.push(PortWrite { port: MCR, value: MCR_DTR_RTS });
    assert(ws@ =~= init_sequence());
    assert forall|r: UartRegs| #[trigger] configured(apply_writes(r, ws@)) by {
        lemma_init_configures(r);
    }
    assert forall|r: UartRegs|
        {
            let f = #[trigger] apply_writes(r, ws@);
            &&& f.lcr == 0x03
            &&& f.ier == 0x00
            &&& f.fcr == 0xC7
            &&& f.mcr == 0x03
            &&& f.dll == 0x01
            &&& f.dlm == 0x00
        } by {
        lemma_init_configures(r);
    }
    ws
}

/// Whatever state the UART was left in, the bring-up sequence leaves it
/// configured for 8N1 with FIFOs on and interrupts off.
pub proof fn lemma_init_configures(r: UartRegs)
    ensures
        configured(apply_writes(r, init_sequence())),
{
    let s = init_sequence();
    let r1 = apply_write(r, s[0]);
    let r2 = apply_write(r1, s[1]);
    let r3 = apply_write(r2, s[2]);
    let r4 = apply_write(r3, s[3]);
    let r5 = apply_write(r4, s[4]);
    let r6 = apply_write(r5, s[5]);
    let r7 = apply_write(r6, s[6]);
    let r8 = apply_write(r7, s[7]);
    assert(s.subrange(0, 8) =~= s);
    lemma_apply_writes_step(r, s, 0);
    lemma_apply_writes_step(r1, s, 1);
    lemma_apply_writes_step(r2, s, 2);
    lemma_apply_writes_step(r3, s, 3);
    lemma_apply_writes_step(r4, s, 4);
    lemma_apply_writes_step(r5, s, 5);
    lemma_apply_writes_step(r6, s, 6);
    lemma_apply_writes_step(r7, s, 7);
    assert(apply_writes(r8, s.subrange(8, 8)) == r8);
    assert(configured(r8));
}

proof fn lemma_apply_writes_step(r: UartRegs, ws: Seq<PortWrite>, k: int)
    requires
        0 <= k < ws.len(),
    ensures
        apply_writes(r, ws.subrange(k, ws.len() as int)) == apply_writes(
            apply_write(r, ws[k]),
            ws.subrange(k + 1, ws.len() as int),
        ),
{
    assert(ws.subrange(k, ws.len() as int).drop_first() =~= ws.subrange(k + 1, ws.len() as int));
}

/// LSR bit 5: the transmit holding register is empty.
pub open spec fn thre(lsr: u8) -> bool {
    lsr & 0x20 != 0
}

/// The decision `write_byte` makes.
pub open spec fn byte_write(b: u8, lsr: u8) -> Option<PortWrite> {
    if thre(lsr) {
        Some(PortWrite { port: COM1, value: b })
    } else {
        None
    }
}

/// Sending `pending` byte by byte with `write_byte`, one LSR reading per
/// step: the data-register writes made while `readings` last.
pub open spec fn send_run(pending: Seq<u8>, readings: Seq<u8>) -> Seq<PortWrite>
    decreases readings.len(),
{
    if readings.len() == 0 || pending.len() == 0 {
        Seq::empty()
    } else {
        match byte_write(pending[0], readings[0]) {
            Some(w) => seq![w] + send_run(pending.drop_first(), readings.drop_first()),
            None => send_run(pending, readings.drop_first()),
        }
    }
}

/// How many readings show the transmitter ready.
pub open spec fn ready_count(readings: Seq<u8>) -> nat
    decreases readings.len(),
{
    if readings.len() == 0 {
        0
    } else {
        (if thre(readings[0]) {
            1nat
        } else {
            0nat
        }) + ready_count(readings.drop_first())
    }
}

/// Data-register writes of the bytes `bs`, in order.
pub open spec fn data_writes(bs: Seq<u8>) -> Seq<PortWrite> {
    Seq::new(bs.len(), |i: int| PortWrite { port: COM1, value: bs[i] })
}

/// Sending bytes one after another with `write_byte` writes exactly those
/// bytes to the data register, in order, none lost and none repeated: one
/// per reading that shows the transmitter ready, until all are sent.
pub proof fn lemma_send_in_order(pending: Seq<u8>, readings: Seq<u8>)
    ensures
        send_run(pending, readings) == data_writes(
            pending.take(
                if ready_count(readings) < pending.len() {
                    ready_count(readings) as int
                } else {
                    pending.len() as int
                },
            ),
        ),
        ready_count(readings) >= pending.len() ==> send_run(pending, readings) == data_writes(
            pending,
        ),
    decreases readings.len(),
{
    let k = if ready_count(readings) < pending.len() {
        ready_count(readings) as int
    } else {
        pending.len() as int
    };
    if readings.len() == 0 || pending.len() == 0 {
        assert(data_writes(pending.take(k)) =~= Seq::<PortWrite>::empty());
    } else {
        let rest = readings.drop_first();
        if thre(readings[0]) {
            let p = pending.drop_first();
            lemma_send_in_order(p, rest);
            let k2 = if ready_count(rest) < p.len() {
                ready_count(rest) as int
            } else {
                p.len() as int
            };
            assert(k == k2 + 1);
            assert(seq![PortWrite { port: COM1, value: pending[0] }] + data_writes(p.take(k2))
                =~= data_writes(pending.take(k)));
        } else {
            lemma_send_in_order(pending, rest);
        }
    }
    assert(pending.take(pending.len() as int) =~= pending);
}

/// Send one byte: given the current LSR reading, either the data-register
/// write to perform now, or `None` to poll LSR again.
pub fn write_byte(b: u8, lsr: u8) -> (w: Option<PortWrite>)
    ensures
        w == byte_write(b, lsr),
        w is Some <==> (lsr & 0x20) != 0,
        w matches Some(pw) ==> pw.port == 0x3F8 && pw.value == b,
{
    if lsr & 0x20 != 0 {
        Some(PortWrite { port: COM1, value: b })
    } else {
        None
    }
}

/// The transmit decision looks at LSR bit 5 (THRE) alone: a reading with
/// only that bit set is ready, a reading of zero is not, and two readings
/// that agree on bit 5 get the same decision, whatever the other status bits
/// (data ready, errors, TEMT) say. The byte written is the byte given, to
/// the data register.
pub proof fn lemma_ready_is_bit5(b: u8, lsr1: u8, lsr2: u8)
    ensures
        byte_write(b, 0x20) == Some(PortWrite { port: 0x3F8, value: b }),
        byte_write(b, 0xFF) == Some(PortWrite { port: 0x3F8, value: b }),
        byte_write(b, 0x00) is None,
        byte_write(b, 0xDF) is None,
        (lsr1 & 0x20) == (lsr2 & 0x20) ==> byte_write(b, lsr1) == byte_write(b, lsr2),
{
    assert(0x20u8 & 0x20u8 != 0u8) by (bit_vector);
    assert(0xFFu8 & 0x20u8 != 0u8) by (bit_vector);
    assert(0x00u8 & 0x20u8 == 0u8) by (bit_vector);
    assert(0xDFu8 & 0x20u8 == 0u8) by (bit_vector);
}

/// The wire form of one byte: a line feed goes out as CR LF.
pub open spec fn crlf_byte(b: u8) -> Seq<u8> {
    if b == 10 {
        seq![13u8, 10u8]
    } else {
        seq![b]
    }
}

/// The wire form of a byte string, every `\n` sent as `\r\n`.
pub open spec fn crlf(bs: Seq<u8>) -> Seq<u8>
    decreases bs.len(),
{
    if bs.len() == 0 {
        Seq::empty()
    } else {
        crlf(bs.drop_last()) + crlf_byte(bs.last())
    }
}

/// Send a string, translating `\n` to `\r\n`. Returns the bytes to send, in order.
pub fn write_str(s: &str) -> (out: Vec<u8>)
    ensures
        out@ == crlf(s.spec_bytes()),
{
    let bytes = s.as_bytes();
    let mut out: Vec<u8> = Vec::new();
    let mut i: usize = 0;
    while i < bytes.len()
        invariant
            i <= bytes@.len(),
            bytes@ == s.spec_bytes(),
            out@ == crlf(bytes@.take(i as int)),
        decreases bytes@.len() - i,
    {
        let b = bytes[i];
        assert(bytes@.take(i as int + 1).drop_last() =~= bytes@.take(i as int));
        if b == 10 {
            out.push(13);
            out.push(10);
        } else {
            out.push(b);
        }
        i = i + 1;
    }
    assert(bytes@.take(i as int) =~= bytes@);
    out
}

/// Translating a stream in pieces gives the same bytes as translating it whole.
pub proof fn lemma_crlf_concat(a: Seq<u8>, b: Seq<u8>)
    ensures
        crlf(a + b) == crlf(a) + crlf(b),
    decreases b.len(),
{
    if b.len() == 0 {
        assert(a + b =~= a);
        assert(crlf(a) + crlf(b) =~= crlf(a));
    } else {
        lemma_crlf_concat(a, b.drop_last());
        assert((a + b).drop_last() =~= a + b.drop_last());
        assert((a + b).last() == b.last());
        assert(crlf(a + b) =~= crlf(a) + crlf(b));
    }
}

/// A stream without line feeds goes out unchanged.
pub proof fn lemma_crlf_no_newline(bs: Seq<u8>)
    requires
        forall|i: int| 0 <= i < bs.len() ==> bs[i] != 10,
    ensures
        crlf(bs) == bs,
    decreases bs.len(),
{
    if bs.len() > 0 {
        lemma_crlf_no_newline(bs.drop_last());
        assert(crlf(bs) =~= bs);
    }
}

/// Every line feed on the wire follows a carriage return.
pub proof fn lemma_crlf_no_bare_lf(bs: Seq<u8>)
    ensures
        forall|j: int|
            0 <= j < crlf(bs).len() && #[trigger] crlf(bs)[j] == 10 ==> j > 0 && crlf(bs)[j
                - 1] == 13,
    decreases bs.len(),
{
    if bs.len() > 0 {
        lemma_crlf_no_bare_lf(bs.drop_last());
        let p = crlf(bs.drop_last());
        let t = crlf_byte(bs.last());
        assert(crlf(bs) == p + t);
        assert forall|j: int|
            0 <= j < crlf(bs).len() && #[trigger] crlf(bs)[j] == 10 implies j > 0 && crlf(bs)[j
                - 1] == 13 by {
            if j < p.len() {
                assert(crlf(bs)[j] == p[j]);
                assert(p[j] == 10);
                assert(crlf(bs)[j - 1] == p[j - 1]);
            } else {
                assert(crlf(bs)[j] == t[j - p.len()]);
                if bs.last() == 10 {
                    assert(j == p.len() + 1);
                    assert(crlf(bs)[j - 1] == t[0]);
                } else {
                    assert(t[j - p.len()] == bs.last());
                }
            }
        }
    }
}

} // verus!
