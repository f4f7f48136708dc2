use kernel::serial::{init, write_byte, write_str, PortWrite, COM1, FCR, IER, LCR, MCR, LSR};

#[test]
fn init_programs_8n1_fifo_quiet() {
    let ws = init();
    let expected = vec![
        PortWrite { port: LCR, value: 0x00 },
        PortWrite { port: IER, value: 0x00 },
        PortWrite { port: LCR, value: 0x80 },
        PortWrite { port: COM1, value: 0x01 },
        PortWrite { port: IER, value: 0x00 },
        PortWrite { port: LCR, value: 0x03 },
        PortWrite { port: FCR, value: 0xC7 },
        PortWrite { port: MCR, value: 0x03 },
    ];
    assert_eq!(ws, expected);
}

#[test]
fn register_ports_are_com1_offsets() {
    assert_eq!(COM1, 0x3F8);
    assert_eq!(IER, 0x3F9);
    assert_eq!(FCR, 0x3FA);
    assert_eq!(LCR, 0x3FB);
    assert_eq!(MCR, 0x3FC);
    assert_eq!(LSR, 0x3FD);
}

#[test]
fn write_byte_waits_for_thre() {
    assert_eq!(write_byte(b'A', 0x00), None);
    assert_eq!(write_byte(b'A', 0xDF), None);
    assert_eq!(write_byte(b'A', 0x20), Some(PortWrite { port: COM1, value: b'A' }));
    assert_eq!(write_byte(b'A', 0x60), Some(PortWrite { port: COM1, value: b'A' }));
}

#[test]
fn write_str_translates_newlines() {
    assert_eq!(write_str("a\nb"), vec![b'a', b'\r', b'\n', b'b']);
    assert_eq!(write_str("\n\n"), vec![b'\r', b'\n', b'\r', b'\n']);
    assert_eq!(write_str(""), Vec::<u8>::new());
}

#[test]
fn write_str_plain_text_unchanged() {
    assert_eq!(write_str("# lsr probe"), b"# lsr probe".to_vec());
}

#[test]
fn write_str_in_pieces_matches_whole() {
    let mut pieces = write_str("# lsr ");
    pieces.extend(write_str("probe\n"));
    assert_eq!(pieces, write_str("# lsr probe\n"));
}

#[test]
fn write_str_has_no_bare_line_feed() {
    let out = write_str("x\ny\r\nz\n");
    for (j, b) in out.iter().enumerate() {
        if *b == b'\n' {
            assert!(j > 0 && out[j - 1] == b'\r');
        }
    }
}

#[derive(Default, Debug, PartialEq)]
struct Uart {
    ier: u8,
    lcr: u8,
    fcr: u8,
    mcr: u8,
    dll: u8,
    dlm: u8,
}

impl Uart {
    fn write(&mut self, w: PortWrite) {
        let dlab = self.lcr & 0x80 != 0;
        match w.port {
            p if p == COM1 && dlab => self.dll = w.value,
            p if p == IER && dlab => self.dlm = w.value,
            p if p == IER => self.ier = w.value,
            p if p == FCR => self.fcr = w.value,
            p if p == LCR => self.lcr = w.value,
            p if p == MCR => self.mcr = w.value,
            _ => {}
        }
    }
}

#[test]
fn init_configures_from_any_leftover_state() {
    for leftover_lcr in [0x00u8, 0x80, 0x83, 0x1b] {
        let mut u = Uart { ier: 0x0f, lcr: leftover_lcr, fcr: 0, mcr: 0x0b, dll: 0x0c, dlm: 0x01 };
        for w in init() {
            u.write(w);
        }
        assert_eq!(u, Uart { ier: 0, lcr: 0x03, fcr: 0xC7, mcr: 0x03, dll: 1, dlm: 0 });
    }
}

#[test]
fn polled_sends_transmit_each_byte_once_in_order() {
    // 64 dots through the polled path, the transmitter busy on every third reading.
    let bytes = vec![b'.'; 64];
    let mut sent = Vec::new();
    let mut reading: u32 = 0;
    for &b in &bytes {
        loop {
            let lsr = if reading % 3 == 2 { 0x00 } else { 0x60 };
            reading += 1;
            if let Some(w) = write_byte(b, lsr) {
                sent.push(w);
                break;
            }
        }
    }
    let expected: Vec<PortWrite> = bytes.iter().map(|&b| PortWrite { port: COM1, value: b }).collect();
    assert_eq!(sent, expected);
}
