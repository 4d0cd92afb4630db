use elohim::serial::{
    encode_bytes, encode_byte, LineStatus, PortAccess, PortWrite, Serial, SerialAction,
    SerialRegister,
};

#[test]
fn com1_ports() {
    let s = Serial::com1();
    assert_eq!(s.base(), 0x3F8);
    assert_eq!(s.port(SerialRegister::Data), 0x3F8);
    assert_eq!(s.port(SerialRegister::InterruptEnable), 0x3F9);
    assert_eq!(s.port(SerialRegister::FifoControl), 0x3FA);
    assert_eq!(s.port(SerialRegister::LineControl), 0x3FB);
    assert_eq!(s.port(SerialRegister::ModemControl), 0x3FC);
    assert_eq!(s.port(SerialRegister::LineStatus), 0x3FD);
}

#[test]
fn highest_base_port() {
    let s = Serial::new(0xFFFA);
    assert_eq!(s.port(SerialRegister::LineStatus), 0xFFFF);
}

#[test]
fn init_sequence_of_com1() {
    let s = Serial::com1();
    let w = s.init();
    let expected = vec![
        PortWrite { port: 0x3F9, value: 0x00 },
        PortWrite { port: 0x3FB, value: 0x80 },
        PortWrite { port: 0x3F8, value: 0x03 },
        PortWrite { port: 0x3F9, value: 0x00 },
        PortWrite { port: 0x3FB, value: 0x03 },
        PortWrite { port: 0x3FA, value: 0xc7 },
        PortWrite { port: 0x3FC, value: 0x0b },
        PortWrite { port: 0x3F9, value: 0x01 },
    ];
    assert_eq!(w, expected);
}

#[test]
fn line_status_truncates_unknown_bits() {
    assert_eq!(LineStatus::from_bits_truncate(0xFF).bits(), 0x21);
    assert_eq!(LineStatus::from_bits_truncate(0x60).bits(), 0x20);
    assert_eq!(LineStatus::from_bits_truncate(0x00).bits(), 0x00);
    assert!(LineStatus::from_bits_truncate(0x60).contains(LineStatus::output_empty()));
    assert!(!LineStatus::from_bits_truncate(0x01).contains(LineStatus::output_empty()));
    assert!(LineStatus::from_bits_truncate(0x01).contains(LineStatus::input_full()));
    assert_eq!(LineStatus::input_full().bits(), 1);
    assert_eq!(LineStatus::output_empty().bits(), 0x20);
}

#[test]
fn backspace_and_delete_erase() {
    assert_eq!(encode_byte(8), vec![8, b' ', 8]);
    assert_eq!(encode_byte(0x7F), vec![8, b' ', 8]);
    assert_eq!(encode_byte(b'a'), vec![b'a']);
    assert_eq!(encode_bytes(b"ab\x7fc"), vec![b'a', b'b', 8, b' ', 8, b'c']);
    assert_eq!(encode_bytes(b""), Vec::<u8>::new());
}

#[test]
fn encoding_of_concatenation() {
    let a = b"x\x08y";
    let b = b"\x7fz";
    let mut both = encode_bytes(a);
    both.extend(encode_bytes(b));
    assert_eq!(encode_bytes(b"x\x08y\x7fz"), both);
}

#[test]
fn plain_text_unchanged() {
    assert_eq!(encode_bytes(b"Hello, world\n"), b"Hello, world\n".to_vec());
}

fn drive(serial: &Serial, text: &str, statuses: &[u8]) -> (Vec<PortWrite>, usize, bool) {
    let mut tx = serial.write_str(text);
    let mut writes = Vec::new();
    let mut polls = 0;
    let mut action = tx.next_action();
    let mut k = 0;
    loop {
        match action {
            SerialAction::ReadPort(p) => {
                assert_eq!(p, serial.port(SerialRegister::LineStatus));
                if k == statuses.len() {
                    return (writes, polls, false);
                }
                polls += 1;
                action = tx.on_line_status(statuses[k]);
                k += 1;
            }
            SerialAction::WritePort(w) => {
                writes.push(w);
                action = tx.next_action();
            }
            SerialAction::Done => return (writes, polls, true),
        }
    }
}

#[test]
fn transmitter_waits_for_empty_register() {
    let s = Serial::com1();
    // busy, busy, ready, busy, ready
    let (writes, polls, done) = drive(&s, "hi", &[0x00, 0x01, 0x20, 0x00, 0x61]);
    assert!(done);
    assert_eq!(polls, 5);
    assert_eq!(
        writes,
        vec![PortWrite { port: 0x3F8, value: b'h' }, PortWrite { port: 0x3F8, value: b'i' }]
    );
}

#[test]
fn transmitter_sends_erase_sequence() {
    let s = Serial::com1();
    let (writes, _, done) = drive(&s, "\u{7f}", &[0x20, 0x20, 0x20]);
    assert!(done);
    let bytes: Vec<u8> = writes.iter().map(|w| w.value).collect();
    assert_eq!(bytes, vec![8, b' ', 8]);
}

#[test]
fn transmitter_stops_when_line_stays_busy() {
    let s = Serial::com1();
    let (writes, polls, done) = drive(&s, "abc", &[0x20, 0x00, 0x00]);
    assert!(!done);
    assert_eq!(polls, 3);
    assert_eq!(writes, vec![PortWrite { port: 0x3F8, value: b'a' }]);
}

#[test]
fn transmitter_for_one_byte() {
    let s = Serial::new(0x2F8);
    let mut tx = s.send(b'Z');
    assert!(!tx.is_done());
    assert_eq!(tx.next_action(), SerialAction::ReadPort(0x2FD));
    assert_eq!(tx.on_line_status(0x00), SerialAction::ReadPort(0x2FD));
    assert_eq!(
        tx.on_line_status(0x20),
        SerialAction::WritePort(PortWrite { port: 0x2F8, value: b'Z' })
    );
    assert!(tx.is_done());
    assert_eq!(tx.next_action(), SerialAction::Done);
    assert_eq!(tx.on_line_status(0x20), SerialAction::Done);
}

#[test]
fn empty_string_is_done_at_once() {
    let s = Serial::com1();
    let tx = s.write_bytes(b"");
    assert!(tx.is_done());
    assert_eq!(tx.next_action(), SerialAction::Done);
}

#[test]
fn delete_never_reaches_the_line() {
    let input: Vec<u8> = (0u8..=255).collect();
    let out = encode_bytes(&input);
    assert!(out.iter().all(|b| *b != 0x7F));
    assert_eq!(out.len(), 256 + 2 * 2);
}

#[test]
fn transmit_trace_polls_before_every_write() {
    let s = Serial::com1();
    let mut tx = s.write_str("ok");
    let trace = tx.transmit_with(&[0x00, 0x20, 0x01, 0x21, 0x20]);
    assert_eq!(
        trace,
        vec![
            PortAccess::Read(0x3FD, 0x00),
            PortAccess::Read(0x3FD, 0x20),
            PortAccess::Write(0x3F8, b'o'),
            PortAccess::Read(0x3FD, 0x01),
            PortAccess::Read(0x3FD, 0x21),
            PortAccess::Write(0x3F8, b'k'),
        ]
    );
    assert!(tx.is_done());
    for (i, a) in trace.iter().enumerate() {
        if let PortAccess::Write(..) = a {
            match trace[i - 1] {
                PortAccess::Read(p, v) => {
                    assert_eq!(p, 0x3FD);
                    assert_eq!(v & 0x20, 0x20);
                }
                _ => panic!("write not preceded by a status read"),
            }
        }
    }
}

#[test]
fn transmit_trace_stops_when_statuses_run_out() {
    let s = Serial::com1();
    let mut tx = s.write_bytes(b"\x08");
    let trace = tx.transmit_with(&[0x20, 0x00]);
    assert_eq!(
        trace,
        vec![PortAccess::Read(0x3FD, 0x20), PortAccess::Write(0x3F8, 8), PortAccess::Read(0x3FD, 0x00)]
    );
    assert!(!tx.is_done());
    let more = tx.transmit_with(&[0x20, 0x20, 0x20]);
    let bytes: Vec<u8> = more
        .iter()
        .filter_map(|a| if let PortAccess::Write(_, v) = a { Some(*v) } else { None })
        .collect();
    assert_eq!(bytes, vec![b' ', 8]);
    assert_eq!(more.len(), 4);
}
