//! The 16550 UART serial console: register layout, initialisation sequence,
//! byte encoding and the polled transmit protocol.

use vstd::prelude::*;
use vstd::string::StringSliceAdditionalSpecFns;

verus! {

/// Bit of the line status register that reports a received byte.
pub const LSR_INPUT_FULL: u8 = 0x01;

/// Bit of the line status register that reports an empty transmit holding register.
pub const LSR_OUTPUT_EMPTY: u8 = 0x20;

/// The line status flags the driver knows about.
pub const LSR_KNOWN_BITS: u8 = 0x21;

/// The line status register, restricted to the flags the driver knows.
#[derive(Clone, Copy, Debug)]
pub struct LineStatus {
    bits: u8,
}

impl View for LineStatus {
    type V = u8;

    closed spec fn view(&self) -> u8 {
        self.bits
    }
}

impl LineStatus {
    /// The flag set with only "input full".
    pub fn input_full() -> (s: LineStatus)
        ensures
            s@ == LSR_INPUT_FULL,
    {
        LineStatus { bits: LSR_INPUT_FULL }
    }

    /// The flag set with only "output empty".
    pub fn output_empty() -> (s: LineStatus)
        ensures
            s@ == LSR_OUTPUT_EMPTY,
    {
        LineStatus { bits: LSR_OUTPUT_EMPTY }
    }

    /// Keeps the known flags of a raw register value and drops the others.
    pub fn from_bits_truncate(raw: u8) -> (s: LineStatus)
        ensures
            s@ == raw & LSR_KNOWN_BITS,
    {
        LineStatus { bits: raw & LSR_KNOWN_BITS }
    }

    /// The raw value of the flag set.
    pub fn bits(&self) -> (b: u8)
        ensures
            b == self@,
    {
        self.bits
    }

    /// Whether every flag of `other` is set in `self`.
    pub fn contains(&self, other: LineStatus) -> (b: bool)
        ensures
            b == (self@ & other@ == other@),
    {
        self.bits & other.bits == other.bits
    }
}

/// Whether a raw line status value allows the next byte to be written: its
/// "output empty" bit (bit 5) is set.
pub open spec fn transmit_ready(raw: u8) -> bool {
    (raw / 32) % 2 == 1
}

/// Reading "output empty" through the truncated flag set is the same as
/// testing that bit of the raw register value.
pub proof fn lemma_output_empty_after_truncate(raw: u8)
    ensures
        ((raw & LSR_KNOWN_BITS) & LSR_OUTPUT_EMPTY == LSR_OUTPUT_EMPTY) == transmit_ready(raw),
{
    assert(((raw & 0x21u8) & 0x20u8 == 0x20u8) == ((raw / 32) % 2 == 1)) by (bit_vector);
}

/// The registers of the UART, each at a fixed offset from the base port.
#[derive(Clone, Copy, Debug, PartialEq, Eq, Structural)]
pub enum SerialRegister {
    Data,
    InterruptEnable,
    FifoControl,
    LineControl,
    ModemControl,
    LineStatus,
}

impl SerialRegister {
    pub open spec fn spec_offset(self) -> u16 {
        match self {
            SerialRegister::Data => 0,
            SerialRegister::InterruptEnable => 1,
            SerialRegister::FifoControl => 2,
            SerialRegister::LineControl => 3,
            SerialRegister::ModemControl => 4,
            SerialRegister::LineStatus => 5,
        }
    }

    /// The register's distance from the base port.
    pub fn offset(self) -> (o: u16)
        ensures
            o == self.spec_offset(),
    {
        match self {
            SerialRegister::Data => 0,
            SerialRegister::InterruptEnable => 1,
            SerialRegister::FifoControl => 2,
            SerialRegister::LineControl => 3,
            SerialRegister::ModemControl => 4,
            SerialRegister::LineStatus => 5,
        }
    }
}

/// One byte written to one I/O port.
#[derive(Clone, Copy, Debug, PartialEq, Eq, Structural)]
pub struct PortWrite {
    pub port: u16,
    pub value: u8,
}

/// A serial port, given by its base I/O port; its six registers occupy the
/// ports `base ..= base + 5`.
#[derive(Clone, Copy, Debug)]
pub struct Serial {
    base: u16,
}

/// The highest base port whose six registers all have a port number.
pub const MAX_SERIAL_BASE: u16 = 0xFFFA;

/// The base port of the first serial port, the kernel's console.
pub const COM1_BASE: u16 = 0x3F8;

impl Serial {
    #[verifier::type_invariant]
    spec fn inv(self) -> bool {
        self.base <= MAX_SERIAL_BASE
    }

    /// The base I/O port.
    pub closed spec fn spec_base(self) -> u16 {
        self.base
    }

    /// The I/O port of a register.
    pub open spec fn spec_port(self, reg: SerialRegister) -> int {
        self.spec_base() + reg.spec_offset()
    }

    /// A serial port at `base`; its registers are at `base + 0` to `base + 5`.
    pub fn new(base: u16) -> (s: Serial)
        requires
            base <= MAX_SERIAL_BASE,
        ensures
            s.spec_base() == base,
    {
        Serial { base }
    }

    /// The first serial port, the kernel's console.
    pub fn com1() -> (s: Serial)
        ensures
            s.spec_base() == COM1_BASE,
    {
        Serial::new(COM1_BASE)
    }

    /// The base I/O port.
    pub fn base(&self) -> (b: u16)
        ensures
            b == self.spec_base(),
            b <= MAX_SERIAL_BASE,
    {
        proof {
            use_type_invariant(self);
        }
        self.base
    }

    /// The I/O port of a register.
    pub fn port(&self, reg: SerialRegister) -> (p: u16)
        ensures
            p == self.spec_port(reg),
    {
        proof {
            use_type_invariant(self);
        }
        self.base + reg.offset()
    }

    /// The port writes that bring the UART up: interrupts off, divisor latch
    /// on, divisor 3 (38400 baud), interrupts off, latch off with 8-bit words,
    /// FIFO on, data terminal ready, interrupts on.
    pub open spec fn spec_init_writes(self) -> Seq<PortWrite> {
        let ie = self.spec_port(SerialRegister::InterruptEnable) as u16;
        let lc = self.spec_port(SerialRegister::LineControl) as u16;
        let data = self.spec_port(SerialRegister::Data) as u16;
        let fifo = self.spec_port(SerialRegister::FifoControl) as u16;
        let mc = self.spec_port(SerialRegister::ModemControl) as u16;
        seq![
            PortWrite { port: ie, value: 0x00 },
            PortWrite { port: lc, value: 0x80 },
            PortWrite { port: data, value: 0x03 },
            PortWrite { port: ie, value: 0x00 },
            PortWrite { port: lc, value: 0x03 },
            PortWrite { port: fifo, value: 0xc7 },
            PortWrite { port: mc, value: 0x0b },
            PortWrite { port: ie, value: 0x01 },
        ]
    }

    /// The sequence of port writes that initialises the UART, in order.
    pub fn init(&self) -> (w: Vec<PortWrite>)
        ensures
            w@ == self.spec_init_writes(),
            w@.len() == 8,
            forall|i: int|
                0 <= i < 8 ==> self.spec_base() <= (#[trigger] w@[i]).port <= self.spec_base() + 5,
            w@[0] == (PortWrite { port: (self.spec_base() + 1) as u16, value: 0x00 }),
            w@[1] == (PortWrite { port: (self.spec_base() + 3) as u16, value: 0x80 }),
            w@[2] == (PortWrite { port: self.spec_base(), value: 0x03 }),
            w@[3] == (PortWrite { port: (self.spec_base() + 1) as u16, value: 0x00 }),
            w@[4] == (PortWrite { port: (self.spec_base() + 3) as u16, value: 0x03 }),
            w@[5] == (PortWrite { port: (self.spec_base() + 2) as u16, value: 0xc7 }),
            w@[6] == (PortWrite { port: (self.spec_base() + 4) as u16, value: 0x0b }),
            w@[7] == (PortWrite { port: (self.spec_base() + 1) as u16, value: 0x01 }),
    {
        proof {
            use_type_invariant(self);
        }
        let ie = self.port(SerialRegister::InterruptEnable);
        let lc = self.port(SerialRegister::LineControl);
        let data = self.port(SerialRegister::Data);
        let fifo = self.port(SerialRegister::FifoControl);
        let mc = self.port(SerialRegister::ModemControl);
        let mut w: Vec<PortWrite> = Vec::new();
        // Disable interrupts
        w.push(PortWrite { port: ie, value: 0x00 });
        // Enable the divisor latch
        w.push(PortWrite { port: lc, value: 0x80 });
        // Divisor 3: 38400 baud
        w.push(PortWrite { port: data, value: 0x03 });
        w.push(PortWrite { port: ie, value: 0x00 });
        // Disable the latch, 8-bit words
        w.push(PortWrite { port: lc, value: 0x03 });
        // Enable the FIFO
        w.push(PortWrite { port: fifo, value: 0xc7 });
        // Data terminal ready
        w.push(PortWrite { port: mc, value: 0x0b });
        // Enable interrupts
        w.push(PortWrite { port: ie, value: 0x01 });
        assert(w@ =~= self.spec_init_writes());
        w
    }
}

/// The initialisation writes go to the registers of the port they are made
/// for: every write lands in `base ..= base + 5`, and two ports get the same
/// values at the same register offsets, their ports apart by the distance of
/// their bases.
pub proof fn lemma_init_writes_follow_base(a: Serial, b: Serial)
    requires
        a.spec_base() <= MAX_SERIAL_BASE,
        b.spec_base() <= MAX_SERIAL_BASE,
    ensures
        a.spec_init_writes().len() == 8,
        b.spec_init_writes().len() == 8,
        forall|i: int|
            0 <= i < 8 ==> a.spec_base() <= (#[trigger] a.spec_init_writes()[i]).port <= a.spec_base()
                + 5,
        forall|i: int|
            0 <= i < 8 ==> {
                &&& #[trigger] a.spec_init_writes()[i].value == b.spec_init_writes()[i].value
                &&& a.spec_init_writes()[i].port - a.spec_base() == b.spec_init_writes()[i].port
                    - b.spec_base()
            },
        a.spec_init_writes()[0].port == a.spec_base() + 1,
{
}

/// Backspace.
pub const BACKSPACE: u8 = 8;

/// Delete.
pub const DELETE: u8 = 0x7F;

/// What goes on the line for one byte: backspace and delete erase the
/// previous character (back, blank, back); every other byte goes as it is.
pub open spec fn wire_bytes(b: u8) -> Seq<u8> {
    if b == BACKSPACE || b == DELETE {
        seq![BACKSPACE, 0x20u8, BACKSPACE]
    } else {
        seq![b]
    }
}

/// What goes on the line for a byte string.
pub open spec fn wire_encoding(s: Seq<u8>) -> Seq<u8>
    decreases s.len(),
{
    if s.len() == 0 {
        Seq::empty()
    } else {
        wire_encoding(s.drop_last()) + wire_bytes(s.last())
    }
}

/// The bytes sent on the line for `data`, in order.
pub fn encode_byte(data: u8) -> (w: Vec<u8>)
    ensures
        w@ == wire_bytes(data),
{
    let mut w: Vec<u8> = Vec::new();
    if data == BACKSPACE || data == DELETE {
        w.push(BACKSPACE);
        w.push(0x20);
        w.push(BACKSPACE);
    } else {
        w.push(data);
    }
    assert(w@ =~= wire_bytes(data));
    w
}

/// The bytes sent on the line for a byte string, in order.
pub fn encode_bytes(s: &[u8]) -> (w: Vec<u8>)
    ensures
        w@ == wire_encoding(s@),
{
    let mut w: Vec<u8> = Vec::new();
    let mut i: usize = 0;
    while i < s.len()
        invariant
            i <= s.len(),
            w@ == wire_encoding(s@.take(i as int)),
        decreases s.len() - i,
    {
        let piece = encode_byte(s[i]);
        let mut k: usize = 0;
        let ghost before = w@;
        while k < piece.len()
            invariant
                k <= piece.len(),
                w@ == before + piece@.take(k as int),
            decreases piece.len() - k,
        {
            w.push(piece[k]);
            k = k + 1;
            assert(w@ =~= before + piece@.take(k as int));
        }
        assert(s@.take((i + 1) as int).drop_last() =~= s@.take(i as int));
        assert(piece@.take(k as int) =~= piece@);
        i = i + 1;
    }
    assert(s@.take(s.len() as int) =~= s@);
    w
}

/// Encoding is compositional: sending `a` and then `b` puts the same bytes on
/// the line as sending `a + b` at once.
pub proof fn lemma_wire_encoding_concat(a: Seq<u8>, b: Seq<u8>)
    ensures
        wire_encoding(a + b) == wire_encoding(a) + wire_encoding(b),
    decreases b.len(),
{
    if b.len() == 0 {
        assert(a + b =~= a);
        assert(wire_encoding(a) + wire_encoding(b) =~= wire_encoding(a));
    } else {
        let b0 = b.drop_last();
        lemma_wire_encoding_concat(a, b0);
        assert((a + b).drop_last() =~= a + b0);
        assert((a + b).last() == b.last());
        assert(wire_encoding(a + b) == wire_encoding(a + b0) + wire_bytes(b.last()));
        assert(wire_encoding(a) + wire_encoding(b) =~= wire_encoding(a) + wire_encoding(b0)
            + wire_bytes(b.last()));
    }
}

/// A byte string without backspace or delete goes on the line unchanged.
pub proof fn lemma_wire_encoding_plain(s: Seq<u8>)
    requires
        forall|i: int| 0 <= i < s.len() ==> s[i] != BACKSPACE && s[i] != DELETE,
    ensures
        wire_encoding(s) == s,
    decreases s.len(),
{
    if s.len() > 0 {
        lemma_wire_encoding_plain(s.drop_last());
        assert(s.drop_last().push(s.last()) =~= s);
    }
}

/// A delete byte never reaches the line.
pub proof fn lemma_wire_encoding_no_delete(s: Seq<u8>)
    ensures
        forall|i: int| 0 <= i < wire_encoding(s).len() ==> wire_encoding(s)[i] != DELETE,
    decreases s.len(),
{
    if s.len() > 0 {
        lemma_wire_encoding_no_delete(s.drop_last());
        let e = wire_encoding(s.drop_last());
        assert forall|i: int| 0 <= i < wire_encoding(s).len() implies wire_encoding(s)[i]
            != DELETE by {
            if i < e.len() {
                assert(wire_encoding(s)[i] == e[i]);
            } else {
                assert(wire_encoding(s)[i] == wire_bytes(s.last())[i - e.len()]);
            }
        }
    }
}

/// What the polled transmitter asks its driver to do next.
#[derive(Clone, Copy, Debug, PartialEq, Eq, Structural)]
pub enum SerialAction {
    /// Read this port (the line status register) and report the value.
    ReadPort(u16),
    /// Write a byte to a port (the data register).
    WritePort(PortWrite),
    /// Every byte has been handed to the UART.
    Done,
}

/// One step of the transmit protocol: from the number of bytes already
/// written and a line status value just read, the new count and the bytes
/// written in this step. A byte is written only when the status shows an
/// empty transmit register.
pub open spec fn transmit_step(pending: Seq<u8>, sent: nat, raw: u8) -> (nat, Seq<u8>) {
    if sent < pending.len() && transmit_ready(raw) {
        ((sent + 1) as nat, seq![pending[sent as int]])
    } else {
        (sent, Seq::empty())
    }
}

/// The transmit protocol fed with a run of line status values: the final
/// count of bytes written and the bytes written, in order.
pub open spec fn transmit_run(pending: Seq<u8>, sent: nat, statuses: Seq<u8>) -> (nat, Seq<u8>)
    decreases statuses.len(),
{
    if statuses.len() == 0 {
        (sent, Seq::empty())
    } else {
        let first = transmit_step(pending, sent, statuses[0]);
        let rest = transmit_run(pending, first.0, statuses.drop_first());
        (rest.0, first.1 + rest.1)
    }
}

/// How many of the status values allow a write.
pub open spec fn ready_count(statuses: Seq<u8>) -> nat
    decreases statuses.len(),
{
    if statuses.len() == 0 {
        0
    } else {
        (if transmit_ready(statuses[0]) {
            1nat
        } else {
            0nat
        }) + ready_count(statuses.drop_first())
    }
}

/// The transmit protocol writes the pending bytes in order, exactly one per
/// status value that shows an empty transmit register, and never more than
/// there are.
pub proof fn lemma_transmit_run(pending: Seq<u8>, sent: nat, statuses: Seq<u8>)
    requires
        sent <= pending.len(),
    ensures
        transmit_run(pending, sent, statuses).0 <= pending.len(),
        transmit_run(pending, sent, statuses).1 == pending.subrange(
            sent as int,
            transmit_run(pending, sent, statuses).0 as int,
        ),
        transmit_run(pending, sent, statuses).0 == if sent + ready_count(statuses)
            <= pending.len() {
            sent + ready_count(statuses)
        } else {
            pending.len()
        },
    decreases statuses.len(),
{
    if statuses.len() > 0 {
        let first = transmit_step(pending, sent, statuses[0]);
        lemma_transmit_run(pending, first.0, statuses.drop_first());
        let rest = transmit_run(pending, first.0, statuses.drop_first());
        if sent < pending.len() && transmit_ready(statuses[0]) {
            assert(seq![pending[sent as int]] + pending.subrange(sent + 1int, rest.0 as int)
                =~= pending.subrange(sent as int, rest.0 as int));
        } else {
            assert(Seq::<u8>::empty() + rest.1 =~= rest.1);
        }
    } else {
        assert(pending.subrange(sent as int, sent as int) =~= Seq::<u8>::empty());
    }
}

/// The polled transmitter of a serial port: the bytes to put on the line and
/// how many of them the UART has taken so far.
pub struct Transmitter {
    serial: Serial,
    bytes: Vec<u8>,
    sent: usize,
}

impl Transmitter {
    #[verifier::type_invariant]
    spec fn inv(self) -> bool {
        self.sent <= self.bytes.len()
    }

    /// The bytes this transmitter puts on the line.
    pub closed spec fn pending(self) -> Seq<u8> {
        self.bytes@
    }

    /// How many of them have been written.
    pub closed spec fn sent(self) -> nat {
        self.sent as nat
    }

    /// The port it writes to.
    pub closed spec fn serial(self) -> Serial {
        self.serial
    }

    /// The action that is due in a given state.
    pub open spec fn due_action(self) -> SerialAction {
        if self.sent() < self.pending().len() {
            SerialAction::ReadPort(self.serial().spec_port(SerialRegister::LineStatus) as u16)
        } else {
            SerialAction::Done
        }
    }

    /// A transmitter for `bytes` on `serial`, with nothing written yet.
    pub fn new(serial: Serial, bytes: Vec<u8>) -> (t: Transmitter)
        ensures
            t.pending() == bytes@,
            t.sent() == 0,
            t.serial() == serial,
    {
        Transmitter { serial, bytes, sent: 0 }
    }

    /// Whether every byte has been written.
    pub fn is_done(&self) -> (b: bool)
        ensures
            b == (self.sent() >= self.pending().len()),
    {
        self.sent >= self.bytes.len()
    }

    /// What to do now: poll the line status while bytes remain, else stop.
    pub fn next_action(&self) -> (a: SerialAction)
        ensures
            a == self.due_action(),
    {
        if self.sent < self.bytes.len() {
            SerialAction::ReadPort(self.serial.port(SerialRegister::LineStatus))
        } else {
            SerialAction::Done
        }
    }

    /// Takes a value just read from the line status register. When it shows
    /// an empty transmit register and bytes remain, the next byte is written
    /// to the data register; otherwise the transmitter keeps polling (or is
    /// done).
    pub fn on_line_status(&mut self, raw: u8) -> (a: SerialAction)
        ensures
            final(self).pending() == old(self).pending(),
            final(self).serial() == old(self).serial(),
            final(self).sent() == transmit_step(old(self).pending(), old(self).sent(), raw).0,
            old(self).sent() < old(self).pending().len() && transmit_ready(raw) ==> a
                == SerialAction::WritePort(
                PortWrite {
                    port: old(self).serial().spec_port(SerialRegister::Data) as u16,
                    value: old(self).pending()[old(self).sent() as int],
                },
            ),
            !(old(self).sent() < old(self).pending().len() && transmit_ready(raw)) ==> a
                == old(self).due_action(),
    {
        proof {
            use_type_invariant(&*self);
            lemma_output_empty_after_truncate(raw);
        }
        if self.sent >= self.bytes.len() {
            return SerialAction::Done;
        }
        let status = LineStatus::from_bits_truncate(raw);
        if status.contains(LineStatus::output_empty()) {
            let value = self.bytes[self.sent];
            let port = self.serial.port(SerialRegister::Data);
            self.sent = self.sent + 1;
            SerialAction::WritePort(PortWrite { port, value })
        } else {
            SerialAction::ReadPort(self.serial.port(SerialRegister::LineStatus))
        }
    }
}

impl Serial {
    /// Sends one byte: a transmitter for its line encoding.
    pub fn send(&self, data: u8) -> (t: Transmitter)
        ensures
            t.pending() == wire_bytes(data),
            t.sent() == 0,
            t.serial() == *self,
    {
        Transmitter::new(*self, encode_byte(data))
    }

    /// Sends a string: a transmitter for the line encoding of its bytes.
    pub fn write_str(&self, s: &str) -> (t: Transmitter)
        ensures
            t.pending() == wire_encoding(s.spec_bytes()),
            t.sent() == 0,
            t.serial() == *self,
    {
        Transmitter::new(*self, encode_bytes(s.as_bytes()))
    }

    /// Sends a byte string: a transmitter for its line encoding.
    pub fn write_bytes(&self, s: &[u8]) -> (t: Transmitter)
        ensures
            t.pending() == wire_encoding(s@),
            t.sent() == 0,
            t.serial() == *self,
    {
        Transmitter::new(*self, encode_bytes(s))
    }
}


/// One access to an I/O port, with the byte read or written.
#[derive(Clone, Copy, Debug, PartialEq, Eq, Structural)]
pub enum PortAccess {
    Read(u16, u8),
    Write(u16, u8),
}

/// The port accesses of sending `pending` from byte `sent` on, when the line
/// status register reads `statuses` in turn: each status read is followed by
/// a write of the next byte to the data register when it shows an empty
/// transmit register; sending stops when every byte is out or the status
/// values run out.
pub open spec fn transmit_trace(serial: Serial, pending: Seq<u8>, sent: nat, statuses: Seq<u8>) -> Seq<
    PortAccess,
>
    decreases statuses.len(),
{
    if sent >= pending.len() || statuses.len() == 0 {
        Seq::empty()
    } else {
        let raw = statuses[0];
        let status_port = serial.spec_port(SerialRegister::LineStatus) as u16;
        let data_port = serial.spec_port(SerialRegister::Data) as u16;
        let read = seq![PortAccess::Read(status_port, raw)];
        let write = if transmit_ready(raw) {
            seq![PortAccess::Write(data_port, pending[sent as int])]
        } else {
            Seq::empty()
        };
        read + write + transmit_trace(
            serial,
            pending,
            transmit_step(pending, sent, raw).0,
            statuses.drop_first(),
        )
    }
}

/// A read of `port` whose value shows an empty transmit register.
pub open spec fn is_ready_read(a: PortAccess, port: u16) -> bool {
    match a {
        PortAccess::Read(p, v) => p == port && transmit_ready(v),
        PortAccess::Write(_, _) => false,
    }
}

/// A read whose value shows a busy transmit register.
pub open spec fn is_busy_read(a: PortAccess) -> bool {
    match a {
        PortAccess::Read(_, v) => !transmit_ready(v),
        PortAccess::Write(_, _) => false,
    }
}

/// The bytes written in a port trace, in order.
pub open spec fn written_bytes(trace: Seq<PortAccess>) -> Seq<u8>
    decreases trace.len(),
{
    if trace.len() == 0 {
        Seq::empty()
    } else {
        let rest = written_bytes(trace.drop_first());
        match trace[0] {
            PortAccess::Write(_, v) => seq![v] + rest,
            PortAccess::Read(_, _) => rest,
        }
    }
}

proof fn lemma_written_bytes_concat(a: Seq<PortAccess>, b: Seq<PortAccess>)
    ensures
        written_bytes(a + b) == written_bytes(a) + written_bytes(b),
    decreases a.len(),
{
    if a.len() == 0 {
        assert(a + b =~= b);
        assert(written_bytes(a) + written_bytes(b) =~= written_bytes(b));
    } else {
        assert((a + b).drop_first() =~= a.drop_first() + b);
        lemma_written_bytes_concat(a.drop_first(), b);
        assert((a + b)[0] == a[0]);
        match a[0] {
            PortAccess::Write(_, v) => {
                assert(written_bytes(a + b) =~= written_bytes(a) + written_bytes(b));
            },
            PortAccess::Read(_, _) => {},
        }
    }
}

/// The first accesses of a trace that still has bytes and status values:
/// the status read, then the write if the status allows it.
pub open spec fn trace_head(serial: Serial, pending: Seq<u8>, sent: nat, raw: u8) -> Seq<PortAccess> {
    let status_port = serial.spec_port(SerialRegister::LineStatus) as u16;
    let data_port = serial.spec_port(SerialRegister::Data) as u16;
    if transmit_ready(raw) {
        seq![PortAccess::Read(status_port, raw), PortAccess::Write(data_port, pending[sent as int])]
    } else {
        seq![PortAccess::Read(status_port, raw)]
    }
}

proof fn lemma_trace_unfold(serial: Serial, pending: Seq<u8>, sent: nat, statuses: Seq<u8>)
    requires
        sent < pending.len(),
        statuses.len() > 0,
    ensures
        transmit_trace(serial, pending, sent, statuses) == trace_head(serial, pending, sent, statuses[0])
            + transmit_trace(
            serial,
            pending,
            transmit_step(pending, sent, statuses[0]).0,
            statuses.drop_first(),
        ),
{
    let raw = statuses[0];
    let status_port = serial.spec_port(SerialRegister::LineStatus) as u16;
    let data_port = serial.spec_port(SerialRegister::Data) as u16;
    let write = if transmit_ready(raw) {
        seq![PortAccess::Write(data_port, pending[sent as int])]
    } else {
        Seq::empty()
    };
    assert(seq![PortAccess::Read(status_port, raw)] + write =~= trace_head(serial, pending, sent, raw));
}

/// Which port each access of a trace goes to, and what comes before and
/// after a write.
pub open spec fn trace_ports_ok(t: Seq<PortAccess>, status_port: u16, data_port: u16) -> bool {
    &&& forall|i: int|
        0 <= i < t.len() ==> match #[trigger] t[i] {
            PortAccess::Read(p, _) => p == status_port,
            PortAccess::Write(p, _) => {
                &&& p == data_port
                &&& i >= 1
                &&& is_ready_read(t[i - 1], status_port)
            },
        }
    &&& forall|i: int| 0 <= i < t.len() - 1 && is_busy_read(#[trigger] t[i]) ==> t[i + 1] is Read
}

proof fn lemma_trace_ports(serial: Serial, pending: Seq<u8>, sent: nat, statuses: Seq<u8>)
    requires
        sent <= pending.len(),
    ensures
        trace_ports_ok(
            transmit_trace(serial, pending, sent, statuses),
            serial.spec_port(SerialRegister::LineStatus) as u16,
            serial.spec_port(SerialRegister::Data) as u16,
        ),
    decreases statuses.len(),
{
    let t = transmit_trace(serial, pending, sent, statuses);
    let status_port = serial.spec_port(SerialRegister::LineStatus) as u16;
    let data_port = serial.spec_port(SerialRegister::Data) as u16;
    if sent < pending.len() && statuses.len() > 0 {
        let raw = statuses[0];
        let next = transmit_step(pending, sent, raw).0;
        lemma_trace_ports(serial, pending, next, statuses.drop_first());
        lemma_trace_unfold(serial, pending, sent, statuses);
        let rest = transmit_trace(serial, pending, next, statuses.drop_first());
        let head = trace_head(serial, pending, sent, raw);
        let h = head.len() as int;
        assert forall|i: int| 0 <= i < t.len() implies match #[trigger] t[i] {
            PortAccess::Read(p, _) => p == status_port,
            PortAccess::Write(p, _) => {
                &&& p == data_port
                &&& i >= 1
                &&& is_ready_read(t[i - 1], status_port)
            },
        } by {
            if i >= h {
                assert(t[i] == rest[i - h]);
                if i - h >= 1 {
                    assert(t[i - 1] == rest[i - h - 1]);
                } else {
                    assert(rest[0] is Read);
                }
            }
        }
        assert forall|i: int| 0 <= i < t.len() - 1 && is_busy_read(#[trigger] t[i]) implies t[i
            + 1] is Read by {
            if i >= h {
                assert(t[i] == rest[i - h]);
                assert(t[i + 1] == rest[i + 1 - h]);
            } else if !transmit_ready(raw) {
                assert(t[1] == rest[0]);
            }
        }
    }
}

proof fn lemma_trace_bytes(serial: Serial, pending: Seq<u8>, sent: nat, statuses: Seq<u8>)
    requires
        sent <= pending.len(),
    ensures
        written_bytes(transmit_trace(serial, pending, sent, statuses)) == pending.subrange(
            sent as int,
            transmit_run(pending, sent, statuses).0 as int,
        ),
    decreases statuses.len(),
{
    lemma_transmit_run(pending, sent, statuses);
    let t = transmit_trace(serial, pending, sent, statuses);
    if sent >= pending.len() || statuses.len() == 0 {
        assert(written_bytes(t) =~= pending.subrange(sent as int, sent as int));
    } else {
        let raw = statuses[0];
        let next = transmit_step(pending, sent, raw).0;
        lemma_trace_bytes(serial, pending, next, statuses.drop_first());
        lemma_trace_unfold(serial, pending, sent, statuses);
        let rest = transmit_trace(serial, pending, next, statuses.drop_first());
        let head = trace_head(serial, pending, sent, raw);
        lemma_written_bytes_concat(head, rest);
        let e = Seq::<PortAccess>::empty();
        assert(written_bytes(e) == Seq::<u8>::empty());
        if transmit_ready(raw) {
            let tail = head.drop_first();
            assert(tail.drop_first() =~= e);
            assert(tail[0] is Write);
            assert(written_bytes(tail) == seq![pending[sent as int]] + written_bytes(e));
            assert(written_bytes(tail) =~= seq![pending[sent as int]]);
            assert(head[0] is Read);
            assert(written_bytes(head) == written_bytes(tail));
        } else {
            assert(head.drop_first() =~= e);
            assert(head[0] is Read);
            assert(written_bytes(head) == written_bytes(e));
        }
        assert(written_bytes(t) =~= pending.subrange(
            sent as int,
            transmit_run(pending, sent, statuses).0 as int,
        ));
    }
}

/// The transmit law over a whole port trace: the transmitter only reads the
/// line status register and writes the data register; every write comes
/// directly after a status read whose bit 5 ("output empty") is set; a
/// status read with bit 5 clear is followed by another status read, never by
/// a write; and the bytes written are the pending bytes, in order, exactly as
/// many as the protocol run sends.
pub proof fn lemma_transmit_trace(serial: Serial, pending: Seq<u8>, sent: nat, statuses: Seq<u8>)
    requires
        sent <= pending.len(),
    ensures
        trace_ports_ok(
            transmit_trace(serial, pending, sent, statuses),
            serial.spec_port(SerialRegister::LineStatus) as u16,
            serial.spec_port(SerialRegister::Data) as u16,
        ),
        written_bytes(transmit_trace(serial, pending, sent, statuses)) == pending.subrange(
            sent as int,
            transmit_run(pending, sent, statuses).0 as int,
        ),
{
    lemma_trace_ports(serial, pending, sent, statuses);
    lemma_trace_bytes(serial, pending, sent, statuses);
}

impl Transmitter {
    /// Runs the transmitter against the line status values `statuses`, read
    /// in turn, as its driver does: it polls while bytes remain and writes
    /// whenever a status allows it. Returns the port accesses made, in order.
    pub fn transmit_with(&mut self, statuses: &[u8]) -> (trace: Vec<PortAccess>)
        ensures
            trace@ == transmit_trace(old(self).serial(), old(self).pending(), old(self).sent(), statuses@),
            final(self).pending() == old(self).pending(),
            final(self).serial() == old(self).serial(),
            final(self).sent() == transmit_run(old(self).pending(), old(self).sent(), statuses@).0,
    {
        proof {
            use_type_invariant(&*self);
        }
        let ghost serial = self.serial();
        let ghost pending = self.pending();
        let ghost sent0 = self.sent();
        let mut trace: Vec<PortAccess> = Vec::new();
        let mut i: usize = 0;
        assert(statuses@.skip(0) =~= statuses@);
        assert(trace@ + transmit_trace(serial, pending, sent0, statuses@) =~= transmit_trace(
            serial,
            pending,
            sent0,
            statuses@,
        ));
        while i < statuses.len() && !self.is_done()
            invariant
                i <= statuses@.len(),
                self.serial() == serial,
                self.pending() == pending,
                self.sent() <= pending.len(),
                sent0 <= pending.len(),
                trace@ + transmit_trace(serial, pending, self.sent(), statuses@.skip(i as int))
                    == transmit_trace(serial, pending, sent0, statuses@),
                transmit_run(pending, self.sent(), statuses@.skip(i as int)).0 == transmit_run(
                    pending,
                    sent0,
                    statuses@,
                ).0,
            decreases statuses.len() - i,
        {
            proof {
                use_type_invariant(&*self);
            }
            let ghost before = self.sent();
            let ghost rest = statuses@.skip(i as int);
            assert(rest.drop_first() =~= statuses@.skip(i + 1));
            assert(rest[0] == statuses@[i as int]);
            let raw = statuses[i];
            let port = self.serial.port(SerialRegister::LineStatus);
            let ghost old_trace = trace@;
            trace.push(PortAccess::Read(port, raw));
            let action = self.on_line_status(raw);
            proof {
                lemma_output_empty_after_truncate(raw);
            }
            match action {
                SerialAction::WritePort(w) => {
                    trace.push(PortAccess::Write(w.port, w.value));
                },
                _ => {},
            }
            proof {
                use_type_invariant(&*self);
                let status_port = serial.spec_port(SerialRegister::LineStatus) as u16;
                let data_port = serial.spec_port(SerialRegister::Data) as u16;
                let write = if transmit_ready(raw) {
                    seq![PortAccess::Write(data_port, pending[before as int])]
                } else {
                    Seq::empty()
                };
                assert(trace@ =~= old_trace + seq![PortAccess::Read(status_port, raw)] + write);
                assert(transmit_trace(serial, pending, before, rest) == seq![
                    PortAccess::Read(status_port, raw),
                ] + write + transmit_trace(serial, pending, self.sent(), statuses@.skip(i + 1)));
                assert(trace@ + transmit_trace(serial, pending, self.sent(), statuses@.skip(i + 1))
                    =~= old_trace + transmit_trace(serial, pending, before, rest));
            }
            i = i + 1;
        }
        proof {
            let rest = statuses@.skip(i as int);
            assert(transmit_trace(serial, pending, self.sent(), rest) =~= Seq::<PortAccess>::empty());
            assert(trace@ + Seq::<PortAccess>::empty() =~= trace@);
            lemma_transmit_run(pending, self.sent(), rest);
        }
        trace
    }
}

} // verus!
