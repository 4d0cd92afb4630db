//! The kernel's logger: every record goes to the serial console as one line,
//! "LEVEL: message".

use vstd::prelude::*;
use vstd::string::StringSliceAdditionalSpecFns;

verus! {

/// The level of a log record, most severe first.
#[derive(Clone, Copy, Debug, PartialEq, Eq, Structural)]
pub enum LogLevel {
    Error,
    Warn,
    Info,
    Debug,
    Trace,
}

/// The name of a level, in ASCII upper case.
pub open spec fn level_name(level: LogLevel) -> Seq<u8> {
    match level {
        LogLevel::Error => seq![0x45u8, 0x52, 0x52, 0x4f, 0x52],
        LogLevel::Warn => seq![0x57u8, 0x41, 0x52, 0x4e],
        LogLevel::Info => seq![0x49u8, 0x4e, 0x46, 0x4f],
        LogLevel::Debug => seq![0x44u8, 0x45, 0x42, 0x55, 0x47],
        LogLevel::Trace => seq![0x54u8, 0x52, 0x41, 0x43, 0x45],
    }
}

/// `log::Level::as_str` of the log crate, as bytes: "ERROR", "WARN", "INFO",
/// "DEBUG" or "TRACE".
#[verifier::external_body]
fn level_as_str(level: LogLevel) -> (name: Vec<u8>)
    ensures
        name@ == level_name(level),
{
    let level = match level {
        LogLevel::Error => log::Level::Error,
        LogLevel::Warn => log::Level::Warn,
        LogLevel::Info => log::Level::Info,
        LogLevel::Debug => log::Level::Debug,
        LogLevel::Trace => log::Level::Trace,
    };
    level.as_str().as_bytes().to_vec()
}

/// The line printed for a record: the level's name, ": ", the message and a
/// line feed.
pub open spec fn log_line(level: LogLevel, message: Seq<u8>) -> Seq<u8> {
    level_name(level) + seq![0x3au8, 0x20u8] + message + seq![0x0au8]
}

/// A log line holds the whole message: the level's name, a colon and a
/// space, every byte of the message in order, and a line feed, for messages
/// of any length.
pub proof fn lemma_log_line_parts(level: LogLevel, message: Seq<u8>)
    ensures
        ({
            let line = log_line(level, message);
            let n = level_name(level).len() as int;
            &&& line.len() == n + 2 + message.len() + 1
            &&& line.subrange(0, n) == level_name(level)
            &&& line[n] == 0x3a
            &&& line[n + 1] == 0x20
            &&& line.subrange(n + 2, line.len() - 1) == message
            &&& line.last() == 0x0a
        }),
{
    let line = log_line(level, message);
    let n = level_name(level).len() as int;
    assert(line.subrange(0, n) =~= level_name(level));
    assert(line.subrange(n + 2, line.len() - 1) =~= message);
}

/// The most detailed level that is logged.
pub open spec fn max_level_spec() -> LogLevel {
    LogLevel::Info
}

/// The logger of the kernel, which writes to the first serial port.
pub struct Logger {}

impl Logger {
    /// Every record that reaches the logger is printed.
    pub fn enabled(&self, level: LogLevel) -> (b: bool)
        ensures
            b,
    {
        true
    }

    /// The line printed for a record of `level` whose formatted text is
    /// `message`.
    pub fn log(&self, level: LogLevel, message: &str) -> (line: Vec<u8>)
        ensures
            line@ == log_line(level, message.spec_bytes()),
            line@.len() == level_name(level).len() + 2 + message.spec_bytes().len() + 1,
            line@.subrange(0, level_name(level).len() as int) == level_name(level),
            line@[level_name(level).len() as int] == 0x3a,
            line@[level_name(level).len() + 1int] == 0x20,
            line@.subrange(level_name(level).len() + 2int, line@.len() - 1)
                == message.spec_bytes(),
            line@.last() == 0x0a,
    {
        proof {
            lemma_log_line_parts(level, message.spec_bytes());
        }
        let mut line = level_as_str(level);
        line.push(0x3a);
        line.push(0x20);
        let bytes = message.as_bytes();
        let ghost head = line@;
        let mut i: usize = 0;
        while i < bytes.len()
            invariant
                i <= bytes@.len(),
                line@ == head + bytes@.take(i as int),
            decreases bytes.len() - i,
        {
            line.push(bytes[i]);
            i = i + 1;
            assert(line@ =~= head + bytes@.take(i as int));
        }
        line.push(0x0a);
        assert(bytes@.take(bytes@.len() as int) =~= bytes@);
        assert(line@ =~= log_line(level, message.spec_bytes()));
        line
    }

    /// Nothing is buffered, so there is nothing to flush.
    pub fn flush(&self) {
    }

    /// The level the logger is installed with: records up to `Info` pass.
    pub fn max_level() -> (level: LogLevel)
        ensures
            level == max_level_spec(),
    {
        LogLevel::Info
    }
}

} // verus!
