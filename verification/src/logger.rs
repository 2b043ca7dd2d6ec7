//! The logger: the sink that receives severity-tagged records, and the slot
//! in which it is installed once.

use crate::channel::{emitted, Channel, ChannelState};
use crate::color::{severity_color, severity_to_color, Severity};
use crate::render::{append_bytes, lemma_rendered_is_text, render_bytes, rendered};
use vstd::prelude::*;
use vstd::string::StringSliceAdditionalSpecFns;
use vstd::utf8::valid_utf8;

verus! {

/// The line terminator that ends every log record.
pub const LINE_END: u8 = 10;

/// The bytes of one log record: the message and a line terminator, rendered
/// in the colour of the severity.
pub open spec fn log_line(message: Seq<u8>, severity: Severity) -> Seq<u8> {
    rendered(message.push(LINE_END), severity_color(severity))
}

/// The state of a channel after a flush: the channel is unbuffered, so it is
/// the state before.
pub open spec fn flushed(before: ChannelState) -> ChannelState {
    before
}

/// The sink for log records. It filters nothing.
#[derive(Clone, Copy, Debug)]
pub struct SimpleLogger;

impl SimpleLogger {
    /// Whether records of `severity` are logged: all of them are.
    pub fn enabled(&self, severity: Severity) -> (yes: bool)
        ensures
            yes,
    {
        true
    }

    /// Emits one record to the channel: the message and a line terminator,
    /// in the colour of `severity`.
    pub fn log(&self, channel: &mut Channel, severity: Severity, message: &str)
        ensures
            final(channel)@ == emitted(old(channel)@, log_line(message.spec_bytes(), severity)),
    {
        if self.enabled(severity) {
            let mut line: Vec<u8> = Vec::new();
            append_bytes(&mut line, message.as_bytes());
            line.push(LINE_END);
            assert(line@ == message.spec_bytes().push(LINE_END));
            let out = render_bytes(line.as_slice(), severity_to_color(severity));
            channel.emit(out.as_slice());
        }
    }

    /// Does nothing: the channel is unbuffered.
    pub fn flush(&self, channel: &mut Channel)
        ensures
            final(channel)@ == flushed(old(channel)@),
    {
    }
}

/// Flushing any number of times leaves a channel as it was.
pub proof fn lemma_flush_idempotent(before: ChannelState)
    ensures
        flushed(before) == before,
        flushed(flushed(before)) == flushed(before),
{
}

/// A log record of a text message is text again, and ends the message with
/// the line terminator before the colour is reset.
pub proof fn lemma_log_line_is_text(message: Seq<u8>, severity: Severity)
    requires
        valid_utf8(message),
    ensures
        valid_utf8(log_line(message, severity)),
{
    let line = message.push(LINE_END);
    assert(line == message + seq![LINE_END]);
    crate::render::lemma_ascii_is_text(seq![LINE_END]);
    vstd::utf8::valid_utf8_concat(message, seq![LINE_END]);
    lemma_rendered_is_text(line, severity_color(severity));
}

/// Why the logger could not be installed.
#[derive(Clone, Copy, Debug, PartialEq, Eq, Structural)]
pub enum InitError {
    /// A logger is installed already.
    AlreadyInitialized,
}

/// What can be seen of the slot: whether a logger is installed, and the
/// least severe level that is let through.
pub struct SlotState {
    pub installed: bool,
    pub max_level: Severity,
}

/// The process-wide slot for the logger. It is filled once.
pub struct LoggerSlot {
    installed: bool,
    max_level: Severity,
}

impl View for LoggerSlot {
    type V = SlotState;

    closed spec fn view(&self) -> SlotState {
        SlotState { installed: self.installed, max_level: self.max_level }
    }
}

/// The slot after an installation was asked for, and what the caller is
/// told: an empty slot is filled and lets every severity through; a filled
/// slot stays as it is and the request is refused.
pub open spec fn installed(before: SlotState) -> (SlotState, Result<(), InitError>) {
    if before.installed {
        (before, Err(InitError::AlreadyInitialized))
    } else {
        (SlotState { installed: true, max_level: Severity::Trace }, Ok(()))
    }
}

impl LoggerSlot {
    /// An empty slot.
    pub fn new() -> (slot: LoggerSlot)
        ensures
            !slot@.installed,
            slot@.max_level == Severity::Trace,
    {
        LoggerSlot { installed: false, max_level: Severity::Trace }
    }

    /// Whether a logger is installed.
    pub fn is_installed(&self) -> (yes: bool)
        ensures
            yes == self@.installed,
    {
        self.installed
    }

    /// The least severe level that is let through.
    pub fn max_level(&self) -> (level: Severity)
        ensures
            level == self@.max_level,
    {
        self.max_level
    }
}

/// Installs the logger in `slot` and lets every severity through. A second
/// installation is refused and changes nothing.
pub fn init(slot: &mut LoggerSlot) -> (r: Result<(), InitError>)
    ensures
        (final(slot)@, r) == installed(old(slot)@),
{
    if slot.installed {
        Err(InitError::AlreadyInitialized)
    } else {
        slot.installed = true;
        slot.max_level = Severity::Trace;
        Ok(())
    }
}

/// Whatever the slot held, after one installation it is filled, and every
/// further installation is refused and leaves it unchanged.
pub proof fn lemma_install_once(before: SlotState)
    ensures
        installed(before).0.installed,
        installed(installed(before).0) == (
            installed(before).0,
            Err::<(), InitError>(InitError::AlreadyInitialized),
        ),
{
}

} // verus!
