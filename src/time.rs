//! The host's clock and console, as the syscall layer's host sees them.
use vstd::prelude::*;

verus! {

/// Writes text to the user-visible console.
pub trait ConsoleHandler {
    /// Writes `text`; `error` marks it as an error message.
    fn print(&mut self, text: &str, error: bool);
}

/// Reads the wall clock.
pub trait TimeHandler {
    /// Milliseconds since the Unix epoch, if the clock can give them.
    fn time(&self) -> Option<u64>;
}

/// Relies on `SystemTime::now`, `duration_since(UNIX_EPOCH)` and
/// `Duration::as_millis`: the wall clock in milliseconds, or `None` when it
/// reads before the epoch.
#[verifier::external_body]
fn system_millis() -> (r: Option<u128>) {
    match std::time::SystemTime::now().duration_since(std::time::UNIX_EPOCH) {
        Ok(elapsed) => Some(elapsed.as_millis()),
        Err(_) => None,
    }
}

/// The clock syscall's 64-bit value of a reading in milliseconds: the
/// reading modulo 2^64, or nothing when the clock gave no reading.
pub fn clock_word(reading: Option<u128>) -> (r: Option<u64>)
    ensures
        r == (match reading {
            Some(ms) => Some((ms % 0x1_0000_0000_0000_0000) as u64),
            None => None::<u64>,
        }),
{
    match reading {
        Some(ms) => Some((ms % 0x1_0000_0000_0000_0000) as u64),
        None => None,
    }
}

/// The clock of the operating system.
pub struct TokioTimeHandler {}

impl TokioTimeHandler {
    pub fn new() -> (r: Self) {
        TokioTimeHandler {}
    }
}

impl TimeHandler for TokioTimeHandler {
    fn time(&self) -> (r: Option<u64>) {
        clock_word(system_millis())
    }
}

} // verus!
