//! Connection-level pieces that need no socket: line framing and defaults.

use crate::ircd::parser;
use vstd::prelude::*;
use vstd::string::*;

verus! {

/// Outbound write rate.
#[derive(Debug, Clone, Copy, PartialEq, Eq, Structural)]
pub struct WriteRateConfig {
    pub burst_bytes: u64,
    pub refill_bps: u64,
}

impl Default for WriteRateConfig {
    /// About the usual server flood limit of 512 bytes in 2 s, with a burst of
    /// 1 KiB.
    fn default() -> (r: Self)
        ensures
            r == (WriteRateConfig { burst_bytes: 1024, refill_bps: 256 }),
    {
        WriteRateConfig { burst_bytes: 1024, refill_bps: 256 }
    }
}

/// Why an outbound line was not queued.
#[derive(Debug, Clone, Copy, PartialEq, Eq, Structural)]
pub enum SendError {
    /// The connection runner has terminated.
    Closed,
    /// The write queue is full.
    Full,
}

impl SendError {
    /// The message of the error.
    pub fn to_string(&self) -> (s: String)
        ensures
            s@ == match *self {
                SendError::Closed => "connection runner has terminated"@,
                SendError::Full => "write queue is full"@,
            },
    {
        match *self {
            SendError::Closed => String::from_str("connection runner has terminated"),
            SendError::Full => String::from_str("write queue is full"),
        }
    }
}

/// Events emitted by the connection runner.
#[derive(Debug, Clone, PartialEq, Eq)]
pub enum ConnectionEvent {
    /// Connected (TCP and TLS handshake completed).
    Connected,
    /// One IRC line received (line terminator stripped).
    Line(String),
    /// Active session ended; the runner will reconnect after the delay.
    Disconnected { reason: String, delay_ms: u64 },
}

/// `s` without one `\r\n` or `\n` at its end.
pub fn strip_eol<'a>(s: &'a str) -> (r: &'a str)
    ensures
        r@ == parser::unterminated(s@),
{
    parser::strip_line_terminator(s)
}

} // verus!
