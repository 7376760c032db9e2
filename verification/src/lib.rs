//! Client-side engine for the AGWPE host protocol: a TCP-framed binary
//! control protocol used to drive AX.25 packet modems.
//!
//! The crate holds the protocol logic itself: callsign validation and
//! encoding, the 36-byte frame header, the typed frame codec, the reply
//! parser, the multiplexer that routes inbound frames to waiting callers,
//! and the virtual-circuit lifecycle.  Socket handling and thread plumbing
//! live outside; the engine speaks through a pair of channels.

mod call;
mod chan;
mod err;
mod header;
mod native;
mod packet;
mod reply;
mod router;
mod text;
mod v1;
mod wrap;

pub use call::Call;
pub use err::AgwError;
pub use header::{parse_header, Header, HEADER_LEN};
pub use native::parse_call;
pub use packet::{Packet, PortCap};
pub use reply::{parse_reply, Reply};
pub use router::{Router, Rule, RuleMatch};
pub use v1::{Command, Connection, MakeWriter, AGW, CONNECT_TIMEOUT_MS, QUEUE_WARN_LIMIT};
pub use wrap::{Wrap, Wrapper};
