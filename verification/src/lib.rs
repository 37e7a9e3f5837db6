//! Core of a minimal TELNET client.
//!
//! Three verified components:
//! - `target`: parsing of a `host[:port]` string into a hostname or IP
//!   literal and a port (defaulting to 23);
//! - `negotiate`: a pure interpreter for in-band TELNET option-negotiation
//!   sequences, producing display bytes, protocol responses and the local
//!   echo state;
//! - `pump`: the session state machine that decides, from each observed
//!   event, the next state and the actions to perform.
//!
//! All I/O (sockets, terminal, hostname resolution) stays outside; callers
//! hand plain values in and perform the returned actions.

pub mod negotiate;
pub mod pump;
pub mod target;
