//! Session pump: the state machine that drives one TELNET session.
//!
//! The pump itself performs no I/O. The surrounding program opens the
//! connection, polls for readiness, reads and writes; it reports each
//! observation here as a [`PumpEvent`] and performs the actions in the
//! returned [`PumpOutput`]. The state machine decides every transition and
//! guarantees that the connection handle is released exactly once, on every
//! exit path.

use vstd::prelude::*;
use crate::negotiate::{scan_display, scan_responses, scan_suppressed, process_chunk};

verus! {

/// Index of the "may receive" flag inside the 1-byte liveness status read
/// from the socket device. When this bit is clear the peer has closed.
pub const MAY_RECV_BIT: usize = 6;

/// Lifecycle of a session.
#[derive(Clone, Copy, Debug, PartialEq, Eq, Structural)]
pub enum SessionState {
    /// The connection is being opened; no traffic yet.
    Connecting,
    /// Steady state: bytes move in both directions.
    Active,
    /// An exit condition was observed; the handle must still be released.
    Closing,
    /// Terminal state: the handle has been released.
    Closed,
}

/// One observation made by the I/O loop while the session is active.
pub enum PumpEvent {
    /// The user sent an end-of-text or end-of-transmission control signal.
    Cancel,
    /// A full line of local input is available (raw bytes, local line
    /// ending).
    LocalLine(Vec<u8>),
    /// A read from the remote socket returned these bytes.
    RemoteChunk(Vec<u8>),
    /// The socket was polled ready but the read returned nothing: treated
    /// as "no data this iteration", never as an error.
    RemoteSilent,
    /// The idle branch ran: the poll saw neither source ready and the
    /// 1-byte liveness status was read, if available.
    IdleStatus(Option<u8>),
}

/// The actions one step asks the I/O loop to perform.
pub struct PumpOutput {
    /// Bytes to write to the remote socket.
    pub to_socket: Vec<u8>,
    /// Bytes to write to the local display.
    pub to_display: Vec<u8>,
    /// `Some(enabled)`: set the local terminal echo to `enabled`.
    pub set_echo: Option<bool>,
}

/// One TELNET session, owned by a single control loop.
pub struct Session {
    /// Where the session stands in its lifecycle.
    pub state: SessionState,
    /// Whether the peer currently suppresses our local echo.
    pub echo_suppressed: bool,
    /// Whether a connection handle is held and not yet released.
    pub handle_open: bool,
}

/// True when the liveness status byte says the peer has closed: its
/// "may receive" bit is clear.
pub open spec fn spec_closed_status(status: u8) -> bool {
    (status >> (MAY_RECV_BIT as u8)) & 1u8 == 0u8
}

/// Relies on `bit_field::BitField::get_bit` for `u8`: it returns bit `bit`
/// of the byte, counting from the least significant, and panics for
/// `bit >= 8` (ruled out here).
#[verifier::external_body]
fn get_status_bit(status: u8, bit: usize) -> (r: bool)
    requires
        bit < 8,
    ensures
        r == ((status >> (bit as u8)) & 1u8 == 1u8),
{
    bit_field::BitField::get_bit(&status, bit)
}

/// Whether a liveness status byte reports the peer side as closed.
pub fn is_closed(status: u8) -> (r: bool)
    ensures
        r == spec_closed_status(status),
{
    let bit = get_status_bit(status, MAY_RECV_BIT);
    proof {
        assert(((status >> 6u8) & 1u8 == 1u8) == !((status >> 6u8) & 1u8 == 0u8)) by (bit_vector);
    }
    !bit
}

/// Network line ending: every line feed becomes carriage return + line
/// feed, scanning `line` from position `i`.
pub open spec fn crlf_from(line: Seq<u8>, i: int) -> Seq<u8>
    decreases line.len() - i,
{
    if i < 0 || i >= line.len() {
        Seq::empty()
    } else if line[i] == 10u8 {
        seq![13u8, 10u8] + crlf_from(line, i + 1)
    } else {
        seq![line[i]] + crlf_from(line, i + 1)
    }
}

/// `line` translated to the network line-ending convention.
pub open spec fn crlf_of(line: Seq<u8>) -> Seq<u8> {
    crlf_from(line, 0)
}

/// Translate one local line to the network line-ending convention
/// (`\n` becomes `\r\n`).
pub fn translate_line(line: &[u8]) -> (out: Vec<u8>)
    ensures
        out@ == crlf_of(line@),
{
    let mut out: Vec<u8> = Vec::new();
    let mut i: usize = 0;
    while i < line.len()
        invariant
            i <= line@.len(),
            crlf_of(line@) == out@ + crlf_from(line@, i as int),
        decreases line@.len() - i,
    {
        let ghost j = i as int;
        let ghost out0 = out@;
        if line[i] == 10u8 {
            out.push(13u8);
            out.push(10u8);
        } else {
            out.push(line[i]);
        }
        proof {
            assert(out@ + crlf_from(line@, j + 1) =~= out0 + crlf_from(line@, j));
        }
        i += 1;
    }
    out
}

impl Session {
    /// Structural soundness: an active or closing session still holds its
    /// handle; a closed one no longer does.
    pub open spec fn wf(self) -> bool {
        &&& (self.state is Active ==> self.handle_open)
        &&& (self.state is Closing ==> self.handle_open)
        &&& (self.state is Closed ==> !self.handle_open)
    }

    /// A fresh session: connecting, echo untouched, no handle yet.
    pub fn new() -> (s: Session)
        ensures
            s.state is Connecting,
            !s.handle_open,
            !s.echo_suppressed,
            s.wf(),
    {
        Session { state: SessionState::Connecting, echo_suppressed: false, handle_open: false }
    }

    /// Record the outcome of opening the connection device. On failure the
    /// session is over before any handle exists, so nothing is to be
    /// released.
    pub fn on_open(&mut self, ok: bool)
        requires
            old(self).state is Connecting,
            !old(self).handle_open,
        ensures
            final(self).wf(),
            ok ==> final(self).state is Connecting && final(self).handle_open,
            !ok ==> final(self).state is Closed && !final(self).handle_open,
            final(self).echo_suppressed == old(self).echo_suppressed,
    {
        if ok {
            self.handle_open = true;
        } else {
            self.state = SessionState::Closed;
        }
    }

    /// Record the outcome of connecting to the resolved endpoint. Success
    /// enters the steady state; failure is fatal to the session, but the
    /// already-open handle still has to be released, so the session moves
    /// to `Closing` rather than straight to `Closed`.
    pub fn on_connect(&mut self, ok: bool)
        requires
            old(self).state is Connecting,
            old(self).handle_open,
        ensures
            final(self).wf(),
            final(self).handle_open,
            ok ==> final(self).state is Active,
            !ok ==> final(self).state is Closing,
            final(self).echo_suppressed == old(self).echo_suppressed,
    {
        if ok {
            self.state = SessionState::Active;
        } else {
            self.state = SessionState::Closing;
        }
    }

    /// One iteration of the steady-state loop: from the observed event,
    /// decide the next state and the actions to perform.
    pub fn step(&mut self, ev: PumpEvent) -> (out: PumpOutput)
        requires
            old(self).state is Active,
            old(self).wf(),
        ensures
            final(self).wf(),
            final(self).handle_open,
            match ev {
                PumpEvent::Cancel => {
                    &&& final(self).state is Closing
                    &&& out.to_socket@ == Seq::<u8>::empty()
                    &&& out.to_display@ == seq![10u8]
                    &&& out.set_echo is None
                    &&& final(self).echo_suppressed == old(self).echo_suppressed
                },
                PumpEvent::LocalLine(line) => {
                    &&& final(self).state is Active
                    &&& out.to_socket@ == crlf_of(line@)
                    &&& out.to_display@ == Seq::<u8>::empty()
                    &&& out.set_echo is None
                    &&& final(self).echo_suppressed == old(self).echo_suppressed
                },
                PumpEvent::RemoteChunk(data) => {
                    &&& final(self).state is Active
                    &&& out.to_display@ == scan_display(data@, 0)
                    &&& out.to_socket@ == scan_responses(data@, 0)
                    &&& final(self).echo_suppressed == scan_suppressed(
                        data@,
                        0,
                        old(self).echo_suppressed,
                    )
                    &&& out.set_echo == (if final(self).echo_suppressed
                        != old(self).echo_suppressed {
                        Some(!final(self).echo_suppressed)
                    } else {
                        None::<bool>
                    })
                },
                PumpEvent::RemoteSilent => {
                    &&& final(self).state is Active
                    &&& out.to_socket@ == Seq::<u8>::empty()
                    &&& out.to_display@ == Seq::<u8>::empty()
                    &&& out.set_echo is None
                    &&& final(self).echo_suppressed == old(self).echo_suppressed
                },
                PumpEvent::IdleStatus(st) => {
                    &&& match st {
                        Some(b) => if spec_closed_status(b) {
                            final(self).state is Closing
                        } else {
                            final(self).state is Active
                        },
                        None => final(self).state is Active,
                    }
                    &&& out.to_socket@ == Seq::<u8>::empty()
                    &&& out.to_display@ == Seq::<u8>::empty()
                    &&& out.set_echo is None
                    &&& final(self).echo_suppressed == old(self).echo_suppressed
                },
            },
    {
        match ev {
            PumpEvent::Cancel => {
                self.state = SessionState::Closing;
                let mut nl: Vec<u8> = Vec::new();
                nl.push(10u8);
                proof {
                    assert(nl@ =~= seq![10u8]);
                }
                PumpOutput { to_socket: Vec::new(), to_display: nl, set_echo: None }
            },
            PumpEvent::LocalLine(line) => {
                let bytes = translate_line(line.as_slice());
                PumpOutput { to_socket: bytes, to_display: Vec::new(), set_echo: None }
            },
            PumpEvent::RemoteChunk(data) => {
                let was = self.echo_suppressed;
                let out = process_chunk(data.as_slice(), was);
                self.echo_suppressed = out.suppressed;
                let set_echo = if out.suppressed != was {
                    Some(!out.suppressed)
                } else {
                    None
                };
                PumpOutput { to_socket: out.responses, to_display: out.display, set_echo }
            },
            PumpEvent::RemoteSilent => {
                PumpOutput { to_socket: Vec::new(), to_display: Vec::new(), set_echo: None }
            },
            PumpEvent::IdleStatus(st) => {
                match st {
                    Some(b) => {
                        if is_closed(b) {
                            self.state = SessionState::Closing;
                        }
                    },
                    None => {},
                }
                PumpOutput { to_socket: Vec::new(), to_display: Vec::new(), set_echo: None }
            },
        }
    }

    /// Leave `Closing` for the terminal state, releasing the handle. The
    /// result says whether the caller must close the underlying handle;
    /// under [`Session::wf`] it is always `true` here, and because no
    /// transition leaves `Closed`, the handle is released exactly once.
    pub fn release(&mut self) -> (do_close: bool)
        requires
            old(self).state is Closing,
            old(self).wf(),
        ensures
            final(self).state is Closed,
            !final(self).handle_open,
            final(self).wf(),
            do_close == old(self).handle_open,
            do_close,
            final(self).echo_suppressed == old(self).echo_suppressed,
    {
        let do_close = self.handle_open;
        self.handle_open = false;
        self.state = SessionState::Closed;
        do_close
    }
}

} // verus!
