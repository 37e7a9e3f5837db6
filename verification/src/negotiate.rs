//! Negotiation engine: interprets IAC command sequences embedded in a
//! received byte buffer.
//!
//! The engine is pure: it consumes a buffer and the current echo state and
//! produces the bytes to display, the response bytes to send back, and the
//! new echo state. Only two options are handled (terminal-type query and
//! suppression of local echo); every other command pair is ignored without
//! a response. An IAC marker with fewer than two bytes after it in the same
//! buffer is treated as ordinary data: a command sequence split across two
//! reads is not reassembled (a documented limitation, kept as such).

use vstd::prelude::*;

verus! {

/// Interpret-as-command marker byte.
pub const BYTE_IAC: u8 = 255;
/// "You are not to use option."
pub const BYTE_DONT: u8 = 254;
/// "Please, you use option."
pub const BYTE_DO: u8 = 253;
/// "I won't use option."
pub const BYTE_WONT: u8 = 252;
/// "I will use option."
pub const BYTE_WILL: u8 = 251;
/// Start of subnegotiation.
pub const BYTE_SB: u8 = 250;
/// End of subnegotiation.
pub const BYTE_SE: u8 = 240;
/// Terminal-type option.
pub const BYTE_TERMINAL_TYPE: u8 = 24;
/// Suppress-local-echo option.
pub const BYTE_SUPPRESS_LOCAL_ECHO: u8 = 1;

/// What a `(command, option)` pair following an IAC marker means.
#[derive(Clone, Copy, Debug, PartialEq, Eq, Structural)]
pub enum NegotiationEvent {
    /// The peer asks us to report our terminal type.
    TerminalTypeQuery,
    /// The peer announces it will suppress our local echo.
    EchoSuppressRequest,
    /// The peer withdraws echo suppression.
    EchoSuppressWithdraw,
    /// Any other pair: ignored by protocol policy, no response.
    Unrecognized,
}

/// Meaning of the two bytes that follow an IAC marker.
pub open spec fn spec_event_of(cmd: u8, opt: u8) -> NegotiationEvent {
    if cmd == BYTE_DO && opt == BYTE_TERMINAL_TYPE {
        NegotiationEvent::TerminalTypeQuery
    } else if cmd == BYTE_WILL && opt == BYTE_SUPPRESS_LOCAL_ECHO {
        NegotiationEvent::EchoSuppressRequest
    } else if cmd == BYTE_WONT && opt == BYTE_SUPPRESS_LOCAL_ECHO {
        NegotiationEvent::EchoSuppressWithdraw
    } else {
        NegotiationEvent::Unrecognized
    }
}

/// Classify the `(command, option)` pair that follows an IAC marker.
pub fn event_of(cmd: u8, opt: u8) -> (ev: NegotiationEvent)
    ensures
        ev == spec_event_of(cmd, opt),
{
    if cmd == BYTE_DO && opt == BYTE_TERMINAL_TYPE {
        NegotiationEvent::TerminalTypeQuery
    } else if cmd == BYTE_WILL && opt == BYTE_SUPPRESS_LOCAL_ECHO {
        NegotiationEvent::EchoSuppressRequest
    } else if cmd == BYTE_WONT && opt == BYTE_SUPPRESS_LOCAL_ECHO {
        NegotiationEvent::EchoSuppressWithdraw
    } else {
        NegotiationEvent::Unrecognized
    }
}

/// The fixed subnegotiation response to a terminal-type query:
/// `IAC SB TERMINAL_TYPE 0 "XTERM-256COLOR" IAC SE`.
pub open spec fn term_type_response() -> Seq<u8> {
    seq![
        BYTE_IAC,
        BYTE_SB,
        BYTE_TERMINAL_TYPE,
        0u8,
        88u8,  // 'X'
        84u8,  // 'T'
        69u8,  // 'E'
        82u8,  // 'R'
        77u8,  // 'M'
        45u8,  // '-'
        50u8,  // '2'
        53u8,  // '5'
        54u8,  // '6'
        67u8,  // 'C'
        79u8,  // 'O'
        76u8,  // 'L'
        79u8,  // 'O'
        82u8,  // 'R'
        BYTE_IAC,
        BYTE_SE,
    ]
}

/// Bytes sent back to the peer for one recognized event.
pub open spec fn spec_response_of(ev: NegotiationEvent) -> Seq<u8> {
    match ev {
        NegotiationEvent::TerminalTypeQuery => term_type_response(),
        NegotiationEvent::EchoSuppressRequest => seq![
            BYTE_IAC,
            BYTE_DO,
            BYTE_SUPPRESS_LOCAL_ECHO,
        ],
        NegotiationEvent::EchoSuppressWithdraw => seq![
            BYTE_IAC,
            BYTE_DONT,
            BYTE_SUPPRESS_LOCAL_ECHO,
        ],
        NegotiationEvent::Unrecognized => Seq::empty(),
    }
}

/// Echo-suppression state after one event, from the state before it.
pub open spec fn spec_suppressed_after(ev: NegotiationEvent, suppressed: bool) -> bool {
    match ev {
        NegotiationEvent::EchoSuppressRequest => true,
        NegotiationEvent::EchoSuppressWithdraw => false,
        _ => suppressed,
    }
}

/// Whether position `i` of `data` starts a complete, recognized command
/// sequence: an IAC marker with at least two bytes after it whose pair is
/// one of the handled events.
pub open spec fn spec_handled_at(data: Seq<u8>, i: int) -> bool
    recommends
        0 <= i < data.len(),
{
    &&& data[i] == BYTE_IAC
    &&& i + 2 < data.len()
    &&& !(spec_event_of(data[i + 1], data[i + 2]) is Unrecognized)
}

/// Bytes shown on the local display when the engine scans `data` from
/// cursor `i` to the end: every byte that is not part of a handled command
/// sequence, in order.
pub open spec fn scan_display(data: Seq<u8>, i: int) -> Seq<u8>
    decreases data.len() - i,
{
    if i < 0 || i >= data.len() {
        Seq::empty()
    } else if spec_handled_at(data, i) {
        scan_display(data, i + 3)
    } else {
        seq![data[i]] + scan_display(data, i + 1)
    }
}

/// Bytes sent back to the peer when the engine scans `data` from cursor
/// `i` to the end: the responses of the handled command sequences, in order.
pub open spec fn scan_responses(data: Seq<u8>, i: int) -> Seq<u8>
    decreases data.len() - i,
{
    if i < 0 || i >= data.len() {
        Seq::empty()
    } else if spec_handled_at(data, i) {
        spec_response_of(spec_event_of(data[i + 1], data[i + 2])) + scan_responses(data, i + 3)
    } else {
        scan_responses(data, i + 1)
    }
}

/// Echo-suppression state after the engine scans `data` from cursor `i` to
/// the end, starting from state `suppressed`.
pub open spec fn scan_suppressed(data: Seq<u8>, i: int, suppressed: bool) -> bool
    decreases data.len() - i,
{
    if i < 0 || i >= data.len() {
        suppressed
    } else if spec_handled_at(data, i) {
        scan_suppressed(
            data,
            i + 3,
            spec_suppressed_after(spec_event_of(data[i + 1], data[i + 2]), suppressed),
        )
    } else {
        scan_suppressed(data, i + 1, suppressed)
    }
}

/// Recognize and answer one command sequence at cursor `*i`.
///
/// Returns `true` exactly when a complete, recognized sequence starts at
/// `*i`; the response bytes are appended to `responses`, the echo state is
/// updated, and the cursor advances by 2 (the caller advances it once more,
/// past all three command bytes). Otherwise nothing changes and the caller
/// treats `data[*i]` as ordinary data.
pub fn handle_iac(data: &[u8], i: &mut usize, responses: &mut Vec<u8>, suppressed: &mut bool) -> (handled: bool)
    requires
        *old(i) < data@.len(),
    ensures
        handled == spec_handled_at(data@, *old(i) as int),
        handled ==> *final(i) == *old(i) + 2,
        handled ==> final(responses)@ == old(responses)@ + spec_response_of(
            spec_event_of(data@[*old(i) + 1], data@[*old(i) + 2]),
        ),
        handled ==> *final(suppressed) == spec_suppressed_after(
            spec_event_of(data@[*old(i) + 1], data@[*old(i) + 2]),
            *old(suppressed),
        ),
        !handled ==> *final(i) == *old(i),
        !handled ==> final(responses)@ == old(responses)@,
        !handled ==> *final(suppressed) == *old(suppressed),
{
    if data[*i] == BYTE_IAC && data.len() >= 3 && *i < data.len() - 2 {
        match event_of(data[*i + 1], data[*i + 2]) {
            NegotiationEvent::TerminalTypeQuery => {
                responses.push(BYTE_IAC);
                responses.push(BYTE_SB);
                responses.push(BYTE_TERMINAL_TYPE);
                responses.push(0u8);
                responses.push(88u8);  // 'X'
                responses.push(84u8);  // 'T'
                responses.push(69u8);  // 'E'
                responses.push(82u8);  // 'R'
                responses.push(77u8);  // 'M'
                responses.push(45u8);  // '-'
                responses.push(50u8);  // '2'
                responses.push(53u8);  // '5'
                responses.push(54u8);  // '6'
                responses.push(67u8);  // 'C'
                responses.push(79u8);  // 'O'
                responses.push(76u8);  // 'L'
                responses.push(79u8);  // 'O'
                responses.push(82u8);  // 'R'
                responses.push(BYTE_IAC);
                responses.push(BYTE_SE);
                proof {
                    assert(responses@ =~= old(responses)@ + term_type_response());
                }
                *i += 2;
                true
            },
            NegotiationEvent::EchoSuppressRequest => {
                *suppressed = true;
                responses.push(BYTE_IAC);
                responses.push(BYTE_DO);
                responses.push(BYTE_SUPPRESS_LOCAL_ECHO);
                proof {
                    assert(responses@ =~= old(responses)@ + spec_response_of(
                        NegotiationEvent::EchoSuppressRequest,
                    ));
                }
                *i += 2;
                true
            },
            NegotiationEvent::EchoSuppressWithdraw => {
                *suppressed = false;
                responses.push(BYTE_IAC);
                responses.push(BYTE_DONT);
                responses.push(BYTE_SUPPRESS_LOCAL_ECHO);
                proof {
                    assert(responses@ =~= old(responses)@ + spec_response_of(
                        NegotiationEvent::EchoSuppressWithdraw,
                    ));
                }
                *i += 2;
                true
            },
            NegotiationEvent::Unrecognized => false,
        }
    } else {
        false
    }
}

/// Law: a buffer that opens with `IAC DO TERMINAL_TYPE`, whatever follows,
/// makes the engine emit exactly the fixed terminal-type subnegotiation
/// response, display nothing of the three command bytes, leave the echo
/// state alone, and go on past the three bytes.
pub proof fn lemma_terminal_type_query(data: Seq<u8>)
    requires
        data.len() >= 3,
        data[0] == BYTE_IAC,
        data[1] == BYTE_DO,
        data[2] == BYTE_TERMINAL_TYPE,
    ensures
        scan_responses(data, 0) == term_type_response() + scan_responses(data, 3),
        scan_display(data, 0) == scan_display(data, 3),
        forall|e: bool| scan_suppressed(data, 0, e) == scan_suppressed(data, 3, e),
{
    assert(spec_handled_at(data, 0));
}

/// Law: `IAC WILL SUPPRESS_LOCAL_ECHO` alone in a buffer suppresses local
/// echo — from any prior state, so a repeated request changes nothing
/// after the first — and is acknowledged with exactly
/// `IAC DO SUPPRESS_LOCAL_ECHO`, displaying nothing.
pub proof fn lemma_echo_suppress_request(suppressed: bool)
    ensures
        scan_suppressed(seq![BYTE_IAC, BYTE_WILL, BYTE_SUPPRESS_LOCAL_ECHO], 0, suppressed),
        scan_responses(seq![BYTE_IAC, BYTE_WILL, BYTE_SUPPRESS_LOCAL_ECHO], 0) =~= seq![
            BYTE_IAC,
            BYTE_DO,
            BYTE_SUPPRESS_LOCAL_ECHO,
        ],
        scan_display(seq![BYTE_IAC, BYTE_WILL, BYTE_SUPPRESS_LOCAL_ECHO], 0) =~= Seq::<
            u8,
        >::empty(),
{
    let data = seq![BYTE_IAC, BYTE_WILL, BYTE_SUPPRESS_LOCAL_ECHO];
    assert(spec_handled_at(data, 0));
    assert(scan_suppressed(data, 3, true));
    assert(scan_responses(data, 3) =~= Seq::<u8>::empty());
    assert(scan_display(data, 3) =~= Seq::<u8>::empty());
}

/// Law: `IAC WONT SUPPRESS_LOCAL_ECHO` alone in a buffer re-enables local
/// echo from any prior state and is answered with exactly
/// `IAC DONT SUPPRESS_LOCAL_ECHO`, displaying nothing.
pub proof fn lemma_echo_suppress_withdraw(suppressed: bool)
    ensures
        !scan_suppressed(seq![BYTE_IAC, BYTE_WONT, BYTE_SUPPRESS_LOCAL_ECHO], 0, suppressed),
        scan_responses(seq![BYTE_IAC, BYTE_WONT, BYTE_SUPPRESS_LOCAL_ECHO], 0) =~= seq![
            BYTE_IAC,
            BYTE_DONT,
            BYTE_SUPPRESS_LOCAL_ECHO,
        ],
        scan_display(seq![BYTE_IAC, BYTE_WONT, BYTE_SUPPRESS_LOCAL_ECHO], 0) =~= Seq::<
            u8,
        >::empty(),
{
    let data = seq![BYTE_IAC, BYTE_WONT, BYTE_SUPPRESS_LOCAL_ECHO];
    assert(spec_handled_at(data, 0));
    assert(!scan_suppressed(data, 3, false));
    assert(scan_responses(data, 3) =~= Seq::<u8>::empty());
    assert(scan_display(data, 3) =~= Seq::<u8>::empty());
}

/// Law: an IAC marker with fewer than two bytes after it in the buffer is
/// ordinary data: the byte is displayed verbatim, nothing is answered and
/// the echo state is untouched. A sequence split across reads is not
/// reassembled.
pub proof fn lemma_trailing_iac(data: Seq<u8>, i: int)
    requires
        0 <= i < data.len(),
        data[i] == BYTE_IAC,
        i + 2 >= data.len(),
    ensures
        scan_display(data, i) == seq![data[i]] + scan_display(data, i + 1),
        scan_responses(data, i) == scan_responses(data, i + 1),
        forall|e: bool| scan_suppressed(data, i, e) == scan_suppressed(data, i + 1, e),
{
    assert(!spec_handled_at(data, i));
}

/// Everything one received chunk produces.
pub struct EngineOutput {
    /// Bytes to show on the local display.
    pub display: Vec<u8>,
    /// Protocol responses to write back to the connection.
    pub responses: Vec<u8>,
    /// Echo-suppression state after the chunk.
    pub suppressed: bool,
}

/// Scan one received chunk: classify every embedded command sequence,
/// collect the ordinary bytes for display and the responses to send back,
/// and fold the echo state through the recognized echo events.
pub fn process_chunk(data: &[u8], suppressed: bool) -> (out: EngineOutput)
    ensures
        out.display@ == scan_display(data@, 0),
        out.responses@ == scan_responses(data@, 0),
        out.suppressed == scan_suppressed(data@, 0, suppressed),
{
    let mut display: Vec<u8> = Vec::new();
    let mut responses: Vec<u8> = Vec::new();
    let mut sup = suppressed;
    let mut i: usize = 0;
    while i < data.len()
        invariant
            i <= data@.len(),
            scan_display(data@, 0) == display@ + scan_display(data@, i as int),
            scan_responses(data@, 0) == responses@ + scan_responses(data@, i as int),
            scan_suppressed(data@, 0, suppressed) == scan_suppressed(data@, i as int, sup),
        decreases data@.len() - i,
    {
        let ghost j = i as int;
        let ghost display0 = display@;
        let ghost responses0 = responses@;
        if handle_iac(data, &mut i, &mut responses, &mut sup) {
            proof {
                let ev = spec_event_of(data@[j + 1], data@[j + 2]);
                assert(scan_display(data@, j) == scan_display(data@, j + 3));
                assert(scan_responses(data@, j) == spec_response_of(ev) + scan_responses(
                    data@,
                    j + 3,
                ));
                assert(responses@ + scan_responses(data@, j + 3) =~= responses0 + scan_responses(
                    data@,
                    j,
                ));
            }
            i += 1;
        } else {
            display.push(data[i]);
            proof {
                assert(scan_display(data@, j) == seq![data@[j]] + scan_display(data@, j + 1));
                assert(display@ + scan_display(data@, j + 1) =~= display0 + scan_display(data@, j));
            }
            i += 1;
        }
    }
    EngineOutput { display, responses, suppressed: sup }
}

} // verus!
