use telnet_core::negotiate::{handle_iac, process_chunk, BYTE_DO, BYTE_DONT, BYTE_IAC, BYTE_SB, BYTE_SE, BYTE_SUPPRESS_LOCAL_ECHO, BYTE_TERMINAL_TYPE, BYTE_WILL, BYTE_WONT};
use telnet_core::pump::{is_closed, translate_line, PumpEvent, Session, SessionState, MAY_RECV_BIT};
use telnet_core::target::{is_ip_literal, literal_address, resolved_address, Connection, TelnetError, DEFAULT_PORT};

fn term_type_response() -> Vec<u8> {
    vec![
        BYTE_IAC,
        BYTE_SB,
        BYTE_TERMINAL_TYPE,
        0,
        b'X',
        b'T',
        b'E',
        b'R',
        b'M',
        b'-',
        b'2',
        b'5',
        b'6',
        b'C',
        b'O',
        b'L',
        b'O',
        b'R',
        BYTE_IAC,
        BYTE_SE,
    ]
}

#[test]
fn parse_without_colon_defaults_to_23() {
    let (host, port) = Connection::parse("example.com");
    assert_eq!(host, "example.com");
    assert_eq!(port, 23);
    assert_eq!(DEFAULT_PORT, 23);
}

#[test]
fn parse_with_port() {
    let (host, port) = Connection::parse("example.com:2323");
    assert_eq!(host, "example.com");
    assert_eq!(port, 2323);
}

#[test]
fn parse_splits_at_first_colon() {
    let (host, port) = Connection::parse("a:25:99");
    assert_eq!(host, "a");
    // "25:99" is not a number, so the port falls back.
    assert_eq!(port, 23);
}

#[test]
fn parse_bad_port_falls_back_to_23() {
    assert_eq!(Connection::parse("host:abc").1, 23);
    assert_eq!(Connection::parse("host:").1, 23);
    assert_eq!(Connection::parse("host:-1").1, 23);
    assert_eq!(Connection::parse("host:65536").1, 23);
    assert_eq!(Connection::parse("host:99999999999999999999").1, 23);
    assert_eq!(Connection::parse("host: 80").1, 23);
}

#[test]
fn parse_port_boundaries() {
    assert_eq!(Connection::parse("host:0").1, 0);
    assert_eq!(Connection::parse("host:65535").1, 65535);
    // The standard decimal parser accepts a leading plus sign.
    assert_eq!(Connection::parse("host:+80").1, 80);
}

#[test]
fn parse_empty_host() {
    let (host, port) = Connection::parse(":80");
    assert_eq!(host, "");
    assert_eq!(port, 80);
}

#[test]
fn ip_literal_classification() {
    assert!(is_ip_literal("10.0.2.2"));
    assert!(is_ip_literal("::1"));
    assert!(!is_ip_literal("example.com"));
    assert!(!is_ip_literal(""));
}

#[test]
fn literal_address_parses_and_rejects() {
    let ok = literal_address("10.0.2.2").unwrap();
    assert_eq!(format!("{}", ok), "10.0.2.2");
    let v6 = literal_address("::1").unwrap();
    assert_eq!(format!("{}", v6), "::1");
    assert_eq!(
        literal_address("300.0.0.1").unwrap_err(),
        TelnetError::InvalidAddressFormat
    );
    assert_eq!(
        literal_address("10.0.2").unwrap_err(),
        TelnetError::InvalidAddressFormat
    );
}

#[test]
fn resolver_outcome_is_surfaced() {
    let addr = literal_address("192.168.1.1").unwrap();
    let ok = resolved_address(Some(addr)).unwrap();
    assert_eq!(format!("{}", ok), "192.168.1.1");
    assert_eq!(
        resolved_address(None).unwrap_err(),
        TelnetError::ResolutionFailure
    );
}

#[test]
fn terminal_type_query_is_answered() {
    let mut data = vec![BYTE_IAC, BYTE_DO, BYTE_TERMINAL_TYPE];
    data.extend_from_slice(b"hello");
    let out = process_chunk(&data, false);
    assert_eq!(out.responses, term_type_response());
    assert_eq!(out.display, b"hello".to_vec());
    assert!(!out.suppressed);
}

#[test]
fn will_suppress_disables_echo_and_acks() {
    let data = vec![BYTE_IAC, BYTE_WILL, BYTE_SUPPRESS_LOCAL_ECHO];
    let out = process_chunk(&data, false);
    assert!(out.suppressed);
    assert_eq!(out.responses, vec![BYTE_IAC, BYTE_DO, BYTE_SUPPRESS_LOCAL_ECHO]);
    assert!(out.display.is_empty());

    // A second WILL in a row: already suppressed, same acknowledgement,
    // no further change.
    let again = process_chunk(&data, out.suppressed);
    assert!(again.suppressed);
    assert_eq!(again.responses, vec![BYTE_IAC, BYTE_DO, BYTE_SUPPRESS_LOCAL_ECHO]);

    let wont = vec![BYTE_IAC, BYTE_WONT, BYTE_SUPPRESS_LOCAL_ECHO];
    let back = process_chunk(&wont, again.suppressed);
    assert!(!back.suppressed);
    assert_eq!(back.responses, vec![BYTE_IAC, BYTE_DONT, BYTE_SUPPRESS_LOCAL_ECHO]);
}

#[test]
fn trailing_iac_is_plain_data() {
    let data = vec![b'a', BYTE_IAC];
    let out = process_chunk(&data, false);
    assert_eq!(out.display, vec![b'a', BYTE_IAC]);
    assert!(out.responses.is_empty());
    assert!(!out.suppressed);

    // IAC with only one byte after it: still too short for a command.
    let data = vec![BYTE_IAC, BYTE_DO];
    let out = process_chunk(&data, false);
    assert_eq!(out.display, vec![BYTE_IAC, BYTE_DO]);
    assert!(out.responses.is_empty());
}

#[test]
fn unrecognized_pair_is_ignored_without_response() {
    // IAC WILL TERMINAL_TYPE is not handled: the IAC is skipped and the
    // two bytes after it are re-examined as data.
    let data = vec![BYTE_IAC, BYTE_WILL, BYTE_TERMINAL_TYPE, b'x'];
    let out = process_chunk(&data, false);
    assert_eq!(out.display, vec![BYTE_IAC, BYTE_WILL, BYTE_TERMINAL_TYPE, b'x']);
    assert!(out.responses.is_empty());
    assert!(!out.suppressed);
}

#[test]
fn handle_iac_cursor_and_effects() {
    let data = [BYTE_IAC, BYTE_WILL, BYTE_SUPPRESS_LOCAL_ECHO, b'x'];
    let mut i = 0usize;
    let mut resp: Vec<u8> = Vec::new();
    let mut sup = false;
    assert!(handle_iac(&data, &mut i, &mut resp, &mut sup));
    // The cursor advances by two; the scan loop steps once more, past the
    // whole three-byte sequence.
    assert_eq!(i, 2);
    assert!(sup);
    assert_eq!(resp, vec![BYTE_IAC, BYTE_DO, BYTE_SUPPRESS_LOCAL_ECHO]);

    i += 1;
    assert!(!handle_iac(&data, &mut i, &mut resp, &mut sup));
    assert_eq!(i, 3);
    assert!(sup);
    assert_eq!(resp.len(), 3);
}

#[test]
fn empty_chunk_produces_nothing() {
    let out = process_chunk(&[], true);
    assert!(out.display.is_empty());
    assert!(out.responses.is_empty());
    assert!(out.suppressed);
}

#[test]
fn back_to_back_commands_in_one_chunk() {
    let mut data = vec![BYTE_IAC, BYTE_DO, BYTE_TERMINAL_TYPE];
    data.extend_from_slice(&[BYTE_IAC, BYTE_WILL, BYTE_SUPPRESS_LOCAL_ECHO]);
    data.push(b'z');
    let out = process_chunk(&data, false);
    let mut expected = term_type_response();
    expected.extend_from_slice(&[BYTE_IAC, BYTE_DO, BYTE_SUPPRESS_LOCAL_ECHO]);
    assert_eq!(out.responses, expected);
    assert_eq!(out.display, vec![b'z']);
    assert!(out.suppressed);
}

#[test]
fn will_twice_in_one_chunk_acks_twice_stays_suppressed() {
    let mut data = vec![BYTE_IAC, BYTE_WILL, BYTE_SUPPRESS_LOCAL_ECHO];
    data.extend_from_slice(&[BYTE_IAC, BYTE_WILL, BYTE_SUPPRESS_LOCAL_ECHO]);
    let out = process_chunk(&data, false);
    assert!(out.suppressed);
    let ack = [BYTE_IAC, BYTE_DO, BYTE_SUPPRESS_LOCAL_ECHO];
    let mut expected = ack.to_vec();
    expected.extend_from_slice(&ack);
    assert_eq!(out.responses, expected);
    assert!(out.display.is_empty());
}

#[test]
fn parse_with_non_ascii_host() {
    let (host, port) = Connection::parse("héllo:80");
    assert_eq!(host, "héllo");
    assert_eq!(port, 80);
    // A digit from another script is not a decimal digit: fall back.
    assert_eq!(Connection::parse("host:8০").1, 23);
}

#[test]
fn line_endings_are_translated() {
    assert_eq!(translate_line(b"hi\n"), b"hi\r\n".to_vec());
    assert_eq!(translate_line(b"a\nb\n"), b"a\r\nb\r\n".to_vec());
    assert_eq!(translate_line(b""), Vec::<u8>::new());
    assert_eq!(translate_line(b"no newline"), b"no newline".to_vec());
}

#[test]
fn closed_status_bit_is_read() {
    assert_eq!(MAY_RECV_BIT, 6);
    // May-receive bit set: still open.
    assert!(!is_closed(1 << MAY_RECV_BIT));
    assert!(!is_closed(0xFF));
    // May-receive bit clear: peer closed.
    assert!(is_closed(0));
    assert!(is_closed(0xFF & !(1 << MAY_RECV_BIT)));
}

#[test]
fn idle_status_with_may_recv_clear_closes() {
    let mut s = Session::new();
    s.on_open(true);
    s.on_connect(true);
    assert_eq!(s.state, SessionState::Active);
    let out = s.step(PumpEvent::IdleStatus(Some(0)));
    assert_eq!(s.state, SessionState::Closing);
    assert!(out.to_socket.is_empty());
    assert!(out.to_display.is_empty());
    assert!(out.set_echo.is_none());
}

#[test]
fn idle_status_with_may_recv_set_stays_active() {
    let mut s = Session::new();
    s.on_open(true);
    s.on_connect(true);
    s.step(PumpEvent::IdleStatus(Some(1 << MAY_RECV_BIT)));
    assert_eq!(s.state, SessionState::Active);
    s.step(PumpEvent::IdleStatus(None));
    assert_eq!(s.state, SessionState::Active);
    s.step(PumpEvent::RemoteSilent);
    assert_eq!(s.state, SessionState::Active);
}

#[test]
fn session_end_to_end() {
    // Input "example.com:2323": the resolver is stubbed with a fixed
    // address, the socket stub accepts the connection.
    let (host, port) = Connection::parse("example.com:2323");
    assert_eq!(host, "example.com");
    assert_eq!(port, 2323);
    assert!(!is_ip_literal(host));
    let stub = literal_address("10.0.2.15").unwrap();
    let addr = resolved_address(Some(stub)).unwrap();
    assert_eq!(format!("{}", addr), "10.0.2.15");

    let mut s = Session::new();
    assert_eq!(s.state, SessionState::Connecting);
    s.on_open(true);
    s.on_connect(true);
    assert_eq!(s.state, SessionState::Active);

    // End-of-text on the local input: Active -> Closing, a line
    // terminator is printed.
    let out = s.step(PumpEvent::Cancel);
    assert_eq!(s.state, SessionState::Closing);
    assert_eq!(out.to_display, vec![b'\n']);
    assert!(out.to_socket.is_empty());

    // Closing -> Closed: the handle is released exactly once.
    let do_close = s.release();
    assert!(do_close);
    assert_eq!(s.state, SessionState::Closed);
    assert!(!s.handle_open);
}

#[test]
fn connect_failure_still_releases_handle() {
    let mut s = Session::new();
    s.on_open(true);
    s.on_connect(false);
    assert_eq!(s.state, SessionState::Closing);
    assert!(s.release());
    assert_eq!(s.state, SessionState::Closed);
}

#[test]
fn open_failure_has_no_handle_to_release() {
    let mut s = Session::new();
    s.on_open(false);
    assert_eq!(s.state, SessionState::Closed);
    assert!(!s.handle_open);
}

#[test]
fn session_relays_lines_and_chunks() {
    let mut s = Session::new();
    s.on_open(true);
    s.on_connect(true);

    let out = s.step(PumpEvent::LocalLine(b"open sesame\n".to_vec()));
    assert_eq!(out.to_socket, b"open sesame\r\n".to_vec());
    assert!(out.to_display.is_empty());
    assert_eq!(s.state, SessionState::Active);

    let chunk = vec![BYTE_IAC, BYTE_WILL, BYTE_SUPPRESS_LOCAL_ECHO, b'o', b'k'];
    let out = s.step(PumpEvent::RemoteChunk(chunk));
    assert_eq!(out.to_socket, vec![BYTE_IAC, BYTE_DO, BYTE_SUPPRESS_LOCAL_ECHO]);
    assert_eq!(out.to_display, b"ok".to_vec());
    assert_eq!(out.set_echo, Some(false));
    assert!(s.echo_suppressed);

    // The same request again: re-acknowledged, but no echo change to
    // apply.
    let chunk = vec![BYTE_IAC, BYTE_WILL, BYTE_SUPPRESS_LOCAL_ECHO];
    let out = s.step(PumpEvent::RemoteChunk(chunk));
    assert_eq!(out.to_socket, vec![BYTE_IAC, BYTE_DO, BYTE_SUPPRESS_LOCAL_ECHO]);
    assert_eq!(out.set_echo, None);
    assert!(s.echo_suppressed);

    let chunk = vec![BYTE_IAC, BYTE_WONT, BYTE_SUPPRESS_LOCAL_ECHO];
    let out = s.step(PumpEvent::RemoteChunk(chunk));
    assert_eq!(out.to_socket, vec![BYTE_IAC, BYTE_DONT, BYTE_SUPPRESS_LOCAL_ECHO]);
    assert_eq!(out.set_echo, Some(true));
    assert!(!s.echo_suppressed);
}
