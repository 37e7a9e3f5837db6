//! Target resolver: parsing of the `host[:port]` argument and the address
//! of an IP-literal host.
//!
//! The string is split at its first colon; the text after it is the port,
//! defaulting to 23 when absent or unparsable (never an error). A host
//! whose final character is a decimal digit is taken for an IP literal and
//! parsed as an address; any other host is left to an external resolver,
//! whose outcome is handed back in here to be surfaced uniformly.

use vstd::prelude::*;
use vstd::string::StrSliceExecFns;
use smoltcp::wire::IpAddress;

verus! {

/// Default TELNET port, used when none is given or the given one does not
/// parse as an unsigned 16-bit integer.
pub const DEFAULT_PORT: u16 = 23;

/// Why an invocation failed. Every variant is terminal: nothing is
/// retried.
#[derive(Clone, Copy, Debug, PartialEq, Eq, Structural)]
pub enum TelnetError {
    /// Bad or missing command-line arguments.
    UsageError,
    /// The host looked like an IP literal but did not parse as an address.
    InvalidAddressFormat,
    /// The external hostname resolver failed.
    ResolutionFailure,
    /// The socket could not be opened or connected.
    ConnectionFailure,
    /// The network device itself could not be opened.
    DeviceUnavailable,
}

/// A parsed connection target.
#[derive(Debug)]
pub struct Connection {
    pub host: String,
    pub port: u16,
}

/// Index of the first colon in `s`, or `s.len()` when there is none.
pub open spec fn first_colon(s: Seq<char>) -> int
    decreases s.len(),
{
    if s.len() == 0 {
        0
    } else if s[0] == ':' {
        0
    } else {
        1 + first_colon(s.drop_first())
    }
}

/// A decimal digit.
pub open spec fn spec_is_digit(c: char) -> bool {
    48 <= c as u32 <= 57
}

/// Every character of `s` is a decimal digit.
pub open spec fn all_digits(s: Seq<char>) -> bool {
    forall|k: int| 0 <= k < s.len() ==> spec_is_digit(s[k])
}

/// Value of a run of decimal digits, most significant first.
pub open spec fn digits_val(s: Seq<char>) -> int
    decreases s.len(),
{
    if s.len() == 0 {
        0
    } else {
        digits_val(s.drop_last()) * 10 + (s.last() as u32 - 48)
    }
}

/// How `u16` text parsing sees `s`: an optional leading `+`, then one or
/// more decimal digits whose value fits in 16 bits; anything else fails.
pub open spec fn spec_parse_u16(s: Seq<char>) -> Option<u16> {
    let body = if s.len() > 0 && s[0] == '+' {
        s.drop_first()
    } else {
        s
    };
    if body.len() > 0 && all_digits(body) && digits_val(body) <= 65535 {
        Some(digits_val(body) as u16)
    } else {
        None
    }
}

/// The host part of a `host[:port]` string: everything before the first
/// colon, or the whole string.
pub open spec fn spec_host_of(s: Seq<char>) -> Seq<char> {
    s.subrange(0, first_colon(s))
}

/// The port of a `host[:port]` string: the text after the first colon when
/// it parses as an unsigned 16-bit integer, and 23 otherwise.
pub open spec fn spec_port_of(s: Seq<char>) -> u16 {
    if first_colon(s) < s.len() {
        match spec_parse_u16(s.subrange(first_colon(s) + 1, s.len() as int)) {
            Some(p) => p,
            None => DEFAULT_PORT,
        }
    } else {
        DEFAULT_PORT
    }
}

/// A position before which no colon stands, and which holds a colon or the
/// end, is the first colon.
pub proof fn lemma_first_colon_is(s: Seq<char>, i: int)
    requires
        0 <= i <= s.len(),
        forall|j: int| 0 <= j < i ==> s[j] != ':',
        i < s.len() ==> s[i] == ':',
    ensures
        first_colon(s) == i,
    decreases i,
{
    if i == 0 {
    } else {
        assert(s[0] != ':');
        assert(forall|j: int| 0 <= j < i - 1 ==> s.drop_first()[j] == s[j + 1]);
        lemma_first_colon_is(s.drop_first(), i - 1);
    }
}

/// Law: a target string without a colon is all host, and its port is the
/// default, 23.
pub proof fn lemma_no_colon_defaults(s: Seq<char>)
    requires
        forall|i: int| 0 <= i < s.len() ==> s[i] != ':',
    ensures
        spec_host_of(s) == s,
        spec_port_of(s) == DEFAULT_PORT,
{
    lemma_first_colon_is(s, s.len() as int);
    assert(s.subrange(0, s.len() as int) =~= s);
}

/// Law: when the text after the colon does not parse as an unsigned
/// 16-bit integer, the port falls back to the default, 23 — never an
/// error.
pub proof fn lemma_bad_port_defaults(s: Seq<char>)
    requires
        first_colon(s) < s.len(),
        spec_parse_u16(s.subrange(first_colon(s) + 1, s.len() as int)) is None,
    ensures
        spec_port_of(s) == DEFAULT_PORT,
{
}

/// The value of a digit run is never negative.
proof fn lemma_digits_val_nonneg(s: Seq<char>)
    requires
        all_digits(s),
    ensures
        digits_val(s) >= 0,
    decreases s.len(),
{
    if s.len() > 0 {
        assert(all_digits(s.drop_last()));
        lemma_digits_val_nonneg(s.drop_last());
    }
}

/// Extending a digit run never shrinks its value.
proof fn lemma_digits_val_prefix(s: Seq<char>, m: int)
    requires
        all_digits(s),
        0 <= m <= s.len(),
    ensures
        digits_val(s) >= digits_val(s.subrange(0, m)),
    decreases s.len() - m,
{
    if m == s.len() {
        assert(s.subrange(0, m) =~= s);
    } else {
        let p = s.subrange(0, m);
        let q = s.subrange(0, m + 1);
        assert(q.drop_last() =~= p);
        assert(all_digits(p)) by {
            assert(forall|k: int| 0 <= k < p.len() ==> p[k] == s[k]);
        }
        lemma_digits_val_nonneg(p);
        assert(spec_is_digit(q.last()));
        assert(digits_val(q) == digits_val(p) * 10 + (q.last() as u32 - 48));
        assert(digits_val(q) >= digits_val(p));
        lemma_digits_val_prefix(s, m + 1);
    }
}

/// Parse text as an unsigned 16-bit integer, exactly as the standard
/// decimal parser does: an optional leading `+`, then digits; empty text,
/// a stray character or a value over 65535 all fail.
pub fn parse_port_text(s: &str) -> (r: Option<u16>)
    ensures
        r == spec_parse_u16(s@),
{
    let n = s.unicode_len();
    let mut start: usize = 0;
    if n > 0 && s.get_char(0) == '+' {
        start = 1;
    }
    let ghost body = if s@.len() > 0 && s@[0] == '+' {
        s@.drop_first()
    } else {
        s@
    };
    assert(body =~= s@.subrange(start as int, n as int));
    if start == n {
        assert(body.len() == 0);
        return None;
    }
    let mut val: u32 = 0;
    let mut i: usize = start;
    while i < n
        invariant
            start <= i <= n,
            n == s@.len(),
            start <= 1,
            body == s@.subrange(start as int, n as int),
            body == (if s@.len() > 0 && s@[0] == '+' {
                s@.drop_first()
            } else {
                s@
            }),
            all_digits(body.subrange(0, i - start)),
            val == digits_val(body.subrange(0, i - start)),
            val <= 65535,
        decreases n - i,
    {
        let c = s.get_char(i);
        let cv = c as u32;
        let ghost k = i - start;
        proof {
            assert(body[k] == s@[i as int]);
        }
        if cv < 48 || cv > 57 {
            proof {
                assert(0 <= k < body.len() && !spec_is_digit(body[k]));
                assert(!all_digits(body));
                assert(spec_parse_u16(s@) is None);
            }
            return None;
        }
        let d = cv - 48;
        let next = val * 10 + d;
        proof {
            let p = body.subrange(0, k);
            let q = body.subrange(0, k + 1);
            assert(q.drop_last() =~= p);
            assert(q.last() == body[k]);
            assert(digits_val(q) == digits_val(p) * 10 + (body[k] as u32 - 48));
            assert(all_digits(q));
        }
        if next > 65535 {
            proof {
                if all_digits(body) {
                    lemma_digits_val_prefix(body, k + 1);
                    assert(digits_val(body) > 65535);
                }
                assert(spec_parse_u16(s@) is None);
            }
            return None;
        }
        val = next;
        i += 1;
    }
    assert(body.subrange(0, n - start) =~= body);
    assert(all_digits(body) && digits_val(body) == val <= 65535);
    Some(val as u16)
}

impl Connection {
    /// Split a `host[:port]` string at its first colon; the port defaults
    /// to 23 when absent, and silently falls back to 23 when the text does
    /// not parse as an unsigned 16-bit integer.
    pub fn parse(url: &str) -> (r: (&str, u16))
        ensures
            r.0@ == spec_host_of(url@),
            r.1 == spec_port_of(url@),
    {
        let n = url.unicode_len();
        let mut i: usize = 0;
        while i < n
            invariant
                0 <= i <= n,
                n == url@.len(),
                forall|j: int| 0 <= j < i ==> url@[j] != ':',
            ensures
                0 <= i <= n,
                n == url@.len(),
                forall|j: int| 0 <= j < i ==> url@[j] != ':',
                i < n ==> url@[i as int] == ':',
            decreases n - i,
        {
            if url.get_char(i) == ':' {
                break;
            }
            i += 1;
        }
        proof {
            lemma_first_colon_is(url@, i as int);
        }
        let host = url.substring_char(0, i);
        if i < n {
            let port_text = url.substring_char(i + 1, n);
            match parse_port_text(port_text) {
                Some(p) => (host, p),
                None => (host, DEFAULT_PORT),
            }
        } else {
            (host, DEFAULT_PORT)
        }
    }
}

/// Whether the host is taken for an IP literal: its final character is a
/// decimal digit.
pub open spec fn spec_is_ip_literal(s: Seq<char>) -> bool {
    s.len() > 0 && spec_is_digit(s.last())
}

/// Classify a host: an IP literal is parsed directly, anything else goes
/// to the external resolver.
pub fn is_ip_literal(host: &str) -> (r: bool)
    ensures
        r == spec_is_ip_literal(host@),
{
    let n = host.unicode_len();
    if n == 0 {
        return false;
    }
    let c = host.get_char(n - 1);
    let cv = c as u32;
    48 <= cv && cv <= 57
}

/// smoltcp's address type, opaque here: it is produced by the trusted
/// parser below, carried through, and only read again outside the library.
#[verifier::external_type_specification]
#[verifier::external_body]
pub struct ExIpAddress(IpAddress);

/// Whether smoltcp's address grammar accepts the text. The result depends
/// on the characters alone.
pub uninterp spec fn ip_literal_ok(s: Seq<char>) -> bool;

/// Relies on smoltcp's `FromStr` for `wire::IpAddress`: the text parses as
/// an IPv4 or IPv6 address or not, from its characters alone.
#[verifier::external_body]
fn parse_ip(host: &str) -> (r: Option<IpAddress>)
    ensures
        r is Some <==> ip_literal_ok(host@),
{
    match <IpAddress as core::str::FromStr>::from_str(host) {
        Ok(a) => Some(a),
        Err(_) => None,
    }
}

/// Parse an IP-literal host as a concrete address; a host that does not
/// parse is a malformed literal, never handed to the resolver.
pub fn literal_address(host: &str) -> (r: Result<IpAddress, TelnetError>)
    ensures
        r is Ok <==> ip_literal_ok(host@),
        r matches Err(e) ==> e == TelnetError::InvalidAddressFormat,
{
    match parse_ip(host) {
        Some(a) => Ok(a),
        None => Err(TelnetError::InvalidAddressFormat),
    }
}

/// Surface the external resolver's outcome: an address as it stands, a
/// failure as `ResolutionFailure`.
pub fn resolved_address(outcome: Option<IpAddress>) -> (r: Result<IpAddress, TelnetError>)
    ensures
        match outcome {
            Some(a) => r matches Ok(x) && x == a,
            None => r matches Err(e) && e == TelnetError::ResolutionFailure,
        },
{
    match outcome {
        Some(a) => Ok(a),
        None => Err(TelnetError::ResolutionFailure),
    }
}

} // verus!
