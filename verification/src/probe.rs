//! Probe handling: the fixed HTTP request sent through each candidate proxy,
//! and the decoding of the raw response bytes into a probe outcome.

use vstd::prelude::*;
use vstd::string::StringExecFns;

verus! {

/// The structured payload of a successful probe: the client IP the
/// diagnostic endpoint observed, and the organization name it reported, where
/// the response carried them as top-level string fields.
pub struct ProbePayload {
    pub client_ip: Option<String>,
    pub as_organization: Option<String>,
}

/// The mathematical value of a `ProbePayload`.
pub ghost struct PayloadView {
    pub client_ip: Option<Seq<char>>,
    pub as_organization: Option<Seq<char>>,
}

impl View for ProbePayload {
    type V = PayloadView;

    open spec fn view(&self) -> PayloadView {
        PayloadView {
            client_ip: self.client_ip.deep_view(),
            as_organization: self.as_organization.deep_view(),
        }
    }
}

/// How a probe failed: the network steps, the deadline, or the response
/// itself.
#[derive(Clone, Copy, PartialEq, Eq, Structural, Debug)]
pub enum ProbeFailure {
    ConnectFailed,
    TlsFailed,
    SendFailed,
    ReceiveFailed,
    TimedOut,
    MalformedHttp,
    InvalidJson,
}

/// The result of one probe attempt: a payload, or a classified failure.
pub enum ProbeOutcome {
    Success(ProbePayload),
    Failure(ProbeFailure),
}

/// The mathematical value of a `ProbeOutcome`.
pub ghost enum OutcomeView {
    Success(PayloadView),
    Failure(ProbeFailure),
}

impl View for ProbeOutcome {
    type V = OutcomeView;

    open spec fn view(&self) -> OutcomeView {
        match self {
            ProbeOutcome::Success(p) => OutcomeView::Success(p@),
            ProbeOutcome::Failure(f) => OutcomeView::Failure(*f),
        }
    }
}

/// The probe request: one HTTP/1.1 GET for the given path, addressed to the
/// given host, with the pinned User-Agent and `Connection: close`.
pub open spec fn probe_request_spec(host: Seq<char>, path: Seq<char>) -> Seq<char> {
    "GET "@ + path + " HTTP/1.1\r\nHost: "@ + host
        + "\r\nUser-Agent: Mozilla/5.0 (Windows NT 10.0) AppleWebKit/537.36 (KHTML, like Gecko) Chrome/42.0.2311.135 Safari/537.36 Edge/12.10240\r\nConnection: close\r\n\r\n"@
}

/// Builds the probe request text for one host and path.
pub fn build_probe_request(host: &str, path: &str) -> (r: String)
    ensures
        r@ == probe_request_spec(host@, path@),
{
    let mut r = String::from_str("GET ");
    r.append(path);
    r.append(" HTTP/1.1\r\nHost: ");
    r.append(host);
    r.append(
        "\r\nUser-Agent: Mozilla/5.0 (Windows NT 10.0) AppleWebKit/537.36 (KHTML, like Gecko) Chrome/42.0.2311.135 Safari/537.36 Edge/12.10240\r\nConnection: close\r\n\r\n",
    );
    proof {
        assert(r@ =~= probe_request_spec(host@, path@));
    }
    r
}

/// A CRLF CRLF separator beginning at index `i`.
pub open spec fn sep_at(s: Seq<u8>, i: int) -> bool {
    &&& i + 4 <= s.len()
    &&& s[i] == 13
    &&& s[i + 1] == 10
    &&& s[i + 2] == 13
    &&& s[i + 3] == 10
}

/// The first CRLF CRLF separator at or after `start`, if any.
pub open spec fn find_sep_from(s: Seq<u8>, start: int) -> Option<int>
    decreases s.len() - start,
{
    if start + 4 > s.len() {
        None
    } else if sep_at(s, start) {
        Some(start)
    } else {
        find_sep_from(s, start + 1)
    }
}

/// Where the response's header block ends: the first CRLF CRLF separator.
pub open spec fn header_end(s: Seq<u8>) -> Option<int> {
    find_sep_from(s, 0)
}

/// Finds the first CRLF CRLF separator of the response, if any.
fn find_header_end(resp: &[u8]) -> (r: Option<usize>)
    ensures
        match r {
            Some(i) => header_end(resp@) == Some(i as int) && i + 4 <= resp@.len(),
            None => header_end(resp@) is None,
        },
{
    let n = resp.len();
    let mut i: usize = 0;
    while n - i >= 4
        invariant
            i <= n,
            n == resp@.len(),
            find_sep_from(resp@, 0) == find_sep_from(resp@, i as int),
        decreases n - i,
    {
        if resp[i] == 13 && resp[i + 1] == 10 && resp[i + 2] == 13 && resp[i + 3] == 10 {
            return Some(i);
        }
        i = i + 1;
    }
    None
}

/// An ASCII whitespace byte: space, tab, line feed or carriage return.
pub open spec fn is_ascii_space(b: u8) -> bool {
    b == 32 || b == 9 || b == 10 || b == 13
}

/// The body with its surrounding ASCII whitespace removed: leading whitespace
/// first, then trailing.
pub open spec fn trim_spec(s: Seq<u8>) -> Seq<u8>
    decreases s.len(),
{
    if s.len() == 0 {
        s
    } else if is_ascii_space(s[0]) {
        trim_spec(s.drop_first())
    } else if is_ascii_space(s.last()) {
        trim_spec(s.drop_last())
    } else {
        s
    }
}

/// Whether a byte is ASCII whitespace.
fn is_space_byte(b: u8) -> (r: bool)
    ensures
        r == is_ascii_space(b),
{
    b == 32 || b == 9 || b == 10 || b == 13
}

/// Trims ASCII whitespace from both ends of a byte string.
fn trim_bytes(s: &[u8]) -> (r: &[u8])
    ensures
        r@ == trim_spec(s@),
{
    let n = s.len();
    let mut lo: usize = 0;
    let mut hi: usize = n;
    proof {
        assert(s@.subrange(0, n as int) =~= s@);
    }
    while lo < hi && is_space_byte(s[lo])
        invariant
            0 <= lo <= hi <= n,
            n == s@.len(),
            trim_spec(s@) == trim_spec(s@.subrange(lo as int, hi as int)),
        decreases hi - lo,
    {
        proof {
            let sub = s@.subrange(lo as int, hi as int);
            assert(sub[0] == s@[lo as int]);
            assert(sub.drop_first() =~= s@.subrange(lo + 1, hi as int));
        }
        lo = lo + 1;
    }
    while hi > lo && is_space_byte(s[hi - 1])
        invariant
            0 <= lo <= hi <= n,
            n == s@.len(),
            trim_spec(s@) == trim_spec(s@.subrange(lo as int, hi as int)),
            lo < hi ==> !is_ascii_space(s@[lo as int]),
        decreases hi - lo,
    {
        proof {
            let sub = s@.subrange(lo as int, hi as int);
            assert(sub[0] == s@[lo as int]);
            assert(sub.last() == s@[hi - 1]);
            assert(sub.drop_last() =~= s@.subrange(lo as int, hi - 1));
        }
        hi = hi - 1;
    }
    proof {
        let sub = s@.subrange(lo as int, hi as int);
        if lo < hi {
            assert(sub[0] == s@[lo as int]);
            assert(sub.last() == s@[hi - 1]);
        }
        assert(trim_spec(sub) == sub);
    }
    &s[lo..hi]
}

/// What decoding the response body yields: if the (whitespace-trimmed) bytes
/// are a JSON document, the values of its top-level string fields under the
/// two given keys, each `None` where the key is missing or its value is not a
/// string; `None` as a whole where the bytes are not JSON. The JSON grammar
/// itself is not restated here.
pub uninterp spec fn json_string_fields(
    body: Seq<u8>,
    ip_key: Seq<char>,
    org_key: Seq<char>,
) -> Option<PayloadView>;

/// The view of an optional payload.
pub open spec fn payload_opt_view(r: Option<ProbePayload>) -> Option<PayloadView> {
    match r {
        Some(p) => Some(p@),
        None => None,
    }
}

/// Relies on `serde_json::from_slice` to parse the body, and on
/// `serde_json::Value::get` to look up the two keys in the parsed document:
/// both are functions of the bytes and keys alone.
#[verifier::external_body]
fn parse_json_string_fields(body: &[u8], ip_key: &str, org_key: &str) -> (r: Option<ProbePayload>)
    ensures
        payload_opt_view(r) == json_string_fields(body@, ip_key@, org_key@),
{
    let value: serde_json::Value = match serde_json::from_slice(body) {
        Ok(v) => v,
        Err(_) => return None,
    };
    let client_ip = match value.get(ip_key) {
        Some(serde_json::Value::String(s)) => Some(s.clone()),
        _ => None,
    };
    let as_organization = match value.get(org_key) {
        Some(serde_json::Value::String(s)) => Some(s.clone()),
        _ => None,
    };
    Some(ProbePayload { client_ip, as_organization })
}

/// What a raw response decodes to. Without a CRLF CRLF separator the response
/// is malformed; otherwise the bytes after the first separator, trimmed, must
/// parse as JSON, and the probe succeeds with the `clientIp` and
/// `asOrganization` string fields of the document.
pub open spec fn response_outcome_spec(s: Seq<u8>) -> OutcomeView {
    match header_end(s) {
        None => OutcomeView::Failure(ProbeFailure::MalformedHttp),
        Some(i) => match json_string_fields(
            trim_spec(s.skip(i + 4)),
            "clientIp"@,
            "asOrganization"@,
        ) {
            None => OutcomeView::Failure(ProbeFailure::InvalidJson),
            Some(p) => OutcomeView::Success(p),
        },
    }
}

/// Decodes the accumulated response bytes of one probe: splits headers from
/// body at the first blank line and parses the trimmed body as JSON.
pub fn parse_probe_response(resp: &[u8]) -> (r: ProbeOutcome)
    ensures
        r@ == response_outcome_spec(resp@),
{
    match find_header_end(resp) {
        None => ProbeOutcome::Failure(ProbeFailure::MalformedHttp),
        Some(i) => {
            let end = resp.len();
            let body = trim_bytes(&resp[i + 4..end]);
            proof {
                assert(resp@.subrange(i + 4, resp@.len() as int) =~= resp@.skip(i + 4));
            }
            match parse_json_string_fields(body, "clientIp", "asOrganization") {
                None => ProbeOutcome::Failure(ProbeFailure::InvalidJson),
                Some(p) => ProbeOutcome::Success(p),
            }
        },
    }
}

/// The outcome after the timeout guard: what the probe produced if it
/// finished within the deadline, and a timed-out failure if it did not.
pub fn resolve_probe(completed: Option<ProbeOutcome>) -> (r: ProbeOutcome)
    ensures
        r@ == match completed {
            Some(o) => o@,
            None => OutcomeView::Failure(ProbeFailure::TimedOut),
        },
{
    match completed {
        Some(o) => o,
        None => ProbeOutcome::Failure(ProbeFailure::TimedOut),
    }
}

/// The host of the diagnostic endpoint every probe is aimed at.
pub fn resolver_host() -> (r: &'static str)
    ensures
        r@ == "speed.cloudflare.com"@,
{
    "speed.cloudflare.com"
}

/// The path requested from the diagnostic endpoint.
pub fn resolver_path() -> (r: &'static str)
    ensures
        r@ == "/meta"@,
{
    "/meta"
}

} // verus!
