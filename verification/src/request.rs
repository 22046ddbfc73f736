//! Proxy-aware request planning: the HTTP verb chosen for a method string,
//! the transport a proxy configuration routes through, and the structured
//! result a finished or failed dispatch settles into.

use vstd::prelude::*;

verus! {

/// Options handed along with a request: method string, header pairs, body.
#[derive(Debug)]
pub struct ProxyRequestOptions {
    pub method: Option<String>,
    pub headers: Option<Vec<(String, String)>>,
    pub body: Option<String>,
}

/// The structured result of one dispatch; a transport failure is reported
/// here, never raised.
#[derive(Debug)]
pub struct ProxyResponse {
    pub ok: bool,
    pub status_code: Option<u16>,
    pub data: Option<String>,
    pub error: Option<String>,
}

/// A user-configured HTTP proxy.
#[derive(Debug)]
pub struct ProxySettings {
    pub enabled: bool,
    pub protocol: String,
    pub host: String,
    pub port: u16,
    pub username: Option<String>,
    pub password: Option<String>,
}

/// The five verbs the dispatcher recognizes.
#[derive(Clone, Copy, Debug, PartialEq, Eq, Structural)]
pub enum Method {
    Get,
    Post,
    Put,
    Delete,
    Patch,
}

/// The code point of `c` with an ASCII lowercase letter folded to its
/// uppercase counterpart.
pub open spec fn upper_code(c: char) -> int {
    if 97 <= c as u32 <= 122 {
        c as u32 - 32
    } else {
        c as u32 as int
    }
}

/// ASCII-case-insensitive equality of two character sequences.
pub open spec fn eq_icase(a: Seq<char>, b: Seq<char>) -> bool {
    a.len() == b.len() && forall|k: int| 0 <= k < a.len() ==> upper_code(a[k]) == upper_code(b[k])
}

/// ASCII-case-insensitive equality of two string slices.
pub fn eq_ignore_ascii_case(a: &str, b: &str) -> (r: bool)
    ensures
        r == eq_icase(a@, b@),
{
    let an = a.unicode_len();
    let bn = b.unicode_len();
    if an != bn {
        return false;
    }
    let mut i: usize = 0;
    while i < an
        invariant
            0 <= i <= an,
            an == a@.len(),
            an == b@.len(),
            forall|k: int| 0 <= k < i ==> upper_code(a@[k]) == upper_code(b@[k]),
        decreases an - i,
    {
        let ca = a.get_char(i) as u32;
        let cb = b.get_char(i) as u32;
        let ua = if 97 <= ca && ca <= 122 {
            ca - 32
        } else {
            ca
        };
        let ub = if 97 <= cb && cb <= 122 {
            cb - 32
        } else {
            cb
        };
        if ua != ub {
            return false;
        }
        i += 1;
    }
    true
}

/// The verb a method string selects: the five supported verbs are matched
/// ASCII-case-insensitively, and anything else deliberately falls back to
/// `Get`.
pub open spec fn method_of(v: Seq<char>) -> Method {
    if eq_icase(v, "POST"@) {
        Method::Post
    } else if eq_icase(v, "PUT"@) {
        Method::Put
    } else if eq_icase(v, "DELETE"@) {
        Method::Delete
    } else if eq_icase(v, "PATCH"@) {
        Method::Patch
    } else {
        Method::Get
    }
}

/// Selects the verb for a method string.
pub fn parse_method(s: &str) -> (r: Method)
    ensures
        r == method_of(s@),
{
    if eq_ignore_ascii_case(s, "POST") {
        Method::Post
    } else if eq_ignore_ascii_case(s, "PUT") {
        Method::Put
    } else if eq_ignore_ascii_case(s, "DELETE") {
        Method::Delete
    } else if eq_ignore_ascii_case(s, "PATCH") {
        Method::Patch
    } else {
        Method::Get
    }
}

/// The five verbs are each selected by their own name, in either case, and
/// every unrecognized method string falls back to `Get`.
pub proof fn lemma_method_dispatch(v: Seq<char>)
    ensures
        eq_icase(v, "GET"@) ==> method_of(v) == Method::Get,
        eq_icase(v, "POST"@) ==> method_of(v) == Method::Post,
        eq_icase(v, "PUT"@) ==> method_of(v) == Method::Put,
        eq_icase(v, "DELETE"@) ==> method_of(v) == Method::Delete,
        eq_icase(v, "PATCH"@) ==> method_of(v) == Method::Patch,
        !eq_icase(v, "GET"@) && !eq_icase(v, "POST"@) && !eq_icase(v, "PUT"@) && !eq_icase(
            v,
            "DELETE"@,
        ) && !eq_icase(v, "PATCH"@) ==> method_of(v) == Method::Get,
{
    reveal_strlit("GET");
    reveal_strlit("POST");
    reveal_strlit("PUT");
    reveal_strlit("DELETE");
    reveal_strlit("PATCH");
    if eq_icase(v, "GET"@) {
        assert(upper_code(v[0]) == upper_code("GET"@[0]));
        assert(upper_code(v[0]) == 71);
        if eq_icase(v, "PUT"@) {
            assert(upper_code(v[0]) == upper_code("PUT"@[0]));
        }
        assert(!eq_icase(v, "PUT"@));
        assert(!eq_icase(v, "POST"@));
        assert(!eq_icase(v, "DELETE"@));
        assert(!eq_icase(v, "PATCH"@));
    }
    if eq_icase(v, "PUT"@) {
        assert(upper_code(v[0]) == upper_code("PUT"@[0]));
        assert(upper_code(v[0]) == 80);
        assert(!eq_icase(v, "POST"@));
        assert(!eq_icase(v, "DELETE"@));
        if eq_icase(v, "PATCH"@) {
            assert(upper_code(v[1]) == upper_code("PUT"@[1]));
            assert(upper_code(v[1]) == upper_code("PATCH"@[1]));
        }
        assert(!eq_icase(v, "PATCH"@));
    }
    if eq_icase(v, "POST"@) {
        if eq_icase(v, "PATCH"@) {
            assert(upper_code(v[1]) == upper_code("POST"@[1]));
            assert(upper_code(v[1]) == upper_code("PATCH"@[1]));
        }
        assert(!eq_icase(v, "PATCH"@));
        assert(!eq_icase(v, "DELETE"@));
    }
    if eq_icase(v, "DELETE"@) {
        assert(upper_code(v[0]) == upper_code("DELETE"@[0]));
        assert(!eq_icase(v, "PATCH"@));
    }
}

/// The decimal digit characters.
pub open spec fn dec_digit(d: int) -> char {
    if d == 0 {
        '0'
    } else if d == 1 {
        '1'
    } else if d == 2 {
        '2'
    } else if d == 3 {
        '3'
    } else if d == 4 {
        '4'
    } else if d == 5 {
        '5'
    } else if d == 6 {
        '6'
    } else if d == 7 {
        '7'
    } else if d == 8 {
        '8'
    } else {
        '9'
    }
}

/// The decimal digit string of a non-negative number, no sign, no leading
/// zero except for zero itself.
pub open spec fn dec_chars(n: int) -> Seq<char>
    decreases n,
{
    if n < 10 {
        seq![dec_digit(n)]
    } else {
        dec_chars(n / 10).push(dec_digit(n % 10))
    }
}

fn digit_str(d: u16) -> (r: &'static str)
    requires
        d < 10,
    ensures
        r@ =~= seq![dec_digit(d as int)],
{
    proof {
        reveal_strlit("0");
        reveal_strlit("1");
        reveal_strlit("2");
        reveal_strlit("3");
        reveal_strlit("4");
        reveal_strlit("5");
        reveal_strlit("6");
        reveal_strlit("7");
        reveal_strlit("8");
        reveal_strlit("9");
    }
    match d {
        0 => "0",
        1 => "1",
        2 => "2",
        3 => "3",
        4 => "4",
        5 => "5",
        6 => "6",
        7 => "7",
        8 => "8",
        _ => "9",
    }
}

/// The decimal rendering of a port number.
pub fn u16_string(n: u16) -> (r: String)
    ensures
        r@ == dec_chars(n as int),
    decreases n,
{
    if n < 10 {
        digit_str(n).to_owned()
    } else {
        let mut r = u16_string(n / 10);
        r.append(digit_str(n % 10));
        r
    }
}

/// The proxy URL a configuration routes through.
pub open spec fn proxy_url_of(s: ProxySettings) -> Seq<char> {
    s.protocol@ + "://"@ + s.host@ + ":"@ + dec_chars(s.port as int)
}

/// The route a dispatch takes: `None` for a direct transport, `Some(url)`
/// for one through the proxy at `url`.
pub open spec fn route_of(p: Option<ProxySettings>) -> Option<Seq<char>> {
    match p {
        Some(s) => if s.enabled {
            Some(proxy_url_of(s))
        } else {
            None
        },
        None => None,
    }
}

/// The transport a dispatch is built on.
#[derive(Debug)]
pub enum Transport {
    Direct,
    Proxied { url: String },
}

/// A configuration with `enabled` false routes exactly as no configuration
/// at all: both build the direct transport.
pub proof fn lemma_disabled_proxy_is_direct(s: ProxySettings)
    requires
        !s.enabled,
    ensures
        route_of(Some(s)) == route_of(None),
        route_of(Some(s)) is None,
{
}

/// Builds the transport selection for the stored proxy configuration: the
/// proxy URL when one is set and enabled, the direct transport otherwise.
pub fn build_transport(p: &Option<ProxySettings>) -> (r: Transport)
    ensures
        route_of(*p) is None ==> r is Direct,
        route_of(*p) matches Some(u) ==> (r matches Transport::Proxied { url } && url@ == u),
{
    match p {
        Some(s) => {
            if s.enabled {
                let mut url = s.protocol.clone();
                url.append("://");
                url.append(s.host.as_str());
                url.append(":");
                let port = u16_string(s.port);
                url.append(port.as_str());
                Transport::Proxied { url }
            } else {
                Transport::Direct
            }
        },
        None => Transport::Direct,
    }
}

/// Everything a dispatch needs, resolved from the caller's options and the
/// proxy configuration before any network work starts.
#[derive(Debug)]
pub struct RequestPlan {
    pub url: String,
    pub method: Method,
    pub headers: Vec<(String, String)>,
    pub body: Option<String>,
    pub transport: Transport,
}

/// The method string a dispatch goes by: the caller's, or `"GET"` when none
/// was supplied.
pub open spec fn requested_method(options: Option<ProxyRequestOptions>) -> Method {
    match options {
        Some(o) => match o.method {
            Some(m) => method_of(m@),
            None => Method::Get,
        },
        None => Method::Get,
    }
}

/// Resolves one request: verb from the method string (case-insensitive,
/// permissive fallback to GET), headers and body carried over verbatim,
/// transport from the proxy configuration.
pub fn plan_request(url: String, options: Option<ProxyRequestOptions>, proxy: &Option<
    ProxySettings,
>) -> (r: RequestPlan)
    ensures
        r.url == url,
        r.method == requested_method(options),
        (match options {
            Some(ProxyRequestOptions { headers: Some(h), .. }) => r.headers == h,
            _ => r.headers@.len() == 0,
        }),
        (match options {
            Some(ProxyRequestOptions { body, .. }) => r.body == body,
            None => r.body is None,
        }),
        route_of(*proxy) is None ==> r.transport is Direct,
        route_of(*proxy) matches Some(u) ==> (r.transport matches Transport::Proxied { url: pu }
            && pu@ == u),
{
    let transport = build_transport(proxy);
    match options {
        Some(o) => {
            let method = match o.method {
                Some(m) => parse_method(m.as_str()),
                None => Method::Get,
            };
            let headers = match o.headers {
                Some(h) => h,
                None => Vec::new(),
            };
            RequestPlan { url, method, headers, body: o.body, transport }
        },
        None => RequestPlan {
            url,
            method: Method::Get,
            headers: Vec::new(),
            body: None,
            transport,
        },
    }
}

/// How one dispatch ended at the transport level: a response came back, or
/// the transport itself failed.
#[derive(Debug)]
pub enum DispatchOutcome {
    Completed { status: u16, body: String },
    TransportFailed { message: String },
}

/// Settles a finished dispatch into the structured response: a completed
/// exchange reports its status and raw body, `ok` exactly on a success
/// status; a transport failure reports only the error message.
pub fn settle_response(outcome: DispatchOutcome) -> (r: ProxyResponse)
    ensures
        (outcome matches DispatchOutcome::Completed { status, body } ==> r.ok == (200 <= status
            < 300) && r.status_code == Some(status) && r.data == Some(body) && r.error is None),
        (outcome matches DispatchOutcome::TransportFailed { message } ==> r.ok == false
            && r.status_code is None && r.data is None && r.error == Some(message)),
{
    match outcome {
        DispatchOutcome::Completed { status, body } => ProxyResponse {
            ok: 200 <= status && status < 300,
            status_code: Some(status),
            data: Some(body),
            error: None,
        },
        DispatchOutcome::TransportFailed { message } => ProxyResponse {
            ok: false,
            status_code: None,
            data: None,
            error: Some(message),
        },
    }
}

} // verus!
