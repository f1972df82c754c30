//! Where a request goes: the address of the service, the way through a proxy, and the answers of
//! both before any data comes.
use crate::llm::{LlmClient, LlmError, LlmErrorV};
use crate::text::{
    chars_of, decimal, decimal_text, find, find_chars, law_what_stands_there_is_found,
    lemma_find_from, lossy_text, lossy_utf8, occurs_at, same,
    starts_with, string_of,
};
use crate::views::opt_view;
use vstd::prelude::*;

verus! {

/// The parts of a URI that a request needs.
#[derive(Debug)]
pub struct UriParts {
    pub scheme: Option<String>,
    pub host: Option<String>,
    pub port: Option<u16>,
    pub path_and_query: Option<String>,
}

/// What [`UriParts`] stands for.
pub struct UriPartsV {
    pub scheme: Option<Seq<char>>,
    pub host: Option<Seq<char>>,
    pub port: Option<u16>,
    pub path_and_query: Option<Seq<char>>,
}

impl View for UriParts {
    type V = UriPartsV;

    open spec fn view(&self) -> UriPartsV {
        UriPartsV {
            scheme: opt_view(self.scheme),
            host: opt_view(self.host),
            port: self.port,
            path_and_query: opt_view(self.path_and_query),
        }
    }
}

/// What `http::Uri` reads from a text: scheme, host, port, path and query; or what it says of a text
/// that is no URI.
pub uninterp spec fn uri_parts(text: Seq<char>) -> Result<UriPartsV, Seq<char>>;

/// The view of parsed parts.
pub open spec fn parsed_view(r: Result<UriParts, String>) -> Result<UriPartsV, Seq<char>> {
    match r {
        Ok(p) => Ok(p@),
        Err(e) => Err(e@),
    }
}

/// Reads a text with `http::Uri` and takes out what `scheme_str`, `host`, `port_u16` and
/// `path_and_query` give; the error is what its `Display` prints.
#[verifier::external_body]
fn parse_uri(text: &str) -> (r: Result<UriParts, String>)
    ensures
        parsed_view(r) == uri_parts(text@),
{
    match text.parse::<http::Uri>() {
        Ok(u) => Ok(UriParts {
            scheme: u.scheme_str().map(|s| s.to_string()),
            host: u.host().map(|s| s.to_string()),
            port: u.port_u16(),
            path_and_query: u.path_and_query().map(|p| p.as_str().to_string()),
        }),
        Err(e) => Err(e.to_string()),
    }
}

/// Where a service is.
#[derive(Debug)]
pub struct Endpoint {
    pub host: String,
    pub port: u16,
    pub is_https: bool,
    /// What is asked for there.
    pub path: String,
    /// Host and port.
    pub addr: String,
}

/// What an [`Endpoint`] stands for.
pub struct EndpointV {
    pub host: Seq<char>,
    pub port: u16,
    pub is_https: bool,
    pub path: Seq<char>,
    pub addr: Seq<char>,
}

impl View for Endpoint {
    type V = EndpointV;

    open spec fn view(&self) -> EndpointV {
        EndpointV {
            host: self.host@,
            port: self.port,
            is_https: self.is_https,
            path: self.path@,
            addr: self.addr@,
        }
    }
}

/// Host and port, as they are written in an address.
pub open spec fn address(host: Seq<char>, port: u16) -> Seq<char> {
    host + ":"@ + decimal(port as nat)
}

/// Where the service is that a URI names. Without a port it is 443 for `https` and 80 for all else.
pub open spec fn endpoint_for(parts: Result<UriPartsV, Seq<char>>) -> Result<
    EndpointV,
    LlmErrorV,
> {
    match parts {
        Err(e) => Err(LlmErrorV::BadUrl(e)),
        Ok(p) => match p.host {
            None => Err(LlmErrorV::BadUrl("no host"@)),
            Some(host) => {
                let is_https = p.scheme == Some("https"@);
                let port: u16 = match p.port {
                    Some(n) => n,
                    None => if is_https {
                        443
                    } else {
                        80
                    },
                };
                Ok(
                    EndpointV {
                        host,
                        port,
                        is_https,
                        path: match p.path_and_query {
                            Some(q) => q,
                            None => "/v1/chat/completions"@,
                        },
                        addr: address(host, port),
                    },
                )
            },
        },
    }
}

/// The address of the proxy that a URI names. Without a port it is 8080.
pub open spec fn proxy_for(parts: Result<UriPartsV, Seq<char>>) -> Result<Seq<char>, LlmErrorV> {
    match parts {
        Err(e) => Err(LlmErrorV::BadUrl("invalid proxy URL: "@ + e)),
        Ok(p) => match p.host {
            None => Err(LlmErrorV::BadUrl("proxy URL has no host"@)),
            Some(host) => Ok(
                address(
                    host,
                    match p.port {
                        Some(n) => n,
                        None => 8080,
                    },
                ),
            ),
        },
    }
}

/// Host and port, as they are written in an address.
fn make_address(host: &str, port: u16) -> (r: String)
    ensures
        r@ == address(host@, port),
{
    let mut r = host.to_owned();
    r.push_str(":");
    r.push_str(decimal_text(port as u64).as_str());
    r
}

/// The view of what is an endpoint or an error.
pub open spec fn endpoint_view(r: Result<Endpoint, LlmError>) -> Result<EndpointV, LlmErrorV> {
    match r {
        Ok(e) => Ok(e@),
        Err(e) => Err(e@),
    }
}

/// Where the service is that a URI names.
pub fn endpoint_of(parts: Result<UriParts, String>) -> (r: Result<Endpoint, LlmError>)
    ensures
        endpoint_view(r) == endpoint_for(parsed_view(parts)),
{
    match parts {
        Err(e) => Err(LlmError::BadUrl(e)),
        Ok(p) => match p.host {
            None => Err(LlmError::BadUrl("no host".to_owned())),
            Some(host) => {
                let is_https = match &p.scheme {
                    Some(s) => same(s.as_str(), "https"),
                    None => false,
                };
                let port: u16 = match p.port {
                    Some(n) => n,
                    None => if is_https {
                        443
                    } else {
                        80
                    },
                };
                let path = match p.path_and_query {
                    Some(q) => q,
                    None => "/v1/chat/completions".to_owned(),
                };
                let addr = make_address(host.as_str(), port);
                Ok(Endpoint { host, port, is_https, path, addr })
            },
        },
    }
}

/// The view of what is a text or an error.
pub open spec fn text_view(r: Result<String, LlmError>) -> Result<Seq<char>, LlmErrorV> {
    match r {
        Ok(t) => Ok(t@),
        Err(e) => Err(e@),
    }
}

/// The address of the proxy that a URI names.
pub fn proxy_of(parts: Result<UriParts, String>) -> (r: Result<String, LlmError>)
    ensures
        text_view(r) == proxy_for(parsed_view(parts)),
{
    match parts {
        Err(e) => {
            let mut message = "invalid proxy URL: ".to_owned();
            message.push_str(e.as_str());
            Err(LlmError::BadUrl(message))
        },
        Ok(p) => match p.host {
            None => Err(LlmError::BadUrl("proxy URL has no host".to_owned())),
            Some(host) => {
                let port: u16 = match p.port {
                    Some(n) => n,
                    None => 8080,
                };
                Ok(make_address(host.as_str(), port))
            },
        },
    }
}

/// How a request gets to the service.
#[derive(Debug)]
pub struct HttpPlan {
    /// What to connect to.
    pub connect_addr: String,
    /// Whether that is a proxy.
    pub via_proxy: bool,
    /// What to say to the proxy first, to be put through to the service.
    pub tunnel: Option<String>,
    pub tls: bool,
    /// The host of the service.
    pub host: String,
    /// What the request asks for.
    pub target: String,
    pub headers: Vec<(String, String)>,
}

/// What an [`HttpPlan`] stands for.
pub struct HttpPlanV {
    pub connect_addr: Seq<char>,
    pub via_proxy: bool,
    pub tunnel: Option<Seq<char>>,
    pub tls: bool,
    pub host: Seq<char>,
    pub target: Seq<char>,
    pub headers: Seq<(Seq<char>, Seq<char>)>,
}

impl View for HttpPlan {
    type V = HttpPlanV;

    open spec fn view(&self) -> HttpPlanV {
        HttpPlanV {
            connect_addr: self.connect_addr@,
            via_proxy: self.via_proxy,
            tunnel: opt_view(self.tunnel),
            tls: self.tls,
            host: self.host@,
            target: self.target@,
            headers: self.headers@.map_values(|h: (String, String)| (h.0@, h.1@)),
        }
    }
}

/// The headers of a request.
pub open spec fn headers_for(host: Seq<char>, api_key: Seq<char>) -> Seq<(Seq<char>, Seq<char>)> {
    seq![
        ("Host"@, host),
        ("Content-Type"@, "application/json"@),
        ("Authorization"@, "Bearer "@ + api_key),
        ("Connection"@, "close"@),
    ]
}

/// How a request gets to a service, directly or through the proxy at `proxy`: to `https` by a
/// tunnel, to all else by naming the whole URL to the proxy.
pub open spec fn plan_for(
    endpoint: EndpointV,
    proxy: Option<Seq<char>>,
    url: Seq<char>,
    api_key: Seq<char>,
) -> HttpPlanV {
    HttpPlanV {
        connect_addr: match proxy {
            Some(addr) => addr,
            None => endpoint.addr,
        },
        via_proxy: proxy is Some,
        tunnel: if proxy is Some && endpoint.is_https {
            Some(
                "CONNECT "@ + endpoint.addr + " HTTP/1.1\r\nHost: "@ + endpoint.addr
                    + "\r\n\r\n"@,
            )
        } else {
            None
        },
        tls: endpoint.is_https,
        host: endpoint.host,
        target: if proxy is None {
            endpoint.path
        } else if endpoint.is_https {
            "/v1/chat/completions"@
        } else {
            url
        },
        headers: headers_for(endpoint.host, api_key),
    }
}

/// How a request gets to a service.
pub fn plan_to(endpoint: Endpoint, proxy: Option<String>, url: &str, api_key: &str) -> (r: HttpPlan)
    ensures
        r@ == plan_for(endpoint@, opt_view(proxy), url@, api_key@),
{
    let mut bearer = "Bearer ".to_owned();
    bearer.push_str(api_key);
    let mut headers: Vec<(String, String)> = Vec::new();
    headers.push(("Host".to_owned(), endpoint.host.clone()));
    headers.push(("Content-Type".to_owned(), "application/json".to_owned()));
    headers.push(("Authorization".to_owned(), bearer));
    headers.push(("Connection".to_owned(), "close".to_owned()));
    assert(headers@.map_values(|h: (String, String)| (h.0@, h.1@)) =~= headers_for(
        endpoint.host@,
        api_key@,
    ));
    match proxy {
        None => HttpPlan {
            connect_addr: endpoint.addr,
            via_proxy: false,
            tunnel: None,
            tls: endpoint.is_https,
            host: endpoint.host,
            target: endpoint.path,
            headers,
        },
        Some(addr) => {
            if endpoint.is_https {
                let mut tunnel = "CONNECT ".to_owned();
                tunnel.push_str(endpoint.addr.as_str());
                tunnel.push_str(" HTTP/1.1\r\nHost: ");
                tunnel.push_str(endpoint.addr.as_str());
                tunnel.push_str("\r\n\r\n");
                HttpPlan {
                    connect_addr: addr,
                    via_proxy: true,
                    tunnel: Some(tunnel),
                    tls: true,
                    host: endpoint.host,
                    target: "/v1/chat/completions".to_owned(),
                    headers,
                }
            } else {
                HttpPlan {
                    connect_addr: addr,
                    via_proxy: true,
                    tunnel: None,
                    tls: false,
                    host: endpoint.host,
                    target: url.to_owned(),
                    headers,
                }
            }
        },
    }
}

/// The address of the chat completions of a service.
pub open spec fn completions_url(base_url: Seq<char>) -> Seq<char> {
    base_url + "/chat/completions"@
}

/// How a client's request gets to its service, or why it cannot.
pub open spec fn client_plan(
    base_url: Seq<char>,
    api_key: Seq<char>,
    proxy: Seq<char>,
) -> Result<HttpPlanV, LlmErrorV> {
    let url = completions_url(base_url);
    match endpoint_for(uri_parts(url)) {
        Err(e) => Err(e),
        Ok(endpoint) => if proxy.len() == 0 {
            Ok(plan_for(endpoint, None, url, api_key))
        } else {
            match proxy_for(uri_parts(proxy)) {
                Err(e) => Err(e),
                Ok(addr) => Ok(plan_for(endpoint, Some(addr), url, api_key)),
            }
        },
    }
}

/// The view of what is a plan or an error.
pub open spec fn plan_view(r: Result<HttpPlan, LlmError>) -> Result<HttpPlanV, LlmErrorV> {
    match r {
        Ok(p) => Ok(p@),
        Err(e) => Err(e@),
    }
}

impl LlmClient {
    /// The address of the chat completions of the service.
    pub fn url(&self) -> (r: String)
        ensures
            r@ == completions_url(self.base_url@),
    {
        let mut url = self.base_url.clone();
        url.push_str("/chat/completions");
        url
    }

    /// Where the service is.
    pub fn endpoint(&self) -> (r: Result<Endpoint, LlmError>)
        ensures
            endpoint_view(r) == endpoint_for(uri_parts(completions_url(self.base_url@))),
    {
        let url = self.url();
        endpoint_of(parse_uri(url.as_str()))
    }

    /// How a request gets to the service, or why it cannot.
    pub fn request_plan(&self) -> (r: Result<HttpPlan, LlmError>)
        ensures
            plan_view(r) == client_plan(self.base_url@, self.api_key@, self.proxy@),
    {
        let url = self.url();
        match self.endpoint() {
            Err(e) => Err(e),
            Ok(endpoint) => {
                if self.proxy.as_str().is_empty() {
                    return Ok(plan_to(endpoint, None, url.as_str(), self.api_key.as_str()));
                }
                match proxy_of(parse_uri(self.proxy.as_str())) {
                    Err(e) => Err(e),
                    Ok(addr) => Ok(
                        plan_to(endpoint, Some(addr), url.as_str(), self.api_key.as_str()),
                    ),
                }
            },
        }
    }
}

impl HttpPlan {
    /// What is said where the connection fails.
    pub fn connect_failed(&self, cause: &str) -> (r: LlmError)
        ensures
            r@ == LlmErrorV::Connect(
                if self@.via_proxy {
                    "proxy connect "@ + self@.connect_addr + ": "@ + cause@
                } else {
                    cause@
                },
            ),
    {
        if self.via_proxy {
            let mut m = "proxy connect ".to_owned();
            m.push_str(self.connect_addr.as_str());
            m.push_str(": ");
            m.push_str(cause);
            LlmError::Connect(m)
        } else {
            LlmError::Connect(cause.to_owned())
        }
    }

    /// What is said where the TLS handshake fails.
    pub fn tls_failed(&self, cause: &str) -> (r: LlmError)
        ensures
            r@ == LlmErrorV::Handshake(
                if self@.via_proxy {
                    "TLS over proxy: "@ + cause@
                } else {
                    "TLS handshake: "@ + cause@
                },
            ),
    {
        let mut m = if self.via_proxy {
            "TLS over proxy: ".to_owned()
        } else {
            "TLS handshake: ".to_owned()
        };
        m.push_str(cause);
        LlmError::Handshake(m)
    }
}

/// What the reply of a proxy to a request for a tunnel may hold at most.
pub const MAX_CONNECT_REPLY: usize = 4096;

/// What to do with the reply of a proxy after one more byte.
#[derive(Debug, Clone, Copy, PartialEq, Eq, Structural)]
pub enum ReplyStep {
    /// Read on.
    More,
    /// The head of the reply is complete.
    Complete,
    /// The reply is too long.
    TooLarge,
}

/// Whether bytes end with an empty line.
pub open spec fn ends_with_blank_line(bytes: Seq<u8>) -> bool {
    bytes.len() >= 4 && bytes.subrange(bytes.len() - 4, bytes.len() as int) == seq![
        13u8,
        10u8,
        13u8,
        10u8,
    ]
}

/// What to do with the reply of a proxy that has come so far.
pub open spec fn reply_step(bytes: Seq<u8>) -> ReplyStep {
    if ends_with_blank_line(bytes) {
        ReplyStep::Complete
    } else if bytes.len() > MAX_CONNECT_REPLY {
        ReplyStep::TooLarge
    } else {
        ReplyStep::More
    }
}

/// Takes in one more byte of the reply of a proxy.
pub fn reply_byte(reply: &mut Vec<u8>, byte: u8) -> (r: ReplyStep)
    ensures
        final(reply)@ == old(reply)@.push(byte),
        r == reply_step(final(reply)@),
{
    reply.push(byte);
    let n: usize = reply.len();
    if n >= 4 && reply[n - 4] == 13 && reply[n - 3] == 10 && reply[n - 2] == 13 && reply[n - 1]
        == 10 {
        assert(reply@.subrange(n - 4, n as int) =~= seq![13u8, 10u8, 13u8, 10u8]);
        return ReplyStep::Complete;
    }
    proof {
        if ends_with_blank_line(reply@) {
            let tail = reply@.subrange(n - 4, n as int);
            assert(tail[0] == 13u8 && tail[1] == 10u8 && tail[2] == 13u8 && tail[3] == 10u8);
        }
    }
    if n > MAX_CONNECT_REPLY {
        ReplyStep::TooLarge
    } else {
        ReplyStep::More
    }
}

/// The first line of a text, without its line break; none of a text that is empty.
pub open spec fn first_line(text: Seq<char>) -> Option<Seq<char>> {
    if text.len() == 0 {
        None
    } else {
        match find(text, seq!['\n']) {
            None => Some(text),
            Some(at) => if at > 0 && text[at - 1] == '\r' {
                Some(text.take(at - 1))
            } else {
                Some(text.take(at))
            },
        }
    }
}

/// Whether a proxy has put the request through: its reply has the status 200.
pub open spec fn put_through(text: Seq<char>) -> bool {
    "HTTP/1.1 200"@.is_prefix_of(text) || "HTTP/1.0 200"@.is_prefix_of(text)
}

/// What the reply of a proxy comes to: nothing, or an error with the first line of the reply.
pub open spec fn tunnel_error(text: Seq<char>) -> Option<LlmErrorV> {
    if put_through(text) {
        None
    } else {
        Some(
            LlmErrorV::Connect(
                "proxy CONNECT failed: "@ + match first_line(text) {
                    Some(line) => line,
                    None => "empty"@,
                },
            ),
        )
    }
}

/// The first line of a text.
fn first_line_of(text: &str) -> (r: Option<String>)
    ensures
        opt_view(r) == first_line(text@),
{
    let v = chars_of(text);
    if v.len() == 0 {
        return None;
    }
    let mut newline: Vec<char> = Vec::new();
    newline.push('\n');
    assert(newline@ =~= seq!['\n']);
    proof {
        lemma_find_from(v@, seq!['\n'], 0);
    }
    match find_chars(&v, &newline, 0) {
        None => Some(text.to_owned()),
        Some(at) => {
            if at > 0 && v[at - 1] == '\r' {
                let line = string_of(&v, 0, at - 1);
                assert(line@ =~= text@.take(at - 1));
                Some(line)
            } else {
                let line = string_of(&v, 0, at);
                assert(line@ =~= text@.take(at as int));
                Some(line)
            }
        },
    }
}

/// What the text of a proxy's reply comes to.
pub fn tunnel_reply_text(text: &str) -> (r: Result<(), LlmError>)
    ensures
        match r {
            Ok(_) => tunnel_error(text@) is None,
            Err(e) => tunnel_error(text@) == Some(e@),
        },
{
    if starts_with(text, "HTTP/1.1 200") || starts_with(text, "HTTP/1.0 200") {
        return Ok(());
    }
    let mut m = "proxy CONNECT failed: ".to_owned();
    match first_line_of(text) {
        Some(line) => {
            m.push_str(line.as_str());
        },
        None => {
            m.push_str("empty");
        },
    }
    Err(LlmError::Connect(m))
}

/// What the bytes of a proxy's reply come to.
pub fn tunnel_reply(reply: &Vec<u8>) -> (r: Result<(), LlmError>)
    ensures
        match r {
            Ok(_) => tunnel_error(lossy_utf8(reply@)) is None,
            Err(e) => tunnel_error(lossy_utf8(reply@)) == Some(e@),
        },
{
    let text = lossy_text(reply);
    tunnel_reply_text(text.as_str())
}

/// Whether a status says that a request succeeded.
pub open spec fn is_success(status: u16) -> bool {
    200 <= status < 300
}

/// Whether a status says that a request succeeded.
pub fn status_ok(status: u16) -> (r: bool)
    ensures
        r == is_success(status),
{
    200 <= status && status < 300
}

/// The error of a request that did not succeed: its status and what was answered.
pub fn status_error(status: u16, body: &Vec<u8>) -> (r: LlmError)
    ensures
        r@ == LlmErrorV::Status(status, lossy_utf8(body@)),
{
    LlmError::Status(status, lossy_text(body))
}

/// An address leads to its host, at its port or else the port of its scheme, over TLS exactly where
/// the scheme says so; what has no host, or is no address, is refused.
pub proof fn law_addresses_lead_to_their_host(p: UriPartsV, e: Seq<char>)
    ensures
        endpoint_for(Err(e)) == Err::<EndpointV, LlmErrorV>(LlmErrorV::BadUrl(e)),
        endpoint_for(Ok(p)) is Ok <==> p.host is Some,
        p.host is None ==> endpoint_for(Ok(p))->Err_0 is BadUrl,
        p.host is Some ==> {
            let r = endpoint_for(Ok(p))->Ok_0;
            &&& r.host == p.host->0
            &&& r.is_https <==> p.scheme == Some("https"@)
            &&& p.port is Some ==> r.port == p.port->0
            &&& p.port is None && p.scheme == Some("https"@) ==> r.port == 443
            &&& p.port is None && p.scheme != Some("https"@) ==> r.port == 80
            &&& p.path_and_query is Some ==> r.path == p.path_and_query->0
            &&& p.path_and_query is None ==> r.path == "/v1/chat/completions"@
            &&& r.addr == p.host->0 + ":"@ + decimal(r.port as nat)
        },
        proxy_for(Ok(p)) is Ok <==> p.host is Some,
        proxy_for(Err(e)) is Err,
        p.host is Some && p.port is Some ==> proxy_for(Ok(p)) == Ok::<Seq<char>, LlmErrorV>(
            p.host->0 + ":"@ + decimal(p.port->0 as nat),
        ),
        p.host is Some && p.port is None ==> proxy_for(Ok(p)) == Ok::<Seq<char>, LlmErrorV>(
            p.host->0 + ":"@ + decimal(8080),
        ),
{
}

/// Every request carries the host, the kind of its body and the key.
pub proof fn law_requests_carry_the_key(e: EndpointV, proxy: Option<Seq<char>>, url: Seq<char>, key: Seq<char>)
    ensures
        ({
            let h = plan_for(e, proxy, url, key).headers;
            &&& h.contains(("Host"@, e.host))
            &&& h.contains(("Content-Type"@, "application/json"@))
            &&& h.contains(("Authorization"@, "Bearer "@ + key))
            &&& h.contains(("Connection"@, "close"@))
            &&& h.len() == 4
        }),
{
    let h = plan_for(e, proxy, url, key).headers;
    assert(h[0] == ("Host"@, e.host));
    assert(h[1] == ("Content-Type"@, "application/json"@));
    assert(h[2] == ("Authorization"@, "Bearer "@ + key));
    assert(h[3] == ("Connection"@, "close"@));
}

/// Without a proxy the server itself is connected to. With one the proxy is, and asked to put
/// through to the server where that is reached over TLS, and to fetch the whole address where it is
/// not.
pub proof fn law_proxies_are_gone_through(
    e: EndpointV,
    proxy: Seq<char>,
    url: Seq<char>,
    key: Seq<char>,
)
    ensures
        ({
            let direct = plan_for(e, None, url, key);
            let through = plan_for(e, Some(proxy), url, key);
            &&& direct.connect_addr == e.addr && !direct.via_proxy && direct.tunnel is None
            &&& direct.target == e.path
            &&& through.connect_addr == proxy && through.via_proxy
            &&& through.tunnel is Some <==> e.is_https
            &&& e.is_https ==> through.tunnel->0 == "CONNECT "@ + e.addr
                + " HTTP/1.1\r\nHost: "@ + e.addr + "\r\n\r\n"@
            &&& e.is_https ==> through.target == "/v1/chat/completions"@
            &&& !e.is_https ==> through.target == url
            &&& direct.tls == e.is_https && through.tls == e.is_https
            &&& direct.host == e.host && through.host == e.host
        }),
{
}

/// A client goes where its address says: through its proxy where it has one, and only then. An
/// address that is none, of the server or of the proxy, is refused.
pub proof fn law_clients_go_where_they_are_told(
    base: Seq<char>,
    key: Seq<char>,
    proxy: Seq<char>,
)
    ensures
        ({
            let url = base + "/chat/completions"@;
            let plan = client_plan(base, key, proxy);
            let end = endpoint_for(uri_parts(url));
            let via = proxy_for(uri_parts(proxy));
            &&& plan is Ok <==> end is Ok && (proxy.len() == 0 || via is Ok)
            &&& end is Err ==> plan->Err_0 == end->Err_0
            &&& end is Ok && proxy.len() > 0 && via is Err ==> plan->Err_0 == via->Err_0
            &&& plan is Ok ==> (plan->Ok_0.via_proxy <==> proxy.len() > 0)
            &&& plan is Ok && proxy.len() > 0 ==> plan->Ok_0.connect_addr == via->Ok_0
            &&& plan is Ok && proxy.len() == 0 ==> plan->Ok_0.connect_addr == end->Ok_0.addr
            &&& plan is Ok ==> plan->Ok_0.headers == headers_for(end->Ok_0.host, key)
        }),
{
}

/// A reply of a proxy is complete with its first empty line, and too long after so many bytes
/// without one.
pub proof fn law_replies_end_with_an_empty_line(head: Seq<u8>, bytes: Seq<u8>)
    ensures
        reply_step(head + seq![13u8, 10u8, 13u8, 10u8]) is Complete,
        reply_step(bytes) is Complete ==> bytes.len() >= 4 && bytes[bytes.len() - 1] == 10
            && bytes[bytes.len() - 2] == 13 && bytes[bytes.len() - 3] == 10 && bytes[bytes.len()
            - 4] == 13,
        reply_step(bytes) is TooLarge ==> bytes.len() > 4096,
        reply_step(bytes) is More ==> bytes.len() <= 4096,
{
    let s = head + seq![13u8, 10u8, 13u8, 10u8];
    assert(s.subrange(s.len() - 4, s.len() as int) =~= seq![13u8, 10u8, 13u8, 10u8]);
    if ends_with_blank_line(bytes) {
        let t = bytes.subrange(bytes.len() - 4, bytes.len() as int);
        assert(t[0] == bytes[bytes.len() - 4]);
        assert(t[1] == bytes[bytes.len() - 3]);
        assert(t[2] == bytes[bytes.len() - 2]);
        assert(t[3] == bytes[bytes.len() - 1]);
    }
}

/// A proxy has put through exactly where it says so; where it does not, its first line is told.
pub proof fn law_refused_tunnels_tell_the_first_line(line: Seq<char>, rest: Seq<char>)
    requires
        !line.contains('\n'),
        line.len() > 0 ==> line.last() != '\r',
        line.len() > 0,
        !"HTTP/1.1 200"@.is_prefix_of(line + seq!['\n'] + rest),
        !"HTTP/1.0 200"@.is_prefix_of(line + seq!['\n'] + rest),
    ensures
        tunnel_error(line + seq!['\n'] + rest) == Some(
            LlmErrorV::Connect("proxy CONNECT failed: "@ + line),
        ),
        tunnel_error("HTTP/1.1 200"@ + rest) is None,
        tunnel_error("HTTP/1.0 200"@ + rest) is None,
{
    let text = line + seq!['\n'] + rest;
    let nl = seq!['\n'];
    assert forall|j: int| 0 <= j < line.len() implies !#[trigger] occurs_at(line + nl, nl, j) by {
        if occurs_at(line + nl, nl, j) {
            assert((line + nl).subrange(j, j + 1)[0] == line[j]);
            assert(line.contains('\n'));
        }
    }
    law_what_stands_there_is_found(line, nl, rest);
    assert(text.take(line.len() as int) =~= line);
    assert(text[line.len() - 1] == line.last());
    assert(("HTTP/1.1 200"@ + rest).take("HTTP/1.1 200"@.len() as int) =~= "HTTP/1.1 200"@);
    assert(("HTTP/1.0 200"@ + rest).take("HTTP/1.0 200"@.len() as int) =~= "HTTP/1.0 200"@);
    assert("HTTP/1.1 200"@.is_prefix_of("HTTP/1.1 200"@ + rest));
    assert("HTTP/1.0 200"@.is_prefix_of("HTTP/1.0 200"@ + rest));
}

/// An answer is a success exactly where its status says so.
pub proof fn law_success_is_the_two_hundreds(status: u16)
    ensures
        is_success(status) <==> status / 100 == 2,
{
}

} // verus!
