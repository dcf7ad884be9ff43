use vstd::prelude::*;
use vstd::utf8::encode_utf8;
use crate::header::{header_value, valid_header_value};
use crate::text::chars_of;

verus! {

/// The HTTP version a benchmark speaks.
#[derive(Debug, Clone, Copy, PartialEq, Eq, Structural)]
pub enum BenchType {
    HTTP1,
    HTTP2,
}

/// How a connection to the target is carried.
#[derive(Debug, Clone, Copy, PartialEq, Eq, Structural)]
pub enum Scheme {
    /// Plain TCP.
    Http,
    /// TCP wrapped in TLS.
    Https,
}

impl Scheme {
    pub open spec fn spec_default_port(self) -> u16 {
        match self {
            Scheme::Http => 80,
            Scheme::Https => 443,
        }
    }

    /// The port used when the target names none: 80 for plain, 443 for TLS.
    pub fn default_port(&self) -> (r: u16)
        ensures
            r == self.spec_default_port(),
    {
        match self {
            Scheme::Http => 80,
            Scheme::Https => 443,
        }
    }
}

/// Why a target could not be resolved.
#[derive(Debug, Clone, Copy, PartialEq, Eq, Structural)]
pub enum ResolveError {
    /// The target is not a URI.
    InvalidUri,
    /// The URI has no scheme.
    MissingScheme,
    /// The scheme is neither `http` nor `https`.
    UnsupportedScheme,
    /// The URI has no authority, hence no host.
    MissingAuthority,
    /// The host cannot stand as a `Host` header value.
    InvalidHostHeader,
    /// The host resolved to no address.
    DnsLookupFailed,
}

/// What the URI parser finds in a target: its scheme, host and port.
pub struct UriParts {
    pub scheme: Option<String>,
    pub host: Option<String>,
    pub port: Option<u16>,
}

pub open spec fn opt_view(o: Option<String>) -> Option<Seq<char>> {
    match o {
        Some(s) => Some(s@),
        None => None,
    }
}

/// The scheme, host and port that the URI parser finds in a string, or
/// `None` when it refuses the string.
pub uninterp spec fn uri_parts(s: Seq<char>) -> Option<(Option<Seq<char>>, Option<Seq<char>>, Option<u16>)>;

/// Relies on http::Uri's TryFrom<&str> to parse the target, and on
/// Uri::scheme_str, Uri::host and Uri::port_u16 to read it back.
#[verifier::external_body]
fn parse_uri(s: &str) -> (r: Option<UriParts>)
    ensures
        match r {
            None => uri_parts(s@) is None,
            Some(p) => uri_parts(s@) == Some((opt_view(p.scheme), opt_view(p.host), p.port)),
        },
{
    let uri = http::Uri::try_from(s).ok()?;
    Some(UriParts {
        scheme: uri.scheme_str().map(|x| x.to_string()),
        host: uri.host().map(|x| x.to_string()),
        port: uri.port_u16(),
    })
}

pub open spec fn http_word() -> Seq<char> {
    seq!['h', 't', 't', 'p']
}

pub open spec fn https_word() -> Seq<char> {
    seq!['h', 't', 't', 'p', 's']
}

/// The scheme that a URI's scheme text selects.
pub open spec fn scheme_of(s: Seq<char>) -> Option<Scheme> {
    if s == http_word() {
        Some(Scheme::Http)
    } else if s == https_word() {
        Some(Scheme::Https)
    } else {
        None
    }
}

fn scheme_from(s: &str) -> (r: Option<Scheme>)
    ensures
        r == scheme_of(s@),
{
    let cs = chars_of(s);
    let n = cs.len();
    if (n == 4 || n == 5) && cs[0] == 'h' && cs[1] == 't' && cs[2] == 't' && cs[3] == 'p' {
        if n == 4 {
            assert(cs@ =~= http_word());
            Some(Scheme::Http)
        } else if cs[4] == 's' {
            assert(cs@ =~= https_word());
            Some(Scheme::Https)
        } else {
            assert(cs@ != https_word() && cs@ != http_word()) by {
                assert(cs@[4] != https_word()[4]);
            }
            None
        }
    } else {
        assert(cs@ != https_word() && cs@ != http_word()) by {
            if cs@ == https_word() || cs@ == http_word() {
                assert(cs@[0] == 'h' && cs@[1] == 't' && cs@[2] == 't' && cs@[3] == 'p');
            }
        }
        None
    }
}

/// The ALPN protocol names offered for a version of HTTP, as ASCII bytes:
/// `http/1.1` and `http/1.0`, or `h2`.
pub open spec fn alpn_for(protocol: BenchType) -> Seq<Seq<u8>> {
    match protocol {
        BenchType::HTTP1 => seq![
            seq![104u8, 116u8, 116u8, 112u8, 47u8, 49u8, 46u8, 49u8],
            seq![104u8, 116u8, 116u8, 112u8, 47u8, 49u8, 46u8, 48u8],
        ],
        BenchType::HTTP2 => seq![seq![104u8, 50u8]],
    }
}

/// The ALPN protocol list a TLS client offers: `http/1.1` and `http/1.0`
/// for HTTP/1, `h2` for HTTP/2.
pub fn alpn_protocols(protocol: BenchType) -> (r: Vec<Vec<u8>>)
    ensures
        r@.map_values(|v: Vec<u8>| v@) == alpn_for(protocol),
{
    let r = match protocol {
        BenchType::HTTP1 => vec![
            vec![104u8, 116u8, 116u8, 112u8, 47u8, 49u8, 46u8, 49u8],
            vec![104u8, 116u8, 116u8, 112u8, 47u8, 49u8, 46u8, 48u8],
        ],
        BenchType::HTTP2 => vec![vec![104u8, 50u8]],
    };
    assert(r@.map_values(|v: Vec<u8>| v@) =~= alpn_for(protocol));
    r
}

/// A target before address resolution: how to connect, to which host and port,
/// and what to offer in a TLS handshake.
pub struct Endpoint {
    pub scheme: Scheme,
    pub host: String,
    pub port: u16,
    pub host_header: http::HeaderValue,
    /// The bytes of `host_header`: the host, without the port.
    pub host_header_bytes: Vec<u8>,
    /// ALPN names to offer; empty for plain connections.
    pub alpn: Vec<Vec<u8>>,
}

/// The outcome of reading a target string, up to the host header check.
pub open spec fn endpoint_check(s: Seq<char>) -> Result<(Scheme, Seq<char>, u16), ResolveError> {
    match uri_parts(s) {
        None => Err(ResolveError::InvalidUri),
        Some((sch, host, port)) => match sch {
            None => Err(ResolveError::MissingScheme),
            Some(sch) => match scheme_of(sch) {
                None => Err(ResolveError::UnsupportedScheme),
                Some(scheme) => match host {
                    None => Err(ResolveError::MissingAuthority),
                    Some(h) => if !valid_header_value(h) {
                        Err(ResolveError::InvalidHostHeader)
                    } else {
                        Ok(
                            (
                                scheme,
                                h,
                                match port {
                                    Some(p) => p,
                                    None => scheme.spec_default_port(),
                                },
                            ),
                        )
                    },
                },
            },
        },
    }
}

impl Endpoint {
    /// Reads a target URI such as `https://example.com`: its scheme must be
    /// `http` or `https`, it must name a host, and its port defaults to the
    /// scheme's. A TLS target carries the ALPN names for `protocol`.
    pub fn parse(protocol: BenchType, target: &str) -> (r: Result<Endpoint, ResolveError>)
        ensures
            match endpoint_check(target@) {
                Err(e) => r == Err::<Endpoint, ResolveError>(e),
                Ok((scheme, host, port)) => r matches Ok(ep) && ep.scheme == scheme && ep.host@
                    == host && ep.port == port && ep.host_header_bytes@ == encode_utf8(host)
                    && ep.alpn@.map_values(|v: Vec<u8>| v@) == (
                    if scheme == Scheme::Https {
                        alpn_for(protocol)
                    } else {
                        Seq::empty()
                    }),
            },
    {
        let parts = match parse_uri(target) {
            Some(p) => p,
            None => return Err(ResolveError::InvalidUri),
        };
        let scheme = match &parts.scheme {
            None => return Err(ResolveError::MissingScheme),
            Some(s) => match scheme_from(s.as_str()) {
                None => return Err(ResolveError::UnsupportedScheme),
                Some(sc) => sc,
            },
        };
        let alpn = match scheme {
            Scheme::Https => alpn_protocols(protocol),
            Scheme::Http => Vec::new(),
        };
        assert(scheme == Scheme::Http ==> alpn@.map_values(|v: Vec<u8>| v@) =~= Seq::empty());
        let host = match parts.host {
            None => return Err(ResolveError::MissingAuthority),
            Some(h) => h,
        };
        let port = match parts.port {
            Some(p) => p,
            None => scheme.default_port(),
        };
        let host_header = match header_value(host.as_str()) {
            None => return Err(ResolveError::InvalidHostHeader),
            Some(p) => p,
        };
        let (host_header, host_header_bytes) = host_header;
        Ok(Endpoint { scheme, host, port, host_header, host_header_bytes, alpn })
    }
}

/// An IP address: four bytes of IPv4 or sixteen of IPv6, as big-endian integers.
#[derive(Debug, Clone, Copy, PartialEq, Eq, Structural)]
pub enum IpAddress {
    V4(u32),
    V6(u128),
}

/// An IP address with a port.
#[derive(Debug, Clone, Copy, PartialEq, Eq, Structural)]
pub struct SocketAddress {
    pub ip: IpAddress,
    pub port: u16,
}

impl SocketAddress {
    pub open spec fn spec_is_ipv4(self) -> bool {
        self.ip is V4
    }

    pub fn is_ipv4(&self) -> (r: bool)
        ensures
            r == self.spec_is_ipv4(),
    {
        match self.ip {
            IpAddress::V4(_) => true,
            IpAddress::V6(_) => false,
        }
    }
}

/// Some answer is an IPv4 address.
pub open spec fn has_ipv4(s: Seq<SocketAddress>) -> bool {
    exists|i: int| 0 <= i < s.len() && (#[trigger] s[i]).spec_is_ipv4()
}

/// The answer at `k` is the last IPv4 address.
pub open spec fn is_last_ipv4(s: Seq<SocketAddress>, k: int) -> bool {
    0 <= k < s.len() && s[k].spec_is_ipv4() && forall|j: int|
        k < j < s.len() ==> !(#[trigger] s[j]).spec_is_ipv4()
}

/// The address chosen among a resolver's answers: the last IPv4 one if there
/// is one, else the last of all.
pub open spec fn selected_address(s: Seq<SocketAddress>) -> Option<SocketAddress> {
    if s.len() == 0 {
        None
    } else if has_ipv4(s) {
        Some(s[choose|k: int| is_last_ipv4(s, k)])
    } else {
        Some(s.last())
    }
}

proof fn lemma_last_ipv4_unique(s: Seq<SocketAddress>, a: int, b: int)
    requires
        is_last_ipv4(s, a),
        is_last_ipv4(s, b),
    ensures
        a == b,
{
    if a < b {
        assert(!s[b].spec_is_ipv4());
    } else if b < a {
        assert(!s[a].spec_is_ipv4());
    }
}

proof fn lemma_last_ipv4_exists(s: Seq<SocketAddress>)
    requires
        has_ipv4(s),
    ensures
        exists|k: int| is_last_ipv4(s, k),
    decreases s.len(),
{
    let n = s.len() as int;
    if s[n - 1].spec_is_ipv4() {
        assert(is_last_ipv4(s, n - 1));
    } else {
        let p = s.drop_last();
        let i = choose|i: int| 0 <= i < s.len() && (#[trigger] s[i]).spec_is_ipv4();
        assert(p[i].spec_is_ipv4());
        lemma_last_ipv4_exists(p);
        let k = choose|k: int| is_last_ipv4(p, k);
        assert forall|j: int| k < j < s.len() implies !(#[trigger] s[j]).spec_is_ipv4() by {
            if j < n - 1 {
                assert(s[j] == p[j]);
            }
        }
        assert(is_last_ipv4(s, k));
    }
}

/// When the answers hold an IPv4 address, the chosen one is IPv4, and it is
/// the last IPv4 answer, not the first.
pub proof fn lemma_selection_prefers_last_ipv4(s: Seq<SocketAddress>)
    requires
        has_ipv4(s),
    ensures
        selected_address(s) matches Some(a) && a.spec_is_ipv4() && exists|k: int|
            is_last_ipv4(s, k) && s[k] == a,
{
    lemma_last_ipv4_exists(s);
}

/// Picks the address to connect to among a resolver's answers, in their order:
/// the last IPv4 address if there is one, else the last address; `None` when
/// there are no answers.
pub fn select_address(candidates: &Vec<SocketAddress>) -> (r: Option<SocketAddress>)
    ensures
        r == selected_address(candidates@),
{
    let mut last: Option<SocketAddress> = None;
    let mut last_v4: Option<SocketAddress> = None;
    let ghost mut k: int = -1;
    let mut i: usize = 0;
    while i < candidates.len()
        invariant
            0 <= i <= candidates@.len(),
            i == 0 <==> last is None,
            i > 0 ==> last == Some(candidates@[i - 1]),
            -1 <= k < i,
            k == -1 <==> last_v4 is None,
            k == -1 ==> forall|j: int| 0 <= j < i ==> !(#[trigger] candidates@[j]).spec_is_ipv4(),
            k >= 0 ==> last_v4 == Some(candidates@[k]) && candidates@[k].spec_is_ipv4(),
            forall|j: int| k < j < i ==> !(#[trigger] candidates@[j]).spec_is_ipv4(),
        decreases candidates@.len() - i,
    {
        let a = candidates[i];
        last = Some(a);
        if a.is_ipv4() {
            last_v4 = Some(a);
            proof {
                k = i as int;
            }
        }
        i = i + 1;
    }
    proof {
        if k >= 0 {
            assert(is_last_ipv4(candidates@, k));
            lemma_last_ipv4_unique(
                candidates@,
                k,
                choose|x: int| is_last_ipv4(candidates@, x),
            );
        }
    }
    match last_v4 {
        Some(a) => Some(a),
        None => last,
    }
}

/// A resolved target: where to connect and what the requests carry as host.
pub struct UserInput {
    pub addr: SocketAddress,
    pub scheme: Scheme,
    pub host: String,
    pub host_header: http::HeaderValue,
    /// The bytes of `host_header`: the host, without the port.
    pub host_header_bytes: Vec<u8>,
    pub port: u16,
    pub alpn: Vec<Vec<u8>>,
}

impl UserInput {
    /// Completes a target with the resolver's answers for its host and port,
    /// choosing the address as `select_address` does; fails when there are none.
    pub fn new(endpoint: Endpoint, candidates: &Vec<SocketAddress>) -> (r: Result<
        UserInput,
        ResolveError,
    >)
        ensures
            candidates@.len() == 0 <==> r == Err::<UserInput, ResolveError>(
                ResolveError::DnsLookupFailed,
            ),
            candidates@.len() > 0 <==> r is Ok,
            r matches Ok(u) ==> Some(u.addr) == selected_address(candidates@) && u.scheme
                == endpoint.scheme && u.host == endpoint.host && u.port == endpoint.port
                && u.alpn == endpoint.alpn && u.host_header == endpoint.host_header
                && u.host_header_bytes == endpoint.host_header_bytes,
    {
        match select_address(candidates) {
            None => Err(ResolveError::DnsLookupFailed),
            Some(addr) => Ok(
                UserInput {
                    addr,
                    scheme: endpoint.scheme,
                    host: endpoint.host,
                    host_header: endpoint.host_header,
                    host_header_bytes: endpoint.host_header_bytes,
                    port: endpoint.port,
                    alpn: endpoint.alpn,
                },
            ),
        }
    }
}

} // verus!
