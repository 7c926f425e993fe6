//! Explicit account egress. A proxy's credentials never appear in ordinary
//! projections; it has no `Debug`.

use vstd::prelude::*;
use vstd::string::{StrSliceExecFns, StringSliceAdditionalSpecFns};
use vstd::utf8::encode_utf8;

use crate::text::{is_control_char, str_equal};

verus! {

/// What the proxy rules read of `url::Url::parse(text)`: `None` where it
/// fails, else the URL's serialization, scheme, whether it has a host, its
/// port or the scheme's known default, its path, whether it has a query,
/// whether it has a fragment, and its serialization once the user name and
/// password are cleared.
pub uninterp spec fn url_parse(text: Seq<char>) -> Option<
    (Seq<char>, Seq<char>, bool, Option<u16>, Seq<char>, bool, bool, Seq<char>),
>;

/// The parts of a parsed URL, as [`url_parse`] lists them.
struct UrlParts {
    serialization: String,
    scheme: String,
    has_host: bool,
    port: Option<u16>,
    path: String,
    has_query: bool,
    has_fragment: bool,
    endpoint: String,
}

/// `url::Url::parse`, with the parsed URL read out through `as_str`,
/// `scheme`, `host_str`, `port_or_known_default`, `path`, `query` and
/// `fragment`, and its `to_string` after `set_username("")` and
/// `set_password(None)` on a clone.
#[verifier::external_body]
fn parse_url(value: &str) -> (r: Option<UrlParts>)
    ensures
        match r {
            None => url_parse(value@) is None,
            Some(p) => url_parse(value@) == Some((p.serialization@, p.scheme@, p.has_host, p.port, p.path@,
                p.has_query, p.has_fragment, p.endpoint@)),
        },
{
    let url = url::Url::parse(value).ok()?;
    let mut bare = url.clone();
    let _ = bare.set_username("");
    let _ = bare.set_password(None);
    Some(UrlParts {
        serialization: url.as_str().to_string(),
        scheme: url.scheme().to_string(),
        has_host: url.host_str().is_some(),
        port: url.port_or_known_default(),
        path: url.path().to_string(),
        has_query: url.query().is_some(),
        has_fragment: url.fragment().is_some(),
        endpoint: bare.to_string(),
    })
}

/// The proxy text is not an http, https, socks5 or socks5h URL with a host
/// and a port.
#[derive(Debug, Clone, Copy, PartialEq, Eq, Structural)]
pub struct InvalidOutboundProxy;

/// The schemes a proxy may use.
pub open spec fn proxy_scheme(s: Seq<char>) -> bool {
    s == "http"@ || s == "https"@ || s == "socks5"@ || s == "socks5h"@
}

/// The checks on a parsed proxy URL.
pub open spec fn proxy_url_valid(
    p: (Seq<char>, Seq<char>, bool, Option<u16>, Seq<char>, bool, bool, Seq<char>),
) -> bool {
    &&& proxy_scheme(p.1)
    &&& p.2
    &&& p.3 matches Some(port) && port != 0
    &&& (p.4 == ""@ || p.4 == "/"@)
    &&& !p.5
    &&& !p.6
}

/// Whether a proxy text is accepted: at most 4096 bytes, no control
/// character, and a URL that passes the checks.
pub open spec fn proxy_accepted(value: Seq<char>) -> bool {
    &&& encode_utf8(value).len() <= 4096
    &&& forall|i: int| 0 <= i < value.len() ==> !is_control_char(#[trigger] value[i])
    &&& url_parse(value) matches Some(p) && proxy_url_valid(p)
}

/// An account's outbound proxy; its view is the URL's serialization.
#[derive(Clone, PartialEq, Eq, Hash)]
pub struct OutboundProxy {
    url: String,
    endpoint: String,
}

impl View for OutboundProxy {
    type V = Seq<char>;

    closed spec fn view(&self) -> Seq<char> {
        self.url@
    }
}

fn has_control_char(value: &str) -> (r: bool)
    ensures
        r == exists|i: int| 0 <= i < value@.len() && is_control_char(#[trigger] value@[i]),
{
    let n = value.unicode_len();
    let mut i: usize = 0;
    while i < n
        invariant
            i <= n,
            n == value@.len(),
            forall|j: int| 0 <= j < i ==> !is_control_char(#[trigger] value@[j]),
        decreases n - i,
    {
        let c = value.get_char(i);
        let u = c as u32;
        if u < 0x20 || (0x7f <= u && u < 0xa0) {
            assert(is_control_char(value@[i as int]));
            return true;
        }
        i = i + 1;
    }
    false
}

fn scheme_allowed(s: &str) -> (r: bool)
    ensures
        r == proxy_scheme(s@),
{
    str_equal(s, "http") || str_equal(s, "https") || str_equal(s, "socks5") || str_equal(s, "socks5h")
}

impl OutboundProxy {
    /// The serialization without user name and password.
    pub closed spec fn spec_endpoint(&self) -> Seq<char> {
        self.endpoint@
    }

    /// Parses and checks a proxy URL.
    pub fn parse(value: &str) -> (r: Result<OutboundProxy, InvalidOutboundProxy>)
        ensures
            r is Ok <==> proxy_accepted(value@),
            r matches Ok(p) ==> url_parse(value@) matches Some(t) && p@ == t.0 && p.spec_endpoint() == t.7,
    {
        if value.as_bytes().len() > 4096 || has_control_char(value) {
            return Err(InvalidOutboundProxy);
        }
        let parts = match parse_url(value) {
            Some(parts) => parts,
            None => return Err(InvalidOutboundProxy),
        };
        let port_ok = match parts.port {
            Some(port) => port != 0,
            None => false,
        };
        if !scheme_allowed(parts.scheme.as_str()) || !parts.has_host || !port_ok
            || !(str_equal(parts.path.as_str(), "") || str_equal(parts.path.as_str(), "/")) || parts.has_query
            || parts.has_fragment {
            return Err(InvalidOutboundProxy);
        }
        Ok(OutboundProxy { url: parts.serialization, endpoint: parts.endpoint })
    }

    /// The full URL, credentials included, for the HTTP client that dials it.
    pub fn expose_url(&self) -> (r: &str)
        ensures
            r@ == self@,
    {
        self.url.as_str()
    }

    /// The URL without user name and password.
    pub fn endpoint(&self) -> (r: String)
        ensures
            r@ == self.spec_endpoint(),
    {
        self.endpoint.clone()
    }
}

} // verus!
