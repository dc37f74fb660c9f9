//! Page URLs and the origins that key their storage.
use crate::text::{decimal, decimal_text, text_eq};
use vstd::prelude::*;

verus! {

/// The parts of a URL that decide its origin.
#[derive(Debug)]
pub struct UrlParts {
    pub scheme: String,
    pub host: Option<String>,
    pub port: Option<u16>,
}

/// Scheme, host and port as texts and numbers.
pub type PartsView = (Seq<char>, Option<Seq<char>>, Option<u16>);

impl View for UrlParts {
    type V = PartsView;

    open spec fn view(&self) -> PartsView {
        (
            self.scheme@,
            match self.host {
                Some(h) => Some(h@),
                None => None,
            },
            self.port,
        )
    }
}

pub open spec fn opt_parts_view(p: Option<UrlParts>) -> Option<PartsView> {
    match p {
        Some(p) => Some(p@),
        None => None,
    }
}

/// The port that a scheme implies.
pub open spec fn default_port(scheme: Seq<char>) -> Option<u16> {
    if scheme == "http"@ || scheme == "ws"@ {
        Some(80)
    } else if scheme == "https"@ || scheme == "wss"@ {
        Some(443)
    } else if scheme == "ftp"@ {
        Some(21)
    } else {
        None
    }
}

/// The scheme, host and explicit port that `url::Url::parse` reads from a
/// text, or nothing where it refuses the text.
pub uninterp spec fn parsed_url(
    url: Seq<char>,
) -> Option<(Seq<char>, Option<Seq<char>>, Option<u16>)>;

/// `url::Url::parse`, with `Url::scheme`, `Url::host_str` and `Url::port` of
/// what it returns. Claimed: the outcome depends on the text alone; the port is
/// never the one that the scheme implies; a host of these schemes holds none of
/// the characters that end one; the origin made of the parts, where it is a URL
/// at all, has these parts again; and without internationalized labels in its
/// host it is one. Left unsaid: how a text is split, which is the URL standard
/// itself, and whether an internationalized host is read back. One whose label
/// comes to more than 2000 characters in its `xn--` form is not.
#[verifier::external_body]
pub(crate) fn parse_url(url: &str) -> (r: Option<UrlParts>)
    ensures
        opt_parts_view(r) == parsed_url(url@),
        r matches Some(parts) ==> implicit_port(parts@),
        r matches Some(parts) ==> bare_host(parts@),
        r matches Some(parts) ==> (origin_text(parts@) matches Some(o) ==> (plain_host(parts@)
            ==> parsed_url(o) == Some(parts@))),
        r matches Some(parts) ==> (origin_text(parts@) matches Some(o) ==> (parsed_url(
            o,
        ) matches Some(again) ==> again == parts@)),
{
    let parsed = url::Url::parse(url).ok()?;
    Some(
        UrlParts {
            scheme: parsed.scheme().to_string(),
            host: parsed.host_str().map(str::to_string),
            port: parsed.port(),
        },
    )
}

/// The schemes whose pages have storage of their own.
pub open spec fn stores_data(scheme: Seq<char>) -> bool {
    ||| scheme == "http"@
    ||| scheme == "https"@
    ||| scheme == "ws"@
    ||| scheme == "wss"@
    ||| scheme == "ftp"@
}

/// The serialized origin of a URL's parts; nothing for opaque origins.
pub open spec fn origin_text(parts: PartsView) -> Option<Seq<char>> {
    let (scheme, host, port) = parts;
    if !stores_data(scheme) {
        None
    } else {
        match host {
            None => None,
            Some(h) => Some(
                match port {
                    Some(n) => scheme + "://"@ + h + ":"@ + decimal_text(n as nat),
                    None => scheme + "://"@ + h,
                },
            ),
        }
    }
}

/// The storage key of a page URL.
pub open spec fn url_origin(url: Seq<char>) -> Option<Seq<char>> {
    match parsed_url(url) {
        Some(parts) => origin_text(parts),
        None => None,
    }
}

/// No port is spelled that the scheme implies.
pub open spec fn implicit_port(parts: PartsView) -> bool {
    let (scheme, host, port) = parts;
    port is Some ==> port != default_port(scheme)
}

/// No character stands in the host that would start a path, a query or a
/// fragment.
pub open spec fn bare_host(parts: PartsView) -> bool {
    let (scheme, host, port) = parts;
    stores_data(scheme) ==> (host matches Some(h) ==> is_bare(h))
}

/// No label of the host is in the form of an internationalized one.
pub open spec fn plain_host(parts: PartsView) -> bool {
    let (scheme, host, port) = parts;
    host matches Some(h) ==> forall|i: int|
        0 <= i <= h.len() - 4 ==> #[trigger] h.subrange(i, i + 4) != "xn--"@
}

/// No character starts a path, a query or a fragment.
pub open spec fn is_bare(s: Seq<char>) -> bool {
    forall|i: int| 0 <= i < s.len() ==> #[trigger] s[i] != '/' && s[i] != '?' && s[i] != '#'
}

/// A scheme with storage, `://`, and a host with or without a port; nothing
/// behind them.
pub open spec fn origin_form(o: Seq<char>) -> bool {
    exists|scheme: Seq<char>, rest: Seq<char>| #[trigger]
        with_scheme(scheme, rest) == o && stores_data(scheme) && is_bare(rest)
}

pub open spec fn with_scheme(scheme: Seq<char>, rest: Seq<char>) -> Seq<char> {
    scheme + "://"@ + rest
}

proof fn lemma_decimal_is_bare(n: nat)
    ensures
        is_bare(decimal_text(n)),
    decreases n,
{
    if n >= 10 {
        lemma_decimal_is_bare(n / 10);
    }
}

/// The origin of a URL's parts has the form of one.
proof fn lemma_origin_form(parts: PartsView)
    requires
        bare_host(parts),
        origin_text(parts) is Some,
    ensures
        origin_form(origin_text(parts)->0),
{
    let (scheme, host, port) = parts;
    let h = host->0;
    let o = origin_text(parts)->0;
    match port {
        Some(n) => {
            let number = decimal_text(n as nat);
            let rest = h + ":"@ + number;
            lemma_decimal_is_bare(n as nat);
            reveal_strlit(":");
            assert(is_bare(rest)) by {
                assert forall|i: int| 0 <= i < rest.len() implies #[trigger] rest[i] != '/'
                    && rest[i] != '?' && rest[i] != '#' by {
                    if i < h.len() {
                        assert(rest[i] == h[i]);
                    } else if i > h.len() {
                        assert(rest[i] == number[i - h.len() - 1]);
                    }
                }
            }
            assert(with_scheme(scheme, rest) =~= o);
        },
        None => {
            assert(with_scheme(scheme, h) =~= o);
        },
    }
}

/// The host that a URL names.
pub open spec fn url_host(url: Seq<char>) -> Option<Seq<char>> {
    match parsed_url(url) {
        Some(parts) => parts.1,
        None => None,
    }
}

pub open spec fn opt_text(s: Option<String>) -> Option<Seq<char>> {
    match s {
        Some(s) => Some(s@),
        None => None,
    }
}

/// Serializes the origin of a URL's parts, e.g. `https://example.com`. Opaque
/// origins (`about:`, `data:`, `file:`) have none.
pub fn origin_of_parts(parts: &UrlParts) -> (r: Option<String>)
    ensures
        opt_text(r) == origin_text(parts@),
{
    let scheme: &str = parts.scheme.as_str();
    if !(text_eq(scheme, "http") || text_eq(scheme, "https") || text_eq(scheme, "ws") || text_eq(
        scheme,
        "wss",
    ) || text_eq(scheme, "ftp")) {
        return None;
    }
    match &parts.host {
        None => None,
        Some(host) => {
            let mut s: String = scheme.to_owned();
            s.append("://");
            s.append(host.as_str());
            match parts.port {
                Some(port) => {
                    s.append(":");
                    let number: String = decimal(port as u64);
                    s.append(number.as_str());
                },
                None => {},
            }
            Some(s)
        },
    }
}

/// Normalizes a page URL to a storage key. `None` for opaque origins and for
/// anything that is no URL: these get no persistent storage. A port that the
/// scheme implies stays implicit, so `https://x` and `https://x:443` agree. An
/// origin that is a URL at all is its own origin, and one without
/// internationalized labels is a URL.
pub fn origin_of(url: &str) -> (r: Option<String>)
    ensures
        opt_text(r) == url_origin(url@),
        parsed_url(url@) matches Some(parts) ==> implicit_port(parts),
        r matches Some(o) ==> origin_form(o@),
        r matches Some(o) ==> (url_origin(o@) is None || url_origin(o@) == Some(o@)),
        r matches Some(o) ==> (plain_host(parsed_url(url@)->0) ==> url_origin(o@) == Some(o@)),
{
    match parse_url(url) {
        Some(parts) => {
            proof {
                if origin_text(parts@) is Some {
                    lemma_origin_form(parts@);
                }
            }
            origin_of_parts(&parts)
        },
        None => None,
    }
}

/// The host that a URL names.
pub fn host_of(url: &str) -> (r: Option<String>)
    ensures
        opt_text(r) == url_host(url@),
{
    match parse_url(url) {
        Some(parts) => parts.host,
        None => None,
    }
}

} // verus!
