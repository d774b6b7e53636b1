//! Fetching a remote source: which request follows which answer, how far the
//! download has come, and what kind of stream the first bytes announce.

use vstd::prelude::*;
use vstd::string::StringExecFns;
use crate::text::chars_of;
use crate::text::has_prefix;
use crate::text::parse_u64;
use crate::text::spec_parse_u64;
use crate::text::starts_with;
use crate::text::text_view;

verus! {

/// Redirects that are followed before a fetch is given up.
pub const MAX_REDIRECTS: u32 = 10;

/// Why a remote source cannot be played.
#[derive(Clone, Copy, Debug, PartialEq, Eq, Structural)]
pub enum NetworkError {
    /// The server answered with this status, which is neither a success nor
    /// a redirect.
    HttpError(u16),
    /// More redirects in a row than are followed.
    TooManyRedirects,
    /// Nothing arrived within the time allowed for the first bytes.
    BufferTimeout,
    /// The first bytes announce a kind of data that is not played.
    UnsupportedStreamType,
    /// A redirect that does not say where to.
    MissingLocation,
    /// A redirect whose target is not text.
    InvalidLocation,
    /// An address that is no URI, or that has no authority to resolve a
    /// relative redirect against.
    InvalidUrl,
}

/// A header of a response, as far as it is read.
#[derive(Debug, Clone, PartialEq, Eq)]
pub enum HeaderValue {
    /// The response has no such header.
    Missing,
    /// The header is there but is not visible ASCII text.
    Opaque,
    /// The header's text.
    Text(String),
}

/// A [`HeaderValue`] as plain values.
pub enum HeaderView {
    Missing,
    Opaque,
    Text(Seq<char>),
}

impl View for HeaderValue {
    type V = HeaderView;

    open spec fn view(&self) -> HeaderView {
        match self {
            HeaderValue::Missing => HeaderView::Missing,
            HeaderValue::Opaque => HeaderView::Opaque,
            HeaderValue::Text(text) => HeaderView::Text(text@),
        }
    }
}

/// The head of a response.
#[derive(Debug, Clone, PartialEq, Eq)]
pub struct ResponseHead {
    /// The status code.
    pub status: u16,
    /// The `Location` header.
    pub location: HeaderValue,
    /// The `Content-Length` header.
    pub content_length: HeaderValue,
}

/// A [`ResponseHead`] as plain values.
pub struct HeadView {
    pub status: u16,
    pub location: HeaderView,
    pub content_length: HeaderView,
}

impl View for ResponseHead {
    type V = HeadView;

    open spec fn view(&self) -> HeadView {
        HeadView {
            status: self.status,
            location: self.location@,
            content_length: self.content_length@,
        }
    }
}

/// What to do with a response.
#[derive(Debug, Clone, PartialEq, Eq)]
pub enum Hop {
    /// Ask again, at this address.
    Follow(String),
    /// Take the body. `total_bytes` is its announced length, where the
    /// response announces one.
    Accept { total_bytes: Option<u64> },
}

/// A [`Hop`] as plain values.
pub enum HopView {
    Follow(Seq<char>),
    Accept { total_bytes: Option<u64> },
}

impl View for Hop {
    type V = HopView;

    open spec fn view(&self) -> HopView {
        match self {
            Hop::Follow(url) => HopView::Follow(url@),
            Hop::Accept { total_bytes } => HopView::Accept { total_bytes: *total_bytes },
        }
    }
}

/// Scheme and authority of a URI, each where it has one.
#[derive(Debug, Clone, PartialEq, Eq)]
pub struct UriParts {
    pub scheme: Option<String>,
    pub authority: Option<String>,
}

/// [`UriParts`] as plain values: scheme, then authority.
pub open spec fn parts_view(parts: Option<UriParts>) -> Option<(Option<Seq<char>>, Option<Seq<char>>)> {
    match parts {
        Some(parts) => Some((text_view(parts.scheme), text_view(parts.authority))),
        None => None,
    }
}

/// Scheme and authority that `hyper::Uri` finds in `url`, or nothing where
/// `url` is no URI.
pub uninterp spec fn uri_parts(url: Seq<char>) -> Option<(Option<Seq<char>>, Option<Seq<char>>)>;

/// Parses `url` with `hyper::Uri` and hands out its scheme and its authority
/// as text. Nothing is claimed of them but that they are what the parser
/// finds in this text.
#[verifier::external_body]
fn parse_uri(url: &str) -> (parts: Option<UriParts>)
    ensures
        parts_view(parts) == uri_parts(url@),
{
    let uri = match url.parse::<hyper::Uri>() {
        Ok(uri) => uri,
        Err(_) => return None,
    };
    let scheme = match uri.scheme_str() {
        Some(scheme) => Some(scheme.to_string()),
        None => None,
    };
    let authority = match uri.authority() {
        Some(authority) => Some(authority.as_str().to_string()),
        None => None,
    };
    Some(UriParts { scheme, authority })
}

/// Whether a status is a redirect.
pub open spec fn is_redirect(status: u16) -> bool {
    300 <= status < 400
}

/// Whether a status is a success.
pub open spec fn is_success(status: u16) -> bool {
    200 <= status < 300
}

/// The address that a redirect to `location` leads to, given what the
/// address first asked for parses to. A location that begins with `http`
/// stands for itself. Any other is taken as a path on the authority first
/// asked, under its scheme, or `https` where it names none.
pub open spec fn resolved_with(
    location: Seq<char>,
    origin: Option<(Option<Seq<char>>, Option<Seq<char>>)>,
) -> Result<Seq<char>, NetworkError> {
    if has_prefix(location, "http"@) {
        Ok(location)
    } else {
        match origin {
            Some((scheme, Some(authority))) => Ok(
                (match scheme {
                    Some(scheme) => scheme,
                    None => "https"@,
                }) + "://"@ + authority + location,
            ),
            _ => Err(NetworkError::InvalidUrl),
        }
    }
}

/// The announced length of a body: the `Content-Length` header, where it is
/// text that writes a number.
pub open spec fn announced(content_length: HeaderView) -> Option<u64> {
    match content_length {
        HeaderView::Text(text) => spec_parse_u64(text),
        _ => None,
    }
}

/// What to do with a response, `hops` redirects into a fetch, given where a
/// redirect would lead and whether that is a URI.
pub open spec fn hop_with(
    hops: nat,
    head: HeadView,
    target: Result<Seq<char>, NetworkError>,
    target_is_uri: bool,
) -> Result<HopView, NetworkError> {
    if is_redirect(head.status) {
        if hops >= MAX_REDIRECTS {
            Err(NetworkError::TooManyRedirects)
        } else {
            match head.location {
                HeaderView::Missing => Err(NetworkError::MissingLocation),
                HeaderView::Opaque => Err(NetworkError::InvalidLocation),
                HeaderView::Text(_) => match target {
                    Ok(url) => if target_is_uri {
                        Ok(HopView::Follow(url))
                    } else {
                        Err(NetworkError::InvalidUrl)
                    },
                    Err(e) => Err(e),
                },
            }
        }
    } else if !is_success(head.status) {
        Err(NetworkError::HttpError(head.status))
    } else {
        Ok(HopView::Accept { total_bytes: announced(head.content_length) })
    }
}

/// What to do with a response, `hops` redirects into a fetch that first
/// asked `origin`.
pub open spec fn hop(origin: Seq<char>, hops: nat, head: HeadView) -> Result<HopView, NetworkError> {
    match head.location {
        HeaderView::Text(location) => {
            let target = resolved_with(location, uri_parts(origin));
            hop_with(
                hops,
                head,
                target,
                match target {
                    Ok(url) => uri_parts(url) is Some,
                    Err(_) => false,
                },
            )
        },
        _ => hop_with(hops, head, Err(NetworkError::MissingLocation), false),
    }
}

/// No fetch follows more redirects than the limit: once that many have been
/// followed, a further redirect ends the fetch, whatever it says, and no
/// response leads on to another address.
pub proof fn law_redirects_are_bounded(origin: Seq<char>, hops: nat, head: HeadView)
    requires
        hops >= MAX_REDIRECTS,
    ensures
        !(hop(origin, hops, head) matches Ok(HopView::Follow(_))),
        is_redirect(head.status) ==> hop(origin, hops, head) == Err::<HopView, NetworkError>(
            NetworkError::TooManyRedirects,
        ),
{
}

/// A result with its strings as plain values.
pub open spec fn hop_view(r: Result<Hop, NetworkError>) -> Result<HopView, NetworkError> {
    match r {
        Ok(hop) => Ok(hop@),
        Err(e) => Err(e),
    }
}

/// A result with its string as plain values.
pub open spec fn url_view(r: Result<String, NetworkError>) -> Result<Seq<char>, NetworkError> {
    match r {
        Ok(url) => Ok(url@),
        Err(e) => Err(e),
    }
}

/// The address that a redirect to `location` leads to, given what the
/// address first asked for parses to.
pub fn resolve_with(location: &str, origin: Option<&UriParts>) -> (r: Result<String, NetworkError>)
    ensures
        url_view(r) == resolved_with(
            location@,
            match origin {
                Some(parts) => Some((text_view(parts.scheme), text_view(parts.authority))),
                None => None,
            },
        ),
{
    let chars = chars_of(location);
    let http = chars_of("http");
    assert(chars@.subrange(0, chars@.len() as int) =~= chars@);
    if starts_with(chars.as_slice(), 0, chars.len(), http.as_slice()) {
        return Ok(String::from_str(location));
    }
    match origin {
        Some(parts) => match &parts.authority {
            Some(authority) => {
                let mut url = match &parts.scheme {
                    Some(scheme) => String::from_str(scheme.as_str()),
                    None => String::from_str("https"),
                };
                url.append("://");
                url.append(authority.as_str());
                url.append(location);
                Ok(url)
            },
            None => Err(NetworkError::InvalidUrl),
        },
        None => Err(NetworkError::InvalidUrl),
    }
}

/// The announced length of a body.
pub fn content_length(header: &HeaderValue) -> (total: Option<u64>)
    ensures
        total == announced(header@),
{
    match header {
        HeaderValue::Text(text) => {
            let chars = chars_of(text.as_str());
            assert(chars@.subrange(0, chars@.len() as int) =~= chars@);
            parse_u64(chars.as_slice(), 0, chars.len())
        },
        _ => None,
    }
}

/// What to do with a response, `hops` redirects into a fetch, given where a
/// redirect would lead and whether that is a URI.
pub fn next_hop_with(
    hops: u32,
    head: &ResponseHead,
    target: Result<String, NetworkError>,
    target_is_uri: bool,
) -> (r: Result<Hop, NetworkError>)
    ensures
        hop_view(r) == hop_with(hops as nat, head@, url_view(target), target_is_uri),
{
    if 300 <= head.status && head.status < 400 {
        if hops >= MAX_REDIRECTS {
            return Err(NetworkError::TooManyRedirects);
        }
        match &head.location {
            HeaderValue::Missing => Err(NetworkError::MissingLocation),
            HeaderValue::Opaque => Err(NetworkError::InvalidLocation),
            HeaderValue::Text(_) => match target {
                Ok(url) => if target_is_uri {
                    Ok(Hop::Follow(url))
                } else {
                    Err(NetworkError::InvalidUrl)
                },
                Err(e) => Err(e),
            },
        }
    } else if !(200 <= head.status && head.status < 300) {
        Err(NetworkError::HttpError(head.status))
    } else {
        Ok(Hop::Accept { total_bytes: content_length(&head.content_length) })
    }
}

/// A fetch that follows redirects: the address first asked, and how many
/// redirects have been followed since.
pub struct Redirects {
    origin: String,
    hops: u32,
}

/// A [`Redirects`] as plain values.
pub struct RedirectsView {
    pub origin: Seq<char>,
    pub hops: nat,
}

impl View for Redirects {
    type V = RedirectsView;

    closed spec fn view(&self) -> RedirectsView {
        RedirectsView { origin: self.origin@, hops: self.hops as nat }
    }
}

impl Redirects {
    #[verifier::type_invariant]
    closed spec fn inv(self) -> bool {
        self.hops <= MAX_REDIRECTS
    }

    /// A fetch of `url`, or an error where `url` is no URI.
    pub fn start(url: &str) -> (r: Result<Redirects, NetworkError>)
        ensures
            match r {
                Ok(fetch) => uri_parts(url@) is Some && fetch@ == (RedirectsView {
                    origin: url@,
                    hops: 0,
                }),
                Err(e) => uri_parts(url@) is None && e == NetworkError::InvalidUrl,
            },
    {
        match parse_uri(url) {
            Some(_) => Ok(Redirects { origin: String::from_str(url), hops: 0 }),
            None => Err(NetworkError::InvalidUrl),
        }
    }

    /// Redirects followed so far.
    pub fn hops(&self) -> (hops: u32)
        ensures
            hops == self@.hops,
            hops <= MAX_REDIRECTS,
    {
        proof {
            use_type_invariant(self);
        }
        self.hops
    }

    /// Takes the head of the response to the last request and says what to
    /// do: follow a redirect, which counts, take the body, or give up.
    pub fn next_hop(&mut self, head: &ResponseHead) -> (r: Result<Hop, NetworkError>)
        ensures
            hop_view(r) == hop(old(self)@.origin, old(self)@.hops, head@),
            final(self)@ == (RedirectsView {
                hops: if r matches Ok(Hop::Follow(_)) {
                    old(self)@.hops + 1
                } else {
                    old(self)@.hops
                },
                ..old(self)@
            }),
    {
        proof {
            use_type_invariant(&*self);
        }
        let r = match &head.location {
            HeaderValue::Text(location) => {
                let origin = parse_uri(self.origin.as_str());
                let target = resolve_with(location.as_str(), origin.as_ref());
                let is_uri = match &target {
                    Ok(url) => parse_uri(url.as_str()).is_some(),
                    Err(_) => false,
                };
                next_hop_with(self.hops, head, target, is_uri)
            },
            _ => next_hop_with(self.hops, head, Err(NetworkError::MissingLocation), false),
        };
        match &r {
            Ok(Hop::Follow(_)) => {
                self.hops = self.hops + 1;
            },
            _ => {},
        }
        r
    }
}

} // verus!
