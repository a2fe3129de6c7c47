//! Bookmark identity: the canonical form of a URL, the identifier derived
//! from it, and the domain a bookmark is filed under.
//!
//! URLs are parsed and edited by the `url` crate. A [`WebUrl`] is viewed as
//! its serialization; the trusted items below name how each operation of the
//! crate reads or changes that serialization.
use crate::text::same_text;
use vstd::prelude::*;

verus! {

#[verifier::external_type_specification]
#[verifier::external_body]
pub struct ExUrl(url::Url);

#[verifier::external_type_specification]
#[verifier::external_body]
pub struct ExParseError(url::ParseError);

/// The serialization of `Url::parse(input)`, or how it fails.
pub uninterp spec fn url_parse_of(input: Seq<char>) -> Result<Seq<char>, UrlParseFailure>;

/// The serialization of `base.join(input)`, or how it fails.
pub uninterp spec fn url_join_of(base: Seq<char>, input: Seq<char>) -> Result<
    Seq<char>,
    UrlParseFailure,
>;

/// `Url::host_str` of the URL with the given serialization.
pub uninterp spec fn url_host_of(url: Seq<char>) -> Option<Seq<char>>;

/// `Url::domain` of the URL with the given serialization.
pub uninterp spec fn url_domain_of(url: Seq<char>) -> Option<Seq<char>>;

/// `Url::scheme` of the URL with the given serialization.
pub uninterp spec fn url_scheme_of(url: Seq<char>) -> Seq<char>;

/// `Url::port` of the URL with the given serialization.
pub uninterp spec fn url_port_of(url: Seq<char>) -> Option<u16>;

/// `Url::path` of the URL with the given serialization.
pub uninterp spec fn url_path_of(url: Seq<char>) -> Seq<char>;

/// The serialization after `Url::set_fragment(None)`.
pub uninterp spec fn url_fragment_cleared(url: Seq<char>) -> Seq<char>;

/// The serialization after `Url::set_path(path)`.
pub uninterp spec fn url_path_set(url: Seq<char>, path: Seq<char>) -> Seq<char>;

/// The serialization after `Url::set_port(None)`, or nothing where the
/// crate refuses the change.
pub uninterp spec fn url_port_cleared(url: Seq<char>) -> Option<Seq<char>>;

/// `murmur3_x64_128` of the UTF-8 bytes of a text, with the given seed.
pub uninterp spec fn murmur3_x64_128_of(text: Seq<char>, seed: u32) -> u128;

/// `base64_url::encode` of some bytes: URL-safe Base64 without padding.
pub uninterp spec fn base64_url_of(bytes: Seq<u8>) -> Seq<char>;

/// An absolute URL, parsed by the `url` crate.
pub struct WebUrl {
    url: url::Url,
    serialization: Ghost<Seq<char>>,
}

impl View for WebUrl {
    type V = Seq<char>;

    /// The serialization of the URL.
    closed spec fn view(&self) -> Seq<char> {
        self.serialization@
    }
}

/// How parsing a URL fails.
#[derive(Debug, Clone, Copy, PartialEq, Eq, Structural)]
pub enum UrlParseFailure {
    /// The text is a relative URL and there is no base to resolve it.
    RelativeWithoutBase,
    /// Any other reason.
    Other,
}

/// Why a URL has no identity.
#[derive(Debug, Clone, Copy, PartialEq, Eq, Structural)]
pub enum IdentityError {
    /// The text is not an absolute URL.
    InvalidUrl,
    /// The URL has no host.
    MissingHost,
    /// The default port could not be removed.
    PortNormalization,
    /// The URL names neither a domain nor a host.
    DomainNotFound,
}

/// `Url::parse`: succeeds exactly where `url_parse_of` gives a
/// serialization, with a URL of that serialization, and fails the way it
/// names.
#[verifier::external_body]
fn url_parse(input: &str) -> (r: Result<WebUrl, UrlParseFailure>)
    ensures
        match r {
            Ok(u) => url_parse_of(input@) == Ok::<Seq<char>, UrlParseFailure>(u@),
            Err(f) => url_parse_of(input@) == Err::<Seq<char>, UrlParseFailure>(f),
        },
{
    match url::Url::parse(input) {
        Ok(u) => Ok(WebUrl { url: u, serialization: Ghost(url_parse_of(input@)->Ok_0) }),
        Err(url::ParseError::RelativeUrlWithoutBase) => Err(UrlParseFailure::RelativeWithoutBase),
        Err(_) => Err(UrlParseFailure::Other),
    }
}

/// `Url::join`: succeeds exactly where `url_join_of` gives a serialization,
/// with a URL of that serialization, and fails the way it names.
#[verifier::external_body]
fn url_join(base: &WebUrl, input: &str) -> (r: Result<WebUrl, UrlParseFailure>)
    ensures
        match r {
            Ok(u) => url_join_of(base@, input@) == Ok::<Seq<char>, UrlParseFailure>(u@),
            Err(f) => url_join_of(base@, input@) == Err::<Seq<char>, UrlParseFailure>(f),
        },
{
    match base.url.join(input) {
        Ok(u) => Ok(WebUrl { url: u, serialization: Ghost(url_join_of(base@, input@)->Ok_0) }),
        Err(url::ParseError::RelativeUrlWithoutBase) => Err(UrlParseFailure::RelativeWithoutBase),
        Err(_) => Err(UrlParseFailure::Other),
    }
}

/// `Url::host_str`, named by `url_host_of`.
#[verifier::external_body]
fn url_host_str(u: &WebUrl) -> (r: Option<&str>)
    ensures
        match r {
            Some(h) => url_host_of(u@) == Some(h@),
            None => url_host_of(u@) is None,
        },
{
    u.url.host_str()
}

/// `Url::domain`, named by `url_domain_of`.
#[verifier::external_body]
fn url_domain(u: &WebUrl) -> (r: Option<&str>)
    ensures
        match r {
            Some(d) => url_domain_of(u@) == Some(d@),
            None => url_domain_of(u@) is None,
        },
{
    u.url.domain()
}

/// `Url::scheme`, named by `url_scheme_of`.
#[verifier::external_body]
fn url_scheme(u: &WebUrl) -> (r: &str)
    ensures
        r@ == url_scheme_of(u@),
{
    u.url.scheme()
}

/// `Url::port`, named by `url_port_of`.
#[verifier::external_body]
fn url_port(u: &WebUrl) -> (r: Option<u16>)
    ensures
        r == url_port_of(u@),
{
    u.url.port()
}

/// `Url::path`, named by `url_path_of`.
#[verifier::external_body]
fn url_path(u: &WebUrl) -> (r: &str)
    ensures
        r@ == url_path_of(u@),
{
    u.url.path()
}

/// `Url::set_fragment(None)`: the serialization becomes
/// `url_fragment_cleared` of the old one.
#[verifier::external_body]
fn url_clear_fragment(u: &mut WebUrl)
    ensures
        final(u)@ == url_fragment_cleared(old(u)@),
{
    u.url.set_fragment(None)
}

/// `Url::set_path`: the serialization becomes `url_path_set` of the old one
/// and the path.
#[verifier::external_body]
fn url_set_path(u: &mut WebUrl, path: &str)
    ensures
        final(u)@ == url_path_set(old(u)@, path@),
{
    u.url.set_path(path)
}

/// `Url::set_port(None)`: where the crate accepts the change the
/// serialization becomes the one named by `url_port_cleared`; where it
/// refuses, the URL is left as it was.
#[verifier::external_body]
fn url_clear_port(u: &mut WebUrl) -> (r: bool)
    ensures
        r <==> url_port_cleared(old(u)@) is Some,
        r ==> final(u)@ == url_port_cleared(old(u)@)->0,
        !r ==> final(u)@ == old(u)@,
{
    u.url.set_port(None).is_ok()
}

/// `Url::as_str`: the serialization.
#[verifier::external_body]
fn url_as_str(u: &WebUrl) -> (r: &str)
    ensures
        r@ == u@,
{
    u.url.as_str()
}

/// `Url::clone`: the same URL.
#[verifier::external_body]
fn url_clone(u: &WebUrl) -> (r: WebUrl)
    ensures
        r@ == u@,
{
    WebUrl { url: u.url.clone(), serialization: u.serialization }
}

/// `murmur3::murmur3_x64_128` over the bytes of a text. The function fails
/// only where its reader does, and a cursor over a text in memory always
/// reads, so the hash is always there.
#[verifier::external_body]
fn murmur3_hash(text: &str, seed: u32) -> (r: Option<u128>)
    ensures
        r == Some(murmur3_x64_128_of(text@, seed)),
{
    murmur3::murmur3_x64_128(&mut std::io::Cursor::new(text), seed).ok()
}

/// `base64_url::encode`, named by `base64_url_of`.
#[verifier::external_body]
fn base64_url_encode(bytes: &[u8]) -> (r: String)
    ensures
        r@ == base64_url_of(bytes@),
{
    base64_url::encode(bytes)
}

impl WebUrl {
    /// Parses an absolute URL.
    pub fn parse(input: &str) -> (r: Result<WebUrl, IdentityError>)
        ensures
            match r {
                Ok(u) => url_parse_of(input@) == Ok::<Seq<char>, UrlParseFailure>(u@),
                Err(e) => e == IdentityError::InvalidUrl && url_parse_of(input@) is Err,
            },
    {
        match url_parse(input) {
            Ok(url) => Ok(url),
            Err(_) => Err(IdentityError::InvalidUrl),
        }
    }

    /// The serialization of the URL.
    pub fn as_str(&self) -> (r: &str)
        ensures
            r@ == self@,
    {
        url_as_str(self)
    }
}

/// The port a scheme uses when none is written.
pub open spec fn default_port(scheme: Seq<char>) -> Option<u16> {
    if scheme == "http"@ {
        Some(80u16)
    } else if scheme == "https"@ {
        Some(443u16)
    } else {
        None
    }
}

/// The serialization once the fragment is gone and an empty path is `/`.
pub open spec fn rooted_without_fragment(url: Seq<char>) -> Seq<char> {
    let a = url_fragment_cleared(url);
    if url_path_of(a).len() == 0 {
        url_path_set(a, "/"@)
    } else {
        a
    }
}

/// Whether the port written in a URL is the default of its scheme.
pub open spec fn has_default_port(url: Seq<char>) -> bool {
    url_port_of(url) is Some && url_port_of(url) == default_port(url_scheme_of(url))
}

/// The canonical form of a URL with a host: without fragment, with `/` for
/// an empty path and without the port where it is the scheme's default.
/// Nothing where the default port cannot be removed.
pub open spec fn canonical_url(url: Seq<char>) -> Option<Seq<char>> {
    let b = rooted_without_fragment(url);
    if has_default_port(b) {
        url_port_cleared(b)
    } else {
        Some(b)
    }
}

fn port_of_scheme(scheme: &str) -> (r: Option<u16>)
    ensures
        r == default_port(scheme@),
{
    if same_text(scheme, "http") {
        Some(80)
    } else if same_text(scheme, "https") {
        Some(443)
    } else {
        None
    }
}

/// Brings a URL to its canonical form. A URL without host is refused.
pub fn canonicalize_url(url: WebUrl) -> (r: Result<WebUrl, IdentityError>)
    ensures
        url_host_of(url@) is None ==> r == Err::<WebUrl, IdentityError>(
            IdentityError::MissingHost,
        ),
        url_host_of(url@) is Some ==> match canonical_url(url@) {
            Some(c) => r matches Ok(u) && u@ == c,
            None => r == Err::<WebUrl, IdentityError>(IdentityError::PortNormalization),
        },
{
    let ghost original = url@;
    let mut url = url;
    if url_host_str(&url).is_none() {
        return Err(IdentityError::MissingHost);
    }
    url_clear_fragment(&mut url);
    if url_path(&url).is_empty() {
        url_set_path(&mut url, "/");
    }
    assert(url@ == rooted_without_fragment(original));
    let port = url_port(&url);
    let default = port_of_scheme(url_scheme(&url));
    if port.is_some() && port == default {
        if !url_clear_port(&mut url) {
            return Err(IdentityError::PortNormalization);
        }
    }
    Ok(url)
}

/// The canonical form of a URL given as text.
pub open spec fn canonical_text(input: Seq<char>) -> Option<Seq<char>> {
    match url_parse_of(input) {
        Ok(u) => if url_host_of(u) is Some {
            canonical_url(u)
        } else {
            None
        },
        Err(_) => None,
    }
}

/// Parses a URL and returns the serialization of its canonical form.
pub fn canonicalize_url_str(input: &str) -> (r: Result<String, IdentityError>)
    ensures
        match r {
            Ok(s) => canonical_text(input@) == Some(s@),
            Err(e) => canonical_text(input@) is None && (e == IdentityError::InvalidUrl
                <==> url_parse_of(input@) is Err),
        },
{
    let parsed = WebUrl::parse(input)?;
    let canonical = canonicalize_url(parsed)?;
    Ok(canonical.as_str().to_owned())
}

/// Byte `i` (from the most significant) of the big-endian form of `h`.
pub open spec fn be_byte(h: u128, i: int) -> u8 {
    ((h >> (((15 - i) * 8) as u32)) & 0xffu128) as u8
}

/// The 16 bytes of `h`, most significant first.
pub open spec fn be_bytes(h: u128) -> Seq<u8> {
    Seq::new(16, |i: int| be_byte(h, i))
}

/// The big-endian bytes of a 128-bit value.
pub fn u128_to_be_bytes(h: u128) -> (v: Vec<u8>)
    ensures
        v@ == be_bytes(h),
{
    let mut v: Vec<u8> = Vec::new();
    let mut i: u32 = 0;
    while i < 16
        invariant
            0 <= i <= 16,
            v@.len() == i,
            forall|j: int| 0 <= j < i ==> v@[j] == be_byte(h, j),
        decreases 16 - i,
    {
        v.push(((h >> ((15 - i) * 8)) & 0xff) as u8);
        i = i + 1;
    }
    assert(v@ =~= be_bytes(h));
    v
}

/// The identifier of a canonical URL: the URL-safe Base64 form of the
/// big-endian bytes of its murmur3 hash (x64, 128 bits, seed 0).
pub open spec fn bookmark_id_of(canonical: Seq<char>) -> Seq<char> {
    base64_url_of(be_bytes(murmur3_x64_128_of(canonical, 0)))
}

/// Whether a URL has what an identifier is made from: a host and a
/// canonical form.
pub open spec fn has_identity(url: Seq<char>) -> bool {
    url_host_of(url) is Some && canonical_url(url) is Some
}

/// The error an identifier of a URL without identity fails with: a missing
/// host, otherwise a port that cannot be normalized.
pub open spec fn identity_failure(url: Seq<char>, e: IdentityError) -> bool {
    &&& !has_identity(url)
    &&& if url_host_of(url) is None {
        e == IdentityError::MissingHost
    } else {
        e == IdentityError::PortNormalization
    }
}

/// The identifier of a bookmark: derived from the whole canonical URL,
/// query included, so that URLs differing in scheme, port or query differ.
pub fn make_bookmark_id(url: &WebUrl) -> (r: Result<String, IdentityError>)
    ensures
        has_identity(url@) ==> (r matches Ok(id) && id@ == bookmark_id_of(
            canonical_url(url@)->0,
        )),
        !has_identity(url@) ==> (r matches Err(e) && identity_failure(url@, e)),
        url_host_of(url@) is None ==> r == Err::<String, IdentityError>(
            IdentityError::MissingHost,
        ),
        url_host_of(url@) is Some && canonical_url(url@) is None ==> r == Err::<
            String,
            IdentityError,
        >(IdentityError::PortNormalization),
{
    let canonical = canonicalize_url(url_clone(url))?;
    let hash = murmur3_hash(canonical.as_str(), 0).unwrap();
    let bytes = u128_to_be_bytes(hash);
    Ok(base64_url_encode(bytes.as_slice()))
}

/// The domain a bookmark is filed under: the domain of the canonical URL,
/// or its host where it has no domain (an IP address).
pub open spec fn domain_or_host(canonical: Seq<char>) -> Option<Seq<char>> {
    match url_domain_of(canonical) {
        Some(d) => Some(d),
        None => url_host_of(canonical),
    }
}

/// The domain (or host) of a URL, taken from its canonical form.
pub fn domain_from_url(url: &WebUrl) -> (r: Result<String, IdentityError>)
    ensures
        url_host_of(url@) is None ==> r == Err::<String, IdentityError>(
            IdentityError::MissingHost,
        ),
        url_host_of(url@) is Some ==> match canonical_url(url@) {
            Some(c) => match domain_or_host(c) {
                Some(d) => r matches Ok(s) && s@ == d,
                None => r == Err::<String, IdentityError>(IdentityError::DomainNotFound),
            },
            None => r == Err::<String, IdentityError>(IdentityError::PortNormalization),
        },
{
    let canonical = canonicalize_url(url_clone(url))?;
    match url_domain(&canonical) {
        Some(d) => Ok(d.to_owned()),
        None => match url_host_str(&canonical) {
            Some(h) => Ok(h.to_owned()),
            None => Err(IdentityError::DomainNotFound),
        },
    }
}

/// The URL a reference in a page names: the reference itself where it is
/// absolute; resolved against the page where it lacks a scheme; none
/// otherwise.
pub open spec fn resolved_url(base: Seq<char>, reference: Seq<char>) -> Option<Seq<char>> {
    match url_parse_of(reference) {
        Ok(u) => Some(u),
        Err(f) => if f == UrlParseFailure::RelativeWithoutBase {
            match url_join_of(base, reference) {
                Ok(u) => Some(u),
                Err(_) => None,
            }
        } else {
            None
        },
    }
}

/// Resolves a reference found in the page at `base`.
pub fn resolve_url(base: &WebUrl, reference: &str) -> (r: Option<WebUrl>)
    ensures
        match r {
            Some(u) => resolved_url(base@, reference@) == Some(u@),
            None => resolved_url(base@, reference@) is None,
        },
{
    match url_parse(reference) {
        Ok(url) => Some(url),
        Err(UrlParseFailure::RelativeWithoutBase) => match url_join(base, reference) {
            Ok(url) => Some(url),
            Err(_) => None,
        },
        Err(_) => None,
    }
}

/// The hyphenated lower-case form of a UUID: its 32 hexadecimal digits
/// grouped 8-4-4-4-12.
pub open spec fn uuid_text(u: u128) -> Seq<char> {
    let h = crate::text_ai::hex_lower(be_bytes(u));
    h.subrange(0, 8) + "-"@ + h.subrange(8, 12) + "-"@ + h.subrange(12, 16) + "-"@ + h.subrange(
        16,
        20,
    ) + "-"@ + h.subrange(20, 32)
}

/// `Uuid::from_u128(u).to_string()`: the hyphenated lower-case form.
#[verifier::external_body]
pub(crate) fn uuid_string(u: u128) -> (r: String)
    ensures
        r@ == uuid_text(u),
{
    uuid::Uuid::from_u128(u).to_string()
}

} // verus!
