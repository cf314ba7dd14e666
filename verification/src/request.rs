//! Building the one outbound request from a decoded envelope.

use crate::envelope::ProcessedHeaders;
use crate::error::Error;
use crate::error::ErrorKind;
use crate::error::ErrorWithContext;
use crate::header::copy_headers;
use crate::header::fields;
use crate::header::get_header;
use crate::header::has_header;
use crate::header::lookup;
use crate::header::Field;
use crate::header::Header;
use crate::names::bare_host;
use crate::names::bare_path;
use crate::names::bare_protocol;
use crate::names::bare_url;
use crate::text::ascii;
use crate::text::copy_bytes;
use crate::text::literal;
use vstd::prelude::*;

verus! {

/// The two shapes of envelope. They differ only in how the target URL is
/// put together.
#[derive(Debug, Clone, Copy, PartialEq, Eq)]
pub enum Version {
    /// The first and second version: the URL comes in three parts.
    V2,
    /// The third version: the URL comes whole.
    V3,
}

/// The value of a header, or a default where the header was not sent.
pub open spec fn value_or(list: Seq<Field>, name: Seq<u8>, default: Seq<u8>) -> Seq<u8> {
    match lookup(list, name) {
        Some(value) => value,
        None => default,
    }
}

/// The target URL of a request of the first or second version: the
/// protocol (`https:` by default), two slashes, the host (`example.com` by
/// default) and the path (`/` by default), put together as they are.
pub open spec fn assembled_url(list: Seq<Field>) -> Seq<u8> {
    value_or(list, bare_protocol(), ascii("https:"@)) + ascii("//"@) + value_or(
        list,
        bare_host(),
        ascii("example.com"@),
    ) + value_or(list, bare_path(), ascii("/"@))
}

/// The target URL of a request. The third version has no default: without
/// `x-bare-url` there is no target.
pub open spec fn target_of(version: Version, list: Seq<Field>) -> Result<Seq<u8>, ErrorKind> {
    match version {
        Version::V2 => Ok(assembled_url(list)),
        Version::V3 => match lookup(list, bare_url()) {
            Some(url) => Ok(url),
            None => Err(ErrorKind::MissingBareHeader("x-bare-url"@)),
        },
    }
}

/// Reads a header, with a default for when it was not sent.
fn header_or(headers: &Vec<Header>, name: &[u8], default: Vec<u8>) -> (r: Vec<u8>)
    ensures
        r@ == value_or(fields(headers@), name@, default@),
{
    match get_header(headers, name) {
        Some(value) => value,
        None => default,
    }
}

/// Computes the target URL of a request; see [`target_of`]. Nothing checks
/// that the result is a URL.
///
/// The one error comes with the context `While processing v3 request.`.
pub fn target_url(version: Version, headers: &Vec<Header>) -> (r: Result<Vec<u8>, ErrorWithContext>)
    ensures
        match r {
            Ok(url) => target_of(version, fields(headers@)) == Ok::<Seq<u8>, ErrorKind>(url@),
            Err(e) => target_of(version, fields(headers@)) == Err::<Seq<u8>, ErrorKind>(e.error@)
                && e.context@ == "While processing v3 request."@,
        },
{
    proof {
        reveal_strlit("x-bare-url");
        reveal_strlit("x-bare-protocol");
        reveal_strlit("x-bare-host");
        reveal_strlit("x-bare-path");
        reveal_strlit("https:");
        reveal_strlit("example.com");
        reveal_strlit("/");
        reveal_strlit("//");
    }
    match version {
        Version::V2 => {
            let mut url: Vec<u8> = header_or(
                headers,
                literal("x-bare-protocol").as_slice(),
                literal("https:"),
            );
            let mut slashes: Vec<u8> = literal("//");
            let mut host: Vec<u8> = header_or(
                headers,
                literal("x-bare-host").as_slice(),
                literal("example.com"),
            );
            let mut path: Vec<u8> = header_or(
                headers,
                literal("x-bare-path").as_slice(),
                literal("/"),
            );
            url.append(&mut slashes);
            url.append(&mut host);
            url.append(&mut path);
            Ok(url)
        },
        Version::V3 => match get_header(headers, literal("x-bare-url").as_slice()) {
            Some(url) => Ok(url),
            None => Err(
                ErrorWithContext::new(
                    Error::MissingBareHeader("x-bare-url".to_owned()),
                    "While processing v3 request.",
                ),
            ),
        },
    }
}

/// The one request that goes upstream.
#[derive(Debug, Clone, PartialEq, Eq)]
pub struct OutboundRequest {
    pub url: Vec<u8>,
    pub method: Vec<u8>,
    pub headers: Vec<Header>,
    pub body: Vec<u8>,
}

/// What an [`OutboundRequest`] holds.
pub struct Outbound {
    pub url: Seq<u8>,
    pub method: Seq<u8>,
    pub headers: Seq<Field>,
    pub body: Seq<u8>,
}

impl View for OutboundRequest {
    type V = Outbound;

    open spec fn view(&self) -> Outbound {
        Outbound {
            url: self.url@,
            method: self.method@,
            headers: fields(self.headers@),
            body: self.body@,
        }
    }
}

/// The outbound request of an inbound one, or why none is made.
///
/// A request without a target is refused first. A body of more than `limit`
/// bytes is refused next, as a body that cannot be read: no outbound request
/// exists for it. Else the request goes to the target with the inbound
/// method, the processed headers and the body as it came.
pub open spec fn translated(
    version: Version,
    method: Seq<u8>,
    list: Seq<Field>,
    processed: Seq<Field>,
    body: Seq<u8>,
    limit: nat,
) -> Result<Outbound, ErrorKind> {
    match target_of(version, list) {
        Err(e) => Err(e),
        Ok(url) => if body.len() > limit {
            Err(ErrorKind::Generic("invalid_body"@))
        } else {
            Ok(Outbound { url, method, headers: processed, body })
        },
    }
}

/// A request of the third version that sends no `x-bare-url` has no target:
/// it is refused as missing that header, whatever else it sends, and no
/// outbound request is made of it.
pub proof fn lemma_url_is_required(
    method: Seq<u8>,
    list: Seq<Field>,
    processed: Seq<Field>,
    body: Seq<u8>,
    limit: nat,
)
    requires
        !has_header(list, bare_url()),
    ensures
        target_of(Version::V3, list) == Err::<Seq<u8>, ErrorKind>(
            ErrorKind::MissingBareHeader("x-bare-url"@),
        ),
        translated(Version::V3, method, list, processed, body, limit) == Err::<
            Outbound,
            ErrorKind,
        >(ErrorKind::MissingBareHeader("x-bare-url"@)),
{
}

/// A request of the first or second version that sends none of the three
/// parts of the URL goes to `https://example.com/`.
pub proof fn lemma_default_url(list: Seq<Field>)
    requires
        !has_header(list, bare_protocol()),
        !has_header(list, bare_host()),
        !has_header(list, bare_path()),
    ensures
        target_of(Version::V2, list) == Ok::<Seq<u8>, ErrorKind>(ascii("https://example.com/"@)),
{
    reveal_strlit("https:");
    reveal_strlit("//");
    reveal_strlit("example.com");
    reveal_strlit("/");
    reveal_strlit("https://example.com/");
    assert(assembled_url(list) =~= ascii("https://example.com/"@));
}

/// A body that is longer than the limit yields no outbound request, whatever
/// the rest of the inbound request holds.
pub proof fn lemma_long_body_is_refused(
    version: Version,
    method: Seq<u8>,
    list: Seq<Field>,
    processed: Seq<Field>,
    body: Seq<u8>,
    limit: nat,
)
    requires
        body.len() > limit,
    ensures
        translated(version, method, list, processed, body, limit) is Err,
        target_of(version, list) is Ok ==> translated(
            version,
            method,
            list,
            processed,
            body,
            limit,
        ) == Err::<Outbound, ErrorKind>(ErrorKind::Generic("invalid_body"@)),
{
}

/// The note that goes with a refused request: it says whether the target was
/// missing or the body too long.
pub open spec fn translate_note(version: Version, list: Seq<Field>) -> Seq<char> {
    if target_of(version, list) is Err {
        "While processing v3 request."@
    } else {
        "Couldn't parse request body."@
    }
}

/// Builds the one outbound request of an inbound request; see
/// [`translated`].
///
/// A body of more than `limit` bytes never yields a request.
pub fn translate_request(
    version: Version,
    method: &[u8],
    headers: &Vec<Header>,
    processed: &ProcessedHeaders,
    body: Vec<u8>,
    limit: usize,
) -> (r: Result<OutboundRequest, ErrorWithContext>)
    ensures
        match r {
            Ok(request) => translated(
                version,
                method@,
                fields(headers@),
                processed@,
                body@,
                limit as nat,
            ) == Ok::<Outbound, ErrorKind>(request@),
            Err(e) => translated(
                version,
                method@,
                fields(headers@),
                processed@,
                body@,
                limit as nat,
            ) == Err::<Outbound, ErrorKind>(e.error@) && e.context@ == translate_note(
                version,
                fields(headers@),
            ),
        },
        body@.len() > limit ==> r is Err,
{
    let url: Vec<u8> = match target_url(version, headers) {
        Ok(url) => url,
        Err(e) => {
            return Err(e);
        },
    };
    if body.len() > limit {
        return Err(
            ErrorWithContext::new(
                Error::Generic("invalid_body".to_owned()),
                "Couldn't parse request body.",
            ),
        );
    }
    Ok(
        OutboundRequest {
            url,
            method: copy_bytes(method),
            headers: copy_headers(processed.headers()),
            body,
        },
    )
}

} // verus!
