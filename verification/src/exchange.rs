//! One request's handling, step by step.
//!
//! Handling a request alternates between deciding and waiting: the inbound
//! body is read, the one outbound call is made, upstream answers or does
//! not. The waiting is the caller's. Each time something has happened, the
//! caller reports it as an [`Event`], and [`fetch`] decides what comes next.

use crate::envelope::RequestData;
use crate::error::classified;
use crate::error::classify_failure;
use crate::error::Error;
use crate::error::ErrorKind;
use crate::error::ErrorWithContext;
use crate::error::Failure;
use crate::header::fields;
use crate::header::Header;
use crate::request::target_of;
use crate::request::target_url;
use crate::request::translate_note;
use crate::request::translate_request;
use crate::request::translated;
use crate::request::OutboundRequest;
use crate::request::Version;
use crate::response::composed_headers;
use crate::response::reason_phrase;
use crate::response::respond;
use crate::response::transport_status;
use crate::response::ClientResponse;
use crate::text::texts_of;
use vstd::prelude::*;

verus! {

/// What has happened to a request.
#[derive(Debug, Clone, PartialEq, Eq)]
pub enum Event {
    /// The inbound request has arrived. The body is there if it could be
    /// read within the limit.
    Arrived { body: Option<Vec<u8>> },
    /// Upstream has answered, and its body was read to the end.
    Answered { status: u16, headers: Vec<Header>, body: Vec<u8> },
    /// The outbound call has failed, or the upstream body could not be read
    /// to its end. `detail` says what went wrong.
    Failed { failure: Failure, detail: String },
}

/// What to do next with a request.
#[derive(Debug, Clone, PartialEq, Eq)]
pub enum Action {
    /// Make the one outbound call, and report how it went.
    Send(OutboundRequest),
    /// Answer the client; the request is done.
    Reply(ClientResponse),
    /// Report a failure to the client; the request is done.
    Refuse(ErrorWithContext),
}

/// Whether a failure is the given one, with the given note.
pub open spec fn is_failure(e: ErrorWithContext, kind: ErrorKind, note: Seq<char>) -> bool {
    e.error@ == kind && e.context@ == note
}

/// Decides the next step of a request's handling.
///
/// When the request has arrived, the outbound request is built from its
/// version, method and headers and from the decoded `data`; a request
/// without a target is refused, and so is one whose body could not be read
/// or is longer than `limit` bytes. When upstream has answered, the response
/// to the client is composed; an upstream status that has no words of its
/// own cannot be reported and is refused as an unhandled error. When the
/// call has failed, the failure is classified.
///
/// An outbound call is asked for only when the request has arrived, and
/// never for a body that is missing or too long.
pub fn fetch(
    version: Version,
    method: &[u8],
    headers: &Vec<Header>,
    data: &RequestData,
    limit: usize,
    event: Event,
) -> (r: Action)
    ensures
        match event {
            Event::Arrived { body: Some(body) } => match translated(
                version,
                method@,
                fields(headers@),
                data.processed_headers@,
                body@,
                limit as nat,
            ) {
                Ok(request) => r matches Action::Send(sent) && sent@ == request,
                Err(kind) => r matches Action::Refuse(e) && is_failure(
                    e,
                    kind,
                    translate_note(version, fields(headers@)),
                ),
            },
            Event::Arrived { body: None } => r matches Action::Refuse(e) && match target_of(
                version,
                fields(headers@),
            ) {
                Ok(_) => is_failure(
                    e,
                    ErrorKind::Generic("invalid_body"@),
                    "Couldn't parse request body."@,
                ),
                Err(kind) => is_failure(e, kind, "While processing v3 request."@),
            },
            Event::Answered { status, headers: upstream, body } => match reason_phrase(status) {
                Some(reason) => r matches Action::Reply(response) && response.status
                    == transport_status(status, texts_of(data.status)) && fields(response.headers@)
                    == composed_headers(
                    status,
                    reason,
                    fields(upstream@),
                    texts_of(data.pass_headers),
                ) && response.body@ == body@,
                None => r matches Action::Refuse(e) && is_failure(
                    e,
                    ErrorKind::Generic("unhandled_error"@),
                    "Upstream answered with a status that has no reason phrase."@,
                ),
            },
            Event::Failed { failure, detail } => r matches Action::Refuse(e) && is_failure(
                e,
                classified(failure),
                detail@,
            ),
        },
        r is Send ==> (event matches Event::Arrived { body: Some(body) } && body@.len() <= limit),
{
    match event {
        Event::Arrived { body: Some(body) } => {
            match translate_request(version, method, headers, &data.processed_headers, body, limit) {
                Ok(request) => Action::Send(request),
                Err(e) => Action::Refuse(e),
            }
        },
        Event::Arrived { body: None } => match target_url(version, headers) {
            Ok(_) => Action::Refuse(
                ErrorWithContext::new(
                    Error::Generic("invalid_body".to_owned()),
                    "Couldn't parse request body.",
                ),
            ),
            Err(e) => Action::Refuse(e),
        },
        Event::Answered { status, headers: upstream, body } => {
            match respond(status, &upstream, body, &data.pass_headers, &data.status) {
                Some(response) => Action::Reply(response),
                None => Action::Refuse(
                    ErrorWithContext::new(
                        Error::Generic("unhandled_error".to_owned()),
                        "Upstream answered with a status that has no reason phrase.",
                    ),
                ),
            }
        },
        Event::Failed { failure, detail } => Action::Refuse(
            classify_failure(failure, detail.as_str()),
        ),
    }
}

} // verus!
