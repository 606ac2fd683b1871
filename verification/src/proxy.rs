//! The forwarding handler: one HTTP exchange relayed to the dev server.
//!
//! The handler is a state machine. Its driver performs the action that the
//! machine asks for (read a piece of a body, send the outbound request) and
//! reports what came of it as the next event. Everything that is decided
//! during an exchange is decided here.

use crate::supervisor::LOCALHOST_PREFIX;
use crate::text::{decimal, push_decimal};
use vstd::prelude::*;
use vstd::string::StringExecFns;

verus! {

/// The largest body, in bytes, that is relayed in either direction.
pub const MAX_PAYLOAD_SIZE: usize = 1024 * 1024 * 1024;

/// One header line: a name and the bytes of its value.
#[derive(Clone, Debug, PartialEq, Eq)]
pub struct Header {
    pub name: String,
    pub value: Vec<u8>,
}

/// The mathematical value of a [`Header`].
pub struct HeaderView {
    pub name: Seq<char>,
    pub value: Seq<u8>,
}

impl View for Header {
    type V = HeaderView;

    open spec fn view(&self) -> HeaderView {
        HeaderView { name: self.name@, value: self.value@ }
    }
}

/// The values of a list of headers, in the order of the list.
pub open spec fn headers_view(headers: Vec<Header>) -> Seq<HeaderView> {
    Seq::new(headers@.len(), |i: int| headers@[i]@)
}

/// What the handler is told of an incoming request before its body is read.
#[derive(Clone, Debug, PartialEq, Eq)]
pub struct ProxyRequest {
    pub method: String,
    /// The path and query, as they stand in the request line.
    pub uri: String,
    pub headers: Vec<Header>,
}

/// The mathematical value of a [`ProxyRequest`].
pub struct ProxyRequestView {
    pub method: Seq<char>,
    pub uri: Seq<char>,
    pub headers: Seq<HeaderView>,
}

impl View for ProxyRequest {
    type V = ProxyRequestView;

    open spec fn view(&self) -> ProxyRequestView {
        ProxyRequestView {
            method: self.method@,
            uri: self.uri@,
            headers: headers_view(self.headers),
        }
    }
}

/// The request that is sent to the dev server.
#[derive(Clone, Debug, PartialEq, Eq)]
pub struct ForwardRequest {
    pub method: String,
    pub url: String,
    pub headers: Vec<Header>,
    pub body: Vec<u8>,
}

/// The mathematical value of a [`ForwardRequest`].
pub struct ForwardRequestView {
    pub method: Seq<char>,
    pub url: Seq<char>,
    pub headers: Seq<HeaderView>,
    pub body: Seq<u8>,
}

impl View for ForwardRequest {
    type V = ForwardRequestView;

    open spec fn view(&self) -> ForwardRequestView {
        ForwardRequestView {
            method: self.method@,
            url: self.url@,
            headers: headers_view(self.headers),
            body: self.body@,
        }
    }
}

/// The response that is handed back to the client.
#[derive(Clone, Debug, PartialEq, Eq)]
pub struct ProxyResponse {
    pub status: u16,
    pub headers: Vec<Header>,
    pub body: Vec<u8>,
}

/// The mathematical value of a [`ProxyResponse`].
pub struct ProxyResponseView {
    pub status: u16,
    pub headers: Seq<HeaderView>,
    pub body: Seq<u8>,
}

impl View for ProxyResponse {
    type V = ProxyResponseView;

    open spec fn view(&self) -> ProxyResponseView {
        ProxyResponseView {
            status: self.status,
            headers: headers_view(self.headers),
            body: self.body@,
        }
    }
}

/// The body that grew too large.
#[derive(Clone, Copy, Debug, PartialEq, Eq, Structural)]
pub enum Direction {
    /// The body of the incoming request.
    Request,
    /// The body of the dev server's response.
    Response,
}

/// Why an exchange ended without a response from the dev server.
#[derive(Clone, Debug, PartialEq, Eq)]
pub enum ProxyError {
    /// No port is known for the dev server.
    PortUnset,
    /// A body is larger than [`MAX_PAYLOAD_SIZE`].
    PayloadTooLarge(Direction),
    /// The outbound request could not be completed; the text says why.
    ForwardingFailure(String),
    /// An event arrived that the exchange was not waiting for.
    OutOfSequence,
}

/// The mathematical value of a [`ProxyError`].
pub enum ProxyErrorView {
    PortUnset,
    PayloadTooLarge(Direction),
    ForwardingFailure(Seq<char>),
    OutOfSequence,
}

impl View for ProxyError {
    type V = ProxyErrorView;

    open spec fn view(&self) -> ProxyErrorView {
        match self {
            ProxyError::PortUnset => ProxyErrorView::PortUnset,
            ProxyError::PayloadTooLarge(direction) => ProxyErrorView::PayloadTooLarge(*direction),
            ProxyError::ForwardingFailure(reason) => ProxyErrorView::ForwardingFailure(reason@),
            ProxyError::OutOfSequence => ProxyErrorView::OutOfSequence,
        }
    }
}

/// Where an exchange stands.
#[derive(Clone, Debug, PartialEq, Eq)]
pub enum ProxyState {
    /// The body of the incoming request is being read.
    ReadingRequest { method: String, url: String, headers: Vec<Header>, body: Vec<u8> },
    /// The outbound request was handed out; its outcome is awaited.
    AwaitingResponse,
    /// The body of the dev server's response is being read.
    ReadingResponse { status: u16, headers: Vec<Header>, body: Vec<u8> },
    /// The exchange is over.
    Finished,
}

/// The mathematical value of a [`ProxyState`].
pub enum ProxyStateView {
    ReadingRequest { method: Seq<char>, url: Seq<char>, headers: Seq<HeaderView>, body: Seq<u8> },
    AwaitingResponse,
    ReadingResponse { status: u16, headers: Seq<HeaderView>, body: Seq<u8> },
    Finished,
}

impl View for ProxyState {
    type V = ProxyStateView;

    open spec fn view(&self) -> ProxyStateView {
        match self {
            ProxyState::ReadingRequest { method, url, headers, body } => {
                ProxyStateView::ReadingRequest {
                    method: method@,
                    url: url@,
                    headers: headers_view(*headers),
                    body: body@,
                }
            },
            ProxyState::AwaitingResponse => ProxyStateView::AwaitingResponse,
            ProxyState::ReadingResponse { status, headers, body } => {
                ProxyStateView::ReadingResponse {
                    status: *status,
                    headers: headers_view(*headers),
                    body: body@,
                }
            },
            ProxyState::Finished => ProxyStateView::Finished,
        }
    }
}

/// What the driver reports to the machine.
#[derive(Clone, Debug, PartialEq, Eq)]
pub enum ProxyEvent {
    /// The next piece of the body that is being read.
    Chunk(Vec<u8>),
    /// The body that is being read has ended.
    EndOfBody,
    /// The dev server answered: its status line and headers.
    ResponseHead { status: u16, headers: Vec<Header> },
    /// The outbound request could not be completed.
    ForwardFailed(String),
}

/// The mathematical value of a [`ProxyEvent`].
pub enum ProxyEventView {
    Chunk(Seq<u8>),
    EndOfBody,
    ResponseHead { status: u16, headers: Seq<HeaderView> },
    ForwardFailed(Seq<char>),
}

impl View for ProxyEvent {
    type V = ProxyEventView;

    open spec fn view(&self) -> ProxyEventView {
        match self {
            ProxyEvent::Chunk(bytes) => ProxyEventView::Chunk(bytes@),
            ProxyEvent::EndOfBody => ProxyEventView::EndOfBody,
            ProxyEvent::ResponseHead { status, headers } => ProxyEventView::ResponseHead {
                status: *status,
                headers: headers_view(*headers),
            },
            ProxyEvent::ForwardFailed(reason) => ProxyEventView::ForwardFailed(reason@),
        }
    }
}

/// What the machine asks of the driver.
#[derive(Clone, Debug, PartialEq, Eq)]
pub enum ProxyAction {
    /// Read the next piece of the incoming request's body.
    ReadRequestBody,
    /// Send this request to the dev server.
    Forward(ForwardRequest),
    /// Read the next piece of the dev server's response body.
    ReadResponseBody,
    /// Hand this response to the client; the exchange is over.
    Respond(ProxyResponse),
    /// Report this error to the client; the exchange is over.
    Fail(ProxyError),
}

/// The mathematical value of a [`ProxyAction`].
pub enum ProxyActionView {
    ReadRequestBody,
    Forward(ForwardRequestView),
    ReadResponseBody,
    Respond(ProxyResponseView),
    Fail(ProxyErrorView),
}

impl View for ProxyAction {
    type V = ProxyActionView;

    open spec fn view(&self) -> ProxyActionView {
        match self {
            ProxyAction::ReadRequestBody => ProxyActionView::ReadRequestBody,
            ProxyAction::Forward(request) => ProxyActionView::Forward(request@),
            ProxyAction::ReadResponseBody => ProxyActionView::ReadResponseBody,
            ProxyAction::Respond(response) => ProxyActionView::Respond(response@),
            ProxyAction::Fail(error) => ProxyActionView::Fail(error@),
        }
    }
}

/// The address on the dev server that stands for `uri` on this server.
pub open spec fn target_url(port: u16, uri: Seq<char>) -> Seq<char> {
    LOCALHOST_PREFIX@ + decimal(port as nat) + uri
}

/// Whether a body of `held` bytes may grow by `more` bytes.
pub open spec fn fits(held: nat, more: nat) -> bool {
    held + more <= MAX_PAYLOAD_SIZE
}

/// How an exchange starts: with a failure where no port is known, and
/// otherwise with the reading of the request body.
pub open spec fn start_of_exchange(port: Option<u16>, request: ProxyRequestView) -> (
    ProxyStateView,
    ProxyActionView,
) {
    match port {
        Some(port) => (
            ProxyStateView::ReadingRequest {
                method: request.method,
                url: target_url(port, request.uri),
                headers: request.headers,
                body: Seq::empty(),
            },
            ProxyActionView::ReadRequestBody,
        ),
        None => (ProxyStateView::Finished, ProxyActionView::Fail(ProxyErrorView::PortUnset)),
    }
}

/// The transition of the machine: the state that follows `state` on `event`,
/// and the action that the driver is to perform next.
pub open spec fn transition(state: ProxyStateView, event: ProxyEventView) -> (
    ProxyStateView,
    ProxyActionView,
) {
    match (state, event) {
        (
            ProxyStateView::ReadingRequest { method, url, headers, body },
            ProxyEventView::Chunk(bytes),
        ) => {
            if fits(body.len(), bytes.len()) {
                (
                    ProxyStateView::ReadingRequest { method, url, headers, body: body + bytes },
                    ProxyActionView::ReadRequestBody,
                )
            } else {
                (
                    ProxyStateView::Finished,
                    ProxyActionView::Fail(ProxyErrorView::PayloadTooLarge(Direction::Request)),
                )
            }
        },
        (
            ProxyStateView::ReadingRequest { method, url, headers, body },
            ProxyEventView::EndOfBody,
        ) => (
            ProxyStateView::AwaitingResponse,
            ProxyActionView::Forward(ForwardRequestView { method, url, headers, body }),
        ),
        (ProxyStateView::AwaitingResponse, ProxyEventView::ResponseHead { status, headers }) => (
            ProxyStateView::ReadingResponse { status, headers, body: Seq::empty() },
            ProxyActionView::ReadResponseBody,
        ),
        (ProxyStateView::AwaitingResponse, ProxyEventView::ForwardFailed(reason)) => (
            ProxyStateView::Finished,
            ProxyActionView::Fail(ProxyErrorView::ForwardingFailure(reason)),
        ),
        (ProxyStateView::ReadingResponse { status, headers, body }, ProxyEventView::Chunk(bytes)) => {
            if fits(body.len(), bytes.len()) {
                (
                    ProxyStateView::ReadingResponse { status, headers, body: body + bytes },
                    ProxyActionView::ReadResponseBody,
                )
            } else {
                (
                    ProxyStateView::Finished,
                    ProxyActionView::Fail(ProxyErrorView::PayloadTooLarge(Direction::Response)),
                )
            }
        },
        (ProxyStateView::ReadingResponse { status, headers, body }, ProxyEventView::EndOfBody) => (
            ProxyStateView::Finished,
            ProxyActionView::Respond(ProxyResponseView { status, headers, body }),
        ),
        _ => (ProxyStateView::Finished, ProxyActionView::Fail(ProxyErrorView::OutOfSequence)),
    }
}

/// The HTTP status under which an error is reported to the client.
pub open spec fn error_status(error: ProxyErrorView) -> u16 {
    match error {
        ProxyErrorView::PayloadTooLarge(_) => 413,
        _ => 500,
    }
}

/// The text with which an error is reported to the client.
pub open spec fn error_message(error: ProxyErrorView) -> Seq<char> {
    match error {
        ProxyErrorView::PortUnset => "Unable to get port, you may have to set the port manually"@,
        ProxyErrorView::PayloadTooLarge(Direction::Request) => "Payload overflow"@,
        ProxyErrorView::PayloadTooLarge(Direction::Response) => "Response payload overflow"@,
        ProxyErrorView::ForwardingFailure(reason) => "Failed to forward request: "@ + reason,
        ProxyErrorView::OutOfSequence => "Unexpected event in the exchange"@,
    }
}

impl ProxyError {
    /// The HTTP status under which the error is reported: 413 for a body
    /// that is too large, 500 for everything else.
    pub fn status_code(&self) -> (status: u16)
        ensures
            status == error_status(self@),
    {
        match self {
            ProxyError::PayloadTooLarge(_) => 413,
            _ => 500,
        }
    }

    /// The text with which the error is reported.
    pub fn message(&self) -> (text: String)
        ensures
            text@ == error_message(self@),
    {
        match self {
            ProxyError::PortUnset => String::from_str(
                "Unable to get port, you may have to set the port manually",
            ),
            ProxyError::PayloadTooLarge(Direction::Request) => String::from_str(
                "Payload overflow",
            ),
            ProxyError::PayloadTooLarge(Direction::Response) => String::from_str(
                "Response payload overflow",
            ),
            ProxyError::ForwardingFailure(reason) => String::from_str(
                "Failed to forward request: ",
            ).concat(reason.as_str()),
            ProxyError::OutOfSequence => String::from_str("Unexpected event in the exchange"),
        }
    }
}

/// Builds the address on the dev server that stands for `uri`.
pub fn forward_url(port: u16, uri: &str) -> (url: String)
    ensures
        url@ == target_url(port, uri@),
{
    let mut url = String::from_str(LOCALHOST_PREFIX);
    push_decimal(&mut url, port);
    url.append(uri);
    url
}

/// Whether a body that holds `held` bytes may take `more` bytes and stay
/// within [`MAX_PAYLOAD_SIZE`].
pub fn within_limit(held: usize, more: usize) -> (b: bool)
    ensures
        b == fits(held as nat, more as nat),
{
    more <= MAX_PAYLOAD_SIZE && held <= MAX_PAYLOAD_SIZE - more
}

/// Starts an exchange. Without a port nothing is read and nothing is sent:
/// the exchange fails at once.
pub fn begin(port: Option<u16>, request: ProxyRequest) -> (next: (ProxyState, ProxyAction))
    ensures
        (next.0@, next.1@) == start_of_exchange(port, request@),
{
    match port {
        Some(port) => {
            let url = forward_url(port, request.uri.as_str());
            (
                ProxyState::ReadingRequest {
                    method: request.method,
                    url,
                    headers: request.headers,
                    body: Vec::new(),
                },
                ProxyAction::ReadRequestBody,
            )
        },
        None => (ProxyState::Finished, ProxyAction::Fail(ProxyError::PortUnset)),
    }
}

/// Advances an exchange by one event.
pub fn step(state: ProxyState, event: ProxyEvent) -> (next: (ProxyState, ProxyAction))
    ensures
        (next.0@, next.1@) == transition(state@, event@),
{
    match state {
        ProxyState::ReadingRequest { method, url, headers, body } => match event {
            ProxyEvent::Chunk(bytes) => {
                if within_limit(body.len(), bytes.len()) {
                    let mut body = body;
                    let mut bytes = bytes;
                    body.append(&mut bytes);
                    (
                        ProxyState::ReadingRequest { method, url, headers, body },
                        ProxyAction::ReadRequestBody,
                    )
                } else {
                    (
                        ProxyState::Finished,
                        ProxyAction::Fail(ProxyError::PayloadTooLarge(Direction::Request)),
                    )
                }
            },
            ProxyEvent::EndOfBody => (
                ProxyState::AwaitingResponse,
                ProxyAction::Forward(ForwardRequest { method, url, headers, body }),
            ),
            _ => (ProxyState::Finished, ProxyAction::Fail(ProxyError::OutOfSequence)),
        },
        ProxyState::AwaitingResponse => match event {
            ProxyEvent::ResponseHead { status, headers } => (
                ProxyState::ReadingResponse { status, headers, body: Vec::new() },
                ProxyAction::ReadResponseBody,
            ),
            ProxyEvent::ForwardFailed(reason) => (
                ProxyState::Finished,
                ProxyAction::Fail(ProxyError::ForwardingFailure(reason)),
            ),
            _ => (ProxyState::Finished, ProxyAction::Fail(ProxyError::OutOfSequence)),
        },
        ProxyState::ReadingResponse { status, headers, body } => match event {
            ProxyEvent::Chunk(bytes) => {
                if within_limit(body.len(), bytes.len()) {
                    let mut body = body;
                    let mut bytes = bytes;
                    body.append(&mut bytes);
                    (
                        ProxyState::ReadingResponse { status, headers, body },
                        ProxyAction::ReadResponseBody,
                    )
                } else {
                    (
                        ProxyState::Finished,
                        ProxyAction::Fail(ProxyError::PayloadTooLarge(Direction::Response)),
                    )
                }
            },
            ProxyEvent::EndOfBody => (
                ProxyState::Finished,
                ProxyAction::Respond(ProxyResponse { status, headers, body }),
            ),
            _ => (ProxyState::Finished, ProxyAction::Fail(ProxyError::OutOfSequence)),
        },
        ProxyState::Finished => (
            ProxyState::Finished,
            ProxyAction::Fail(ProxyError::OutOfSequence),
        ),
    }
}

/// The bytes of a body that arrives in these pieces.
pub open spec fn joined(chunks: Seq<Seq<u8>>) -> Seq<u8>
    decreases chunks.len(),
{
    if chunks.len() == 0 {
        Seq::empty()
    } else {
        chunks[0] + joined(chunks.drop_first())
    }
}

/// What a driver reports while it reads a body to its end: one event for
/// each piece, then the end of the body.
pub open spec fn body_events(chunks: Seq<Seq<u8>>) -> Seq<ProxyEventView>
    decreases chunks.len(),
{
    if chunks.len() == 0 {
        seq![ProxyEventView::EndOfBody]
    } else {
        seq![ProxyEventView::Chunk(chunks[0])] + body_events(chunks.drop_first())
    }
}

/// The actions that the machine asks for, one after the other, while
/// `events` are reported to it from `state` on. The list ends with the
/// action that ends the exchange, if the events lead that far.
pub open spec fn actions(state: ProxyStateView, events: Seq<ProxyEventView>) -> Seq<
    ProxyActionView,
>
    decreases events.len(),
{
    if events.len() == 0 {
        Seq::empty()
    } else {
        let (next, action) = transition(state, events[0]);
        if next is Finished {
            seq![action]
        } else {
            seq![action] + actions(next, events.drop_first())
        }
    }
}

/// Whether a body is being read in `state`.
spec fn is_reading(state: ProxyStateView) -> bool {
    state is ReadingRequest || state is ReadingResponse
}

/// The part of the body that `state` holds.
spec fn held(state: ProxyStateView) -> Seq<u8> {
    match state {
        ProxyStateView::ReadingRequest { body, .. } => body,
        ProxyStateView::ReadingResponse { body, .. } => body,
        _ => Seq::empty(),
    }
}

/// `state` with `bytes` added to the body that it holds.
spec fn grown(state: ProxyStateView, bytes: Seq<u8>) -> ProxyStateView {
    match state {
        ProxyStateView::ReadingRequest { method, url, headers, body } => {
            ProxyStateView::ReadingRequest { method, url, headers, body: body + bytes }
        },
        ProxyStateView::ReadingResponse { status, headers, body } => {
            ProxyStateView::ReadingResponse { status, headers, body: body + bytes }
        },
        _ => state,
    }
}

/// The action that asks for the next piece of the body read in `state`.
spec fn read_on(state: ProxyStateView) -> ProxyActionView {
    if state is ReadingRequest {
        ProxyActionView::ReadRequestBody
    } else {
        ProxyActionView::ReadResponseBody
    }
}

/// The failure that follows when the body read in `state` grows too large.
spec fn overflow(state: ProxyStateView) -> ProxyActionView {
    if state is ReadingRequest {
        ProxyActionView::Fail(ProxyErrorView::PayloadTooLarge(Direction::Request))
    } else {
        ProxyActionView::Fail(ProxyErrorView::PayloadTooLarge(Direction::Response))
    }
}

/// The action that follows the end of the body read in `state`.
spec fn completion(state: ProxyStateView) -> ProxyActionView {
    transition(state, ProxyEventView::EndOfBody).1
}

/// A body that stays within the limit is read to its end: every piece is
/// answered by a request for the next one, and the end of the body by the
/// action that completes the state with the whole body in it.
proof fn lemma_body_within_limit(state: ProxyStateView, chunks: Seq<Seq<u8>>)
    requires
        is_reading(state),
        held(state).len() + joined(chunks).len() <= MAX_PAYLOAD_SIZE,
    ensures
        actions(state, body_events(chunks)).len() == chunks.len() + 1,
        forall|i: int|
            0 <= i < chunks.len() ==> #[trigger] actions(state, body_events(chunks))[i] == read_on(
                state,
            ),
        actions(state, body_events(chunks)).last() == completion(grown(state, joined(chunks))),
    decreases chunks.len(),
{
    let events = body_events(chunks);
    if chunks.len() == 0 {
        assert(events.drop_first() == Seq::<ProxyEventView>::empty());
        assert(held(state) + joined(chunks) == held(state));
        assert(grown(state, joined(chunks)) == state);
        let (next, action) = transition(state, events[0]);
        assert(actions(next, events.drop_first()) == Seq::<ProxyActionView>::empty());
        assert(actions(state, events) == seq![action]);
    } else {
        let rest = chunks.drop_first();
        assert(events.drop_first() == body_events(rest));
        let next = grown(state, chunks[0]);
        assert(joined(chunks).len() == chunks[0].len() + joined(rest).len());
        assert(transition(state, events[0]) == (next, read_on(state)));
        lemma_body_within_limit(next, rest);
        assert(held(state) + chunks[0] + joined(rest) == held(state) + joined(chunks));
        assert(grown(next, joined(rest)) == grown(state, joined(chunks)));
        assert(actions(state, events) == seq![read_on(state)] + actions(next, body_events(rest)));
        let tail = actions(next, body_events(rest));
        assert forall|i: int| 0 <= i < chunks.len() implies #[trigger] actions(state, events)[i]
            == read_on(state) by {
            if i > 0 {
                assert(actions(state, events)[i] == tail[i - 1]);
            }
        }
    }
}

/// A body that grows beyond the limit is never read to its end: the pieces
/// that fit are answered by a request for the next one, and the first piece
/// that does not fit ends the exchange with the failure for that body.
proof fn lemma_body_over_limit(state: ProxyStateView, chunks: Seq<Seq<u8>>)
    requires
        is_reading(state),
        held(state).len() <= MAX_PAYLOAD_SIZE,
        held(state).len() + joined(chunks).len() > MAX_PAYLOAD_SIZE,
    ensures
        1 <= actions(state, body_events(chunks)).len() <= chunks.len(),
        forall|i: int|
            0 <= i < actions(state, body_events(chunks)).len() - 1 ==> #[trigger] actions(
                state,
                body_events(chunks),
            )[i] == read_on(state),
        actions(state, body_events(chunks)).last() == overflow(state),
    decreases chunks.len(),
{
    let events = body_events(chunks);
    if chunks.len() > 0 {
        let rest = chunks.drop_first();
        assert(events.drop_first() == body_events(rest));
        assert(joined(chunks).len() == chunks[0].len() + joined(rest).len());
        if fits(held(state).len(), chunks[0].len()) {
            let next = grown(state, chunks[0]);
            assert(transition(state, events[0]) == (next, read_on(state)));
            lemma_body_over_limit(next, rest);
            let tail = actions(next, body_events(rest));
            assert(actions(state, events) == seq![read_on(state)] + tail);
            assert forall|i: int| 0 <= i < actions(state, events).len() - 1 implies #[trigger] actions(
                state,
                events,
            )[i] == read_on(state) by {
                if i > 0 {
                    assert(actions(state, events)[i] == tail[i - 1]);
                }
            }
        } else {
            assert(transition(state, events[0]) == (ProxyStateView::Finished, overflow(state)));
            assert(actions(state, events) == seq![overflow(state)]);
        }
    }
}

/// A request body of at most [`MAX_PAYLOAD_SIZE`] bytes reaches the dev
/// server byte for byte: while its pieces arrive the machine only asks for
/// the next one, and at its end the machine forwards one request, with the
/// method and headers that came in, to the same path on the dev server, and
/// with the pieces of the body joined in order.
pub proof fn request_within_limit_is_forwarded_whole(
    port: u16,
    request: ProxyRequestView,
    chunks: Seq<Seq<u8>>,
)
    requires
        joined(chunks).len() <= MAX_PAYLOAD_SIZE,
    ensures
        ({
            let asked = actions(start_of_exchange(Some(port), request).0, body_events(chunks));
            &&& asked.len() == chunks.len() + 1
            &&& forall|i: int|
                0 <= i < chunks.len() ==> #[trigger] asked[i] == ProxyActionView::ReadRequestBody
            &&& asked.last() == ProxyActionView::Forward(
                ForwardRequestView {
                    method: request.method,
                    url: target_url(port, request.uri),
                    headers: request.headers,
                    body: joined(chunks),
                },
            )
        }),
{
    let state = start_of_exchange(Some(port), request).0;
    lemma_body_within_limit(state, chunks);
    assert(Seq::<u8>::empty() + joined(chunks) == joined(chunks));
}

/// A request body of more than [`MAX_PAYLOAD_SIZE`] bytes is refused and
/// nothing of it is forwarded: the exchange ends with the failure for a
/// request that is too large, and no action before it sends anything.
pub proof fn request_over_limit_is_not_forwarded(
    port: u16,
    request: ProxyRequestView,
    chunks: Seq<Seq<u8>>,
)
    requires
        joined(chunks).len() > MAX_PAYLOAD_SIZE,
    ensures
        ({
            let asked = actions(start_of_exchange(Some(port), request).0, body_events(chunks));
            &&& asked.len() >= 1
            &&& asked.last() == ProxyActionView::Fail(
                ProxyErrorView::PayloadTooLarge(Direction::Request),
            )
            &&& forall|i: int| 0 <= i < asked.len() ==> !(#[trigger] asked[i] is Forward)
        }),
{
    let state = start_of_exchange(Some(port), request).0;
    lemma_body_over_limit(state, chunks);
}

/// A response of the dev server whose body has at most
/// [`MAX_PAYLOAD_SIZE`] bytes is handed back as it came: with the same
/// status, the same headers in the same order, and the pieces of the body
/// joined in order.
pub proof fn response_within_limit_is_relayed_unchanged(
    status: u16,
    headers: Seq<HeaderView>,
    chunks: Seq<Seq<u8>>,
)
    requires
        joined(chunks).len() <= MAX_PAYLOAD_SIZE,
    ensures
        ({
            let head = ProxyEventView::ResponseHead { status, headers };
            let asked = actions(ProxyStateView::AwaitingResponse, seq![head] + body_events(chunks));
            &&& asked.len() == chunks.len() + 2
            &&& forall|i: int|
                0 <= i <= chunks.len() ==> #[trigger] asked[i] == ProxyActionView::ReadResponseBody
            &&& asked.last() == ProxyActionView::Respond(
                ProxyResponseView { status, headers, body: joined(chunks) },
            )
        }),
{
    let head = ProxyEventView::ResponseHead { status, headers };
    let events = seq![head] + body_events(chunks);
    let state = ProxyStateView::ReadingResponse { status, headers, body: Seq::empty() };
    assert(events.drop_first() == body_events(chunks));
    assert(transition(ProxyStateView::AwaitingResponse, events[0]) == (
        state,
        ProxyActionView::ReadResponseBody,
    ));
    lemma_body_within_limit(state, chunks);
    assert(Seq::<u8>::empty() + joined(chunks) == joined(chunks));
    let asked = actions(ProxyStateView::AwaitingResponse, events);
    let tail = actions(state, body_events(chunks));
    assert(asked == seq![ProxyActionView::ReadResponseBody] + tail);
    assert forall|i: int| 0 <= i <= chunks.len() implies #[trigger] asked[i]
        == ProxyActionView::ReadResponseBody by {
        if i > 0 {
            assert(asked[i] == tail[i - 1]);
        }
    }
}

/// A response of the dev server whose body has more than
/// [`MAX_PAYLOAD_SIZE`] bytes is refused: the exchange ends with the failure
/// for a response that is too large, and no action hands a response back.
pub proof fn response_over_limit_is_not_relayed(
    status: u16,
    headers: Seq<HeaderView>,
    chunks: Seq<Seq<u8>>,
)
    requires
        joined(chunks).len() > MAX_PAYLOAD_SIZE,
    ensures
        ({
            let head = ProxyEventView::ResponseHead { status, headers };
            let asked = actions(ProxyStateView::AwaitingResponse, seq![head] + body_events(chunks));
            &&& asked.len() >= 2
            &&& asked.last() == ProxyActionView::Fail(
                ProxyErrorView::PayloadTooLarge(Direction::Response),
            )
            &&& forall|i: int| 0 <= i < asked.len() ==> !(#[trigger] asked[i] is Respond)
        }),
{
    let head = ProxyEventView::ResponseHead { status, headers };
    let events = seq![head] + body_events(chunks);
    let state = ProxyStateView::ReadingResponse { status, headers, body: Seq::empty() };
    assert(events.drop_first() == body_events(chunks));
    assert(transition(ProxyStateView::AwaitingResponse, events[0]) == (
        state,
        ProxyActionView::ReadResponseBody,
    ));
    lemma_body_over_limit(state, chunks);
    let asked = actions(ProxyStateView::AwaitingResponse, events);
    let tail = actions(state, body_events(chunks));
    assert(asked == seq![ProxyActionView::ReadResponseBody] + tail);
    assert forall|i: int| 0 <= i < asked.len() implies !(#[trigger] asked[i] is Respond) by {
        if i > 0 {
            assert(asked[i] == tail[i - 1]);
        }
    }
}

/// While no port is known nothing is ever sent to the dev server: the
/// exchange fails at its start, and no event that is reported afterwards
/// makes the machine forward a request or hand back a response.
pub proof fn exchange_without_port_forwards_nothing(
    request: ProxyRequestView,
    events: Seq<ProxyEventView>,
)
    ensures
        start_of_exchange(None, request).1 == ProxyActionView::Fail(ProxyErrorView::PortUnset),
        forall|i: int|
            0 <= i < actions(start_of_exchange(None, request).0, events).len() ==> ({
                let asked = #[trigger] actions(start_of_exchange(None, request).0, events)[i];
                !(asked is Forward) && !(asked is Respond)
            }),
{
}

/// Once the request body is behind it, the machine forwards nothing more.
proof fn lemma_no_forward_behind_the_request(state: ProxyStateView, events: Seq<ProxyEventView>)
    requires
        !(state is ReadingRequest),
    ensures
        forall|i: int|
            0 <= i < actions(state, events).len() ==> !(#[trigger] actions(state, events)[i]
                is Forward),
    decreases events.len(),
{
    if events.len() > 0 {
        let (next, action) = transition(state, events[0]);
        if !(next is Finished) {
            let tail = actions(next, events.drop_first());
            lemma_no_forward_behind_the_request(next, events.drop_first());
            assert forall|i: int| 0 <= i < actions(state, events).len() implies !(
            #[trigger] actions(state, events)[i] is Forward) by {
                if i > 0 {
                    assert(actions(state, events)[i] == tail[i - 1]);
                }
            }
        }
    }
}

/// From any state, whatever is reported, the machine forwards at most once.
proof fn lemma_at_most_one_forward(state: ProxyStateView, events: Seq<ProxyEventView>)
    ensures
        forall|i: int, j: int|
            0 <= i < j < actions(state, events).len() ==> !(#[trigger] actions(state, events)[i]
                is Forward && #[trigger] actions(state, events)[j] is Forward),
    decreases events.len(),
{
    if events.len() > 0 {
        let (next, action) = transition(state, events[0]);
        if !(next is Finished) {
            let tail = actions(next, events.drop_first());
            lemma_at_most_one_forward(next, events.drop_first());
            if action is Forward {
                lemma_no_forward_behind_the_request(next, events.drop_first());
            }
            assert forall|i: int, j: int| 0 <= i < j < actions(state, events).len() implies !(
            #[trigger] actions(state, events)[i] is Forward && #[trigger] actions(
                state,
                events,
            )[j] is Forward) by {
                assert(actions(state, events)[j] == tail[j - 1]);
                if i > 0 {
                    assert(actions(state, events)[i] == tail[i - 1]);
                }
            }
        }
    }
}

/// An exchange makes one attempt and never tries again: whatever is reported
/// to the machine after the start of an exchange, at most one of the actions
/// that it asks for sends a request to the dev server.
pub proof fn exchange_forwards_at_most_once(
    port: Option<u16>,
    request: ProxyRequestView,
    events: Seq<ProxyEventView>,
)
    ensures
        !(start_of_exchange(port, request).1 is Forward),
        forall|i: int, j: int|
            0 <= i < j < actions(start_of_exchange(port, request).0, events).len() ==> !(
            #[trigger] actions(start_of_exchange(port, request).0, events)[i] is Forward
                && #[trigger] actions(start_of_exchange(port, request).0, events)[j] is Forward),
{
    lemma_at_most_one_forward(start_of_exchange(port, request).0, events);
}

} // verus!
