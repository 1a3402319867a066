//! The enrollment gateway: which remote call a local request asks for, and
//! the per-request session that opens a secure channel, makes that one call,
//! always closes the channel again, and answers the caller.
//!
//! The session is a state machine: the caller performs each `Action` it
//! returns (open a channel, send, close, answer) and feeds back what happened
//! as an `Event`.
use vstd::prelude::*;
use crate::codec::{
    attributes_body, auth0_body, authenticate_enrollment_body, decode_attributes, decode_auth0,
    decode_authenticate_enrollment, encode_auth0, encode_authenticate_enrollment,
    encode_request_enrollment, request_enrollment_body, token_prefix,
    REQUEST_ENROLLMENT_TOKEN_TAG,
};
use crate::model::{AuthenticateToken, RequestEnrollmentToken};

verus! {

/// The method of a local request.
#[derive(Debug, Clone, Copy, PartialEq, Eq, Structural)]
pub enum Method {
    Get,
    Post,
    Put,
    Delete,
    Patch,
}

/// The status of a response envelope.
#[derive(Debug, Clone, Copy, PartialEq, Eq, Structural)]
pub enum Status {
    Success,
    BadRequest,
    InternalServerError,
}

/// A local request: its id, method, path and optional body.
#[derive(Debug, Clone, PartialEq, Eq)]
pub struct Request {
    pub id: u32,
    pub method: Method,
    pub path: String,
    pub body: Option<Vec<u8>>,
}

/// A response envelope built by the gateway itself.
#[derive(Debug, Clone, PartialEq, Eq)]
pub struct Response {
    pub id: u32,
    pub status: Status,
    pub body: Option<String>,
}

/// What the caller finally gets: the downstream answer as it came, or an
/// envelope of the gateway's own.
#[derive(Debug, Clone, PartialEq, Eq)]
pub enum Reply {
    Forwarded(Vec<u8>),
    Local(Response),
}

/// One remote call: the authenticator service, the request path and body.
#[derive(Debug, Clone, PartialEq, Eq)]
pub struct Call {
    pub service: String,
    pub path: String,
    pub body: Vec<u8>,
}

impl View for Call {
    type V = (Seq<char>, Seq<char>, Seq<u8>);

    open spec fn view(&self) -> (Seq<char>, Seq<char>, Seq<u8>) {
        (self.service@, self.path@, self.body@)
    }
}

/// Where a session stands.
#[derive(Debug, Clone, PartialEq, Eq)]
pub enum Phase {
    /// Waiting for the secure channel; the call is made once it is open.
    Opening { id: u32, call: Call },
    /// The call was sent over `channel`; waiting for its answer.
    Calling { id: u32, channel: u64 },
    /// Waiting for `channel` to be closed; `reply` is then handed out.
    Closing { channel: u64, reply: Reply },
    /// Finished.
    Done,
}

/// What the caller reports back.
#[derive(Debug, Clone, PartialEq, Eq)]
pub enum Event {
    ChannelOpened(u64),
    ChannelOpenFailed(String),
    CallSucceeded(Vec<u8>),
    CallFailed(String),
    /// The close was attempted; whether it worked does not change the answer.
    ChannelClosed,
}

/// What the caller is to do next.
#[derive(Debug, Clone, PartialEq, Eq)]
pub enum Action {
    OpenChannel,
    Send { channel: u64, call: Call },
    CloseChannel(u64),
    /// Answer the caller; the session is over.
    Finish(Reply),
    /// The channel could not be opened: the flow fails locally with this cause.
    Abort(String),
    /// The event does not fit the session's phase and was ignored.
    Wait,
}

/// One session per handled request.
#[derive(Debug, Clone, PartialEq, Eq)]
pub struct Session {
    pub phase: Phase,
}

/// Name of the remote service that checks bearer tokens.
pub open spec fn auth0_authenticator() -> Seq<char> {
    "auth0_authenticator"@
}

/// Name of the remote service that mints and redeems enrollment tokens.
pub open spec fn enrollment_token_authenticator() -> Seq<char> {
    "enrollment_token_authenticator"@
}

/// `body` is the wire form of some bearer authentication request.
pub open spec fn is_auth0_body(body: Seq<u8>) -> bool {
    exists|t: Seq<char>| auth0_body(t) == body
}

/// `body` is the wire form of some enrollment-token redemption request.
pub open spec fn is_authenticate_enrollment_body(body: Seq<u8>) -> bool {
    exists|t: Seq<char>| authenticate_enrollment_body(t) == body
}

/// `body` is the wire form of some attribute map.
pub open spec fn is_attributes_body(body: Seq<u8>) -> bool {
    exists|a: Seq<(Seq<char>, Seq<char>)>| attributes_body(a) == body
}

/// The remote call that a request asks for, if it asks for one:
/// `POST /` with attributes mints a token bound to them; `POST /enroll`
/// authenticates, trying the bearer form first; everything else is a bad
/// request.
pub open spec fn planned_call(method: Method, path: Seq<char>, body: Option<Seq<u8>>) -> Option<
    (Seq<char>, Seq<char>, Seq<u8>),
> {
    match body {
        Some(b) => if method == Method::Post && path == "/"@ {
            if is_attributes_body(b) {
                Some(
                    (enrollment_token_authenticator(), "/"@, token_prefix(
                        REQUEST_ENROLLMENT_TOKEN_TAG,
                    ) + b),
                )
            } else {
                None
            }
        } else if method == Method::Post && path == "/enroll"@ {
            if is_auth0_body(b) {
                Some((auth0_authenticator(), "/enroll"@, b))
            } else if is_authenticate_enrollment_body(b) {
                Some((enrollment_token_authenticator(), "/enroll"@, b))
            } else {
                None
            }
        } else {
            None
        },
        None => None,
    }
}

/// The bytes of an optional body.
pub open spec fn body_view(body: Option<Vec<u8>>) -> Option<Seq<u8>> {
    match body {
        Some(b) => Some(b@),
        None => None,
    }
}

/// The remote call that `req` asks for.
pub open spec fn request_call(req: Request) -> Option<(Seq<char>, Seq<char>, Seq<u8>)> {
    planned_call(req.method, req.path@, body_view(req.body))
}

/// The call that an authentication flow makes.
pub open spec fn flow_call(flow: AuthenticateToken) -> (Seq<char>, Seq<char>, Seq<u8>) {
    match flow {
        AuthenticateToken::Auth0(x) => (
            auth0_authenticator(),
            "/enroll"@,
            auth0_body(x.access_token.0@),
        ),
        AuthenticateToken::EnrollmentToken(x) => (
            enrollment_token_authenticator(),
            "/enroll"@,
            authenticate_enrollment_body(x.token.0@),
        ),
    }
}

/// Picks the authenticator, path and body of an authentication flow.
pub fn select_flow(flow: &AuthenticateToken) -> (r: Call)
    ensures
        r@ == flow_call(*flow),
{
    match flow {
        AuthenticateToken::Auth0(x) => Call {
            service: "auth0_authenticator".to_owned(),
            path: "/enroll".to_owned(),
            body: encode_auth0(x),
        },
        AuthenticateToken::EnrollmentToken(x) => Call {
            service: "enrollment_token_authenticator".to_owned(),
            path: "/enroll".to_owned(),
            body: encode_authenticate_enrollment(x),
        },
    }
}

/// The remote call that `req` asks for, or `None` for a bad request.
pub fn plan_request(req: &Request) -> (r: Option<Call>)
    ensures
        r matches Some(c) ==> request_call(*req) == Some(c@),
        r is None ==> request_call(*req) is None,
{
    let body = match &req.body {
        Some(b) => b,
        None => return None,
    };
    if req.method != Method::Post {
        return None;
    }
    if req.path == "/".to_owned() {
        match decode_attributes(body.as_slice()) {
            Some(attributes) => {
                let out = encode_request_enrollment(&RequestEnrollmentToken::new(attributes));
                proof {
                    assert(attributes_body(attributes@) == body@);
                }
                Some(
                    Call {
                        service: "enrollment_token_authenticator".to_owned(),
                        path: "/".to_owned(),
                        body: out,
                    },
                )
            },
            None => None,
        }
    } else if req.path == "/enroll".to_owned() {
        proof {
            reveal_strlit("/");
            reveal_strlit("/enroll");
            assert("/"@.len() != "/enroll"@.len());
        }
        match decode_auth0(body.as_slice()) {
            Some(x) => {
                let c = select_flow(&AuthenticateToken::Auth0(x));
                Some(c)
            },
            None => match decode_authenticate_enrollment(body.as_slice()) {
                Some(x) => {
                    let c = select_flow(&AuthenticateToken::EnrollmentToken(x));
                    Some(c)
                },
                None => None,
            },
        }
    } else {
        None
    }
}

/// The envelope for a request that asks for nothing the gateway offers.
pub open spec fn bad_request(id: u32) -> Action {
    Action::Finish(Reply::Local(Response { id, status: Status::BadRequest, body: None }))
}

/// How a session moves on an event, and what it asks for next.
pub open spec fn next(phase: Phase, ev: Event) -> (Phase, Action) {
    match phase {
        Phase::Opening { id, call } => match ev {
            Event::ChannelOpened(channel) => (
                Phase::Calling { id, channel },
                Action::Send { channel, call },
            ),
            Event::ChannelOpenFailed(cause) => (Phase::Done, Action::Abort(cause)),
            _ => (phase, Action::Wait),
        },
        Phase::Calling { id, channel } => match ev {
            Event::CallSucceeded(bytes) => (
                Phase::Closing { channel, reply: Reply::Forwarded(bytes) },
                Action::CloseChannel(channel),
            ),
            Event::CallFailed(cause) => (
                Phase::Closing {
                    channel,
                    reply: Reply::Local(
                        Response { id, status: Status::InternalServerError, body: Some(cause) },
                    ),
                },
                Action::CloseChannel(channel),
            ),
            _ => (phase, Action::Wait),
        },
        Phase::Closing { channel, reply } => match ev {
            Event::ChannelClosed => (Phase::Done, Action::Finish(reply)),
            _ => (phase, Action::Wait),
        },
        Phase::Done => (phase, Action::Wait),
    }
}

/// A channel is open and nobody has yet been asked to close it.
pub open spec fn holds_channel(phase: Phase) -> bool {
    phase is Calling
}

/// Channels that an event opens in a phase.
pub open spec fn opened_by(phase: Phase, ev: Event) -> nat {
    if phase is Opening && ev is ChannelOpened {
        1
    } else {
        0
    }
}

/// Channels that an action closes.
pub open spec fn closed_by(action: Action) -> nat {
    if action is CloseChannel {
        1
    } else {
        0
    }
}

/// Runs a session from `phase` over `evs`: the phase it ends in, and how
/// many channels it opened and closed on the way.
pub open spec fn trace(phase: Phase, evs: Seq<Event>) -> (Phase, nat, nat)
    decreases evs.len(),
{
    if evs.len() == 0 {
        (phase, 0, 0)
    } else {
        let (p, a) = next(phase, evs[0]);
        let (f, o, c) = trace(p, evs.drop_first());
        (f, o + opened_by(phase, evs[0]), c + closed_by(a))
    }
}

impl Session {
    /// Starts the session for `req`: a bad request is answered at once and
    /// opens no channel; otherwise the session asks for a channel and keeps
    /// the call for when it is open.
    pub fn start(req: &Request) -> (r: (Session, Action))
        ensures
            request_call(*req) is None ==> r.0.phase is Done && r.1 == bad_request(req.id),
            request_call(*req) matches Some(c) ==> r.1 is OpenChannel && (r.0.phase matches Phase::Opening {
                id,
                call,
            } && id == req.id && call@ == c),
    {
        match plan_request(req) {
            Some(call) => (Session { phase: Phase::Opening { id: req.id, call } }, Action::OpenChannel),
            None => (
                Session { phase: Phase::Done },
                Action::Finish(
                    Reply::Local(Response { id: req.id, status: Status::BadRequest, body: None }),
                ),
            ),
        }
    }

    /// Feeds one event to the session.
    pub fn step(self, ev: Event) -> (r: (Session, Action))
        ensures
            (r.0.phase, r.1) == next(self.phase, ev),
    {
        match self.phase {
            Phase::Opening { id, call } => match ev {
                Event::ChannelOpened(channel) => (
                    Session { phase: Phase::Calling { id, channel } },
                    Action::Send { channel, call },
                ),
                Event::ChannelOpenFailed(cause) => (
                    Session { phase: Phase::Done },
                    Action::Abort(cause),
                ),
                _ => (Session { phase: Phase::Opening { id, call } }, Action::Wait),
            },
            Phase::Calling { id, channel } => match ev {
                Event::CallSucceeded(bytes) => (
                    Session { phase: Phase::Closing { channel, reply: Reply::Forwarded(bytes) } },
                    Action::CloseChannel(channel),
                ),
                Event::CallFailed(cause) => (
                    Session {
                        phase: Phase::Closing {
                            channel,
                            reply: Reply::Local(
                                Response {
                                    id,
                                    status: Status::InternalServerError,
                                    body: Some(cause),
                                },
                            ),
                        },
                    },
                    Action::CloseChannel(channel),
                ),
                _ => (Session { phase: Phase::Calling { id, channel } }, Action::Wait),
            },
            Phase::Closing { channel, reply } => match ev {
                Event::ChannelClosed => (Session { phase: Phase::Done }, Action::Finish(reply)),
                _ => (Session { phase: Phase::Closing { channel, reply } }, Action::Wait),
            },
            Phase::Done => (Session { phase: Phase::Done }, Action::Wait),
        }
    }

    /// The session has answered or failed and expects nothing more.
    pub fn is_done(&self) -> (r: bool)
        ensures
            r == (self.phase is Done),
    {
        match self.phase {
            Phase::Done => true,
            _ => false,
        }
    }
}

proof fn lemma_trace_balance(phase: Phase, evs: Seq<Event>)
    ensures
        ({
            let (f, o, c) = trace(phase, evs);
            &&& (if holds_channel(phase) { 1int } else { 0int }) + o - c == (if holds_channel(f) {
                1int
            } else {
                0int
            })
            &&& o <= (if phase is Opening { 1nat } else { 0nat })
        }),
    decreases evs.len(),
{
    if evs.len() > 0 {
        let (p, a) = next(phase, evs[0]);
        lemma_trace_balance(p, evs.drop_first());
    }
}

/// Whatever the events, including a failed call, a session started without a
/// channel opens at most one, never closes more than it opened, and once it
/// holds none again (in particular once it is done) it has closed every
/// channel it opened, each exactly once.
pub proof fn lemma_channel_closed_once(phase: Phase, evs: Seq<Event>)
    requires
        !holds_channel(phase),
    ensures
        ({
            let (f, o, c) = trace(phase, evs);
            &&& o <= 1
            &&& c <= o
            &&& !holds_channel(f) ==> c == o
            &&& f is Done ==> c == o
        }),
{
    lemma_trace_balance(phase, evs);
}

/// A finished session opens no channel, whatever is fed to it.
pub proof fn lemma_done_opens_nothing(evs: Seq<Event>)
    ensures
        trace(Phase::Done, evs).1 == 0,
        trace(Phase::Done, evs).0 is Done,
    decreases evs.len(),
{
    lemma_trace_balance(Phase::Done, evs);
    if evs.len() > 0 {
        lemma_done_opens_nothing(evs.drop_first());
    }
}

/// A `POST /enroll` whose body is neither a bearer nor an enrollment-token
/// authentication asks for no remote call: it is answered as a bad request
/// and, whatever follows, no channel is opened for it.
pub proof fn lemma_undecodable_enrollment_rejected(body: Seq<u8>, evs: Seq<Event>)
    requires
        !is_auth0_body(body),
        !is_authenticate_enrollment_body(body),
    ensures
        planned_call(Method::Post, "/enroll"@, Some(body)) is None,
        trace(Phase::Done, evs).1 == 0,
{
    reveal_strlit("/");
    reveal_strlit("/enroll");
    assert("/"@.len() != "/enroll"@.len());
    lemma_done_opens_nothing(evs);
}

/// A request that is not `POST /` or `POST /enroll` asks for no remote call,
/// whatever its body: it is answered as a bad request.
pub proof fn lemma_unknown_route_rejected(method: Method, path: Seq<char>, body: Option<Seq<u8>>)
    requires
        !(method == Method::Post && (path == "/"@ || path == "/enroll"@)),
    ensures
        planned_call(method, path, body) is None,
{
}

/// Bytes that read as a bearer authentication go to the bearer flow, even if
/// they would also read as an enrollment-token authentication.
pub proof fn lemma_bearer_precedence(body: Seq<u8>)
    requires
        is_auth0_body(body),
    ensures
        planned_call(Method::Post, "/enroll"@, Some(body)) == Some(
            (auth0_authenticator(), "/enroll"@, body),
        ),
{
    reveal_strlit("/");
    reveal_strlit("/enroll");
    assert("/"@.len() != "/enroll"@.len());
}

/// Issuing and redeeming fit together: any attribute map asks for a token
/// bound to it, and the token `t` that comes back, sent to `/enroll` in its
/// redemption form, goes to the enrollment-token flow unchanged.
pub proof fn lemma_issue_then_redeem(a: Seq<(Seq<char>, Seq<char>)>, t: Seq<char>)
    ensures
        planned_call(Method::Post, "/"@, Some(attributes_body(a))) == Some(
            (enrollment_token_authenticator(), "/"@, request_enrollment_body(a)),
        ),
        planned_call(Method::Post, "/enroll"@, Some(authenticate_enrollment_body(t))) == Some(
            (enrollment_token_authenticator(), "/enroll"@, authenticate_enrollment_body(t)),
        ),
{
    reveal_strlit("/");
    reveal_strlit("/enroll");
    assert("/"@.len() != "/enroll"@.len());
    assert(is_attributes_body(attributes_body(a)));
    assert(request_enrollment_body(a) =~= token_prefix(REQUEST_ENROLLMENT_TOKEN_TAG)
        + attributes_body(a));
    let b = authenticate_enrollment_body(t);
    assert(is_authenticate_enrollment_body(b));
    assert forall|u: Seq<char>| auth0_body(u) != b by {
        assert(auth0_body(u)[0] == 0xa3);
        assert(b[0] == 0xa2);
    }
}

/// A session that gets its channel, a successful answer and the close
/// finishes with that answer, as it came, having closed the one channel.
pub proof fn lemma_successful_session(id: u32, call: Call, channel: u64, answer: Vec<u8>)
    ensures
        ({
            let s0 = Phase::Opening { id, call };
            let (s1, a1) = next(s0, Event::ChannelOpened(channel));
            let (s2, a2) = next(s1, Event::CallSucceeded(answer));
            let (s3, a3) = next(s2, Event::ChannelClosed);
            &&& a1 == Action::Send { channel, call }
            &&& a2 == Action::CloseChannel(channel)
            &&& s3 is Done
            &&& a3 == Action::Finish(Reply::Forwarded(answer))
        }),
{
}

} // verus!
