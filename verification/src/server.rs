//! The mock server: what it answers to a request, and the steps by which it
//! is brought up.

use crate::error::Error;
use crate::method::{GrpcMethod, MethodKey};
use crate::mock::set::{lookup, Registry};
use crate::mock::{Mock, MockSet};
use crate::status::{http_to_grpc, status_number, Code};
use crate::utils::{candidate_port, in_port_range};
use crate::wire::{
    bytes_of, decode_frames, framable, frame, frames, lemma_strip_frames_of_frames, strip_frames,
};
use bytes::Bytes;
use vstd::prelude::*;
use vstd::string::StringExecFns;

verus! {

/// The character that writes the digit `d`.
pub open spec fn digit(d: nat) -> char {
    if d == 0 {
        '0'
    } else if d == 1 {
        '1'
    } else if d == 2 {
        '2'
    } else if d == 3 {
        '3'
    } else if d == 4 {
        '4'
    } else if d == 5 {
        '5'
    } else if d == 6 {
        '6'
    } else if d == 7 {
        '7'
    } else if d == 8 {
        '8'
    } else {
        '9'
    }
}

/// The decimal digits of `n`, without leading zeros.
pub open spec fn decimal(n: nat) -> Seq<char>
    decreases n,
{
    if n < 10 {
        seq![digit(n)]
    } else {
        decimal(n / 10).push(digit(n % 10))
    }
}

/// The text of one decimal digit.
fn digit_text(d: u32) -> (text: &'static str)
    requires
        d < 10,
    ensures
        text@ == seq![digit(d as nat)],
{
    proof {
        reveal_strlit("0");
        reveal_strlit("1");
        reveal_strlit("2");
        reveal_strlit("3");
        reveal_strlit("4");
        reveal_strlit("5");
        reveal_strlit("6");
        reveal_strlit("7");
        reveal_strlit("8");
        reveal_strlit("9");
    }
    let text = if d == 0 {
        "0"
    } else if d == 1 {
        "1"
    } else if d == 2 {
        "2"
    } else if d == 3 {
        "3"
    } else if d == 4 {
        "4"
    } else if d == 5 {
        "5"
    } else if d == 6 {
        "6"
    } else if d == 7 {
        "7"
    } else if d == 8 {
        "8"
    } else {
        "9"
    };
    assert(text@ =~= seq![digit(d as nat)]);
    text
}

/// Writes `n` in decimal digits.
fn decimal_text(n: u32) -> (text: String)
    ensures
        text@ == decimal(n as nat),
    decreases n,
{
    if n < 10 {
        String::from_str(digit_text(n))
    } else {
        let mut text = decimal_text(n / 10);
        text.append(digit_text(n % 10));
        text
    }
}

/// The headers of a gRPC response with the status `code` and, where there is
/// one, the error message `error`.
pub open spec fn response_headers(code: Code, error: Option<Seq<char>>) -> Seq<
    (Seq<char>, Seq<char>),
> {
    let fixed = seq![
        ("content-type"@, "application/grpc"@),
        ("grpc-status"@, decimal(code.spec_number() as nat)),
    ];
    match error {
        Some(message) => fixed.push(("grpc-message"@, message)),
        None => fixed,
    }
}

/// A gRPC response as the transport is to send it.
#[derive(Debug, Clone)]
pub struct GrpcResponse {
    /// The HTTP status, which is 200 whatever the gRPC status: gRPC reports
    /// the outcome of a call in headers.
    pub status: u16,
    /// The headers, each a name and a value, in order.
    pub headers: Vec<(String, String)>,
    /// The frames of the body, in order.
    pub body: Vec<Bytes>,
}

impl GrpcResponse {
    /// The headers as pairs of texts.
    pub open spec fn header_texts(self) -> Seq<(Seq<char>, Seq<char>)> {
        self.headers@.map_values(|header: (String, String)| (header.0@, header.1@))
    }

    /// The frames of the body as runs of bytes.
    pub open spec fn frames(self) -> Seq<Seq<u8>> {
        self.body@.map_values(|framed: Bytes| bytes_of(framed))
    }

    /// Whether this is the response to a request that found `found`: the
    /// mock's gRPC status, its error message if it has one and the frames of
    /// its body; or, where nothing was found, the status `NotFound` with no
    /// message and no body.
    pub open spec fn answers(self, found: Option<Mock>) -> bool {
        &&& self.status == 200
        &&& match found {
            Some(mock) => {
                &&& self.header_texts() == response_headers(
                    http_to_grpc(status_number(mock.response.code)),
                    match mock.response.error {
                        Some(message) => Some(message@),
                        None => None,
                    },
                )
                &&& self.frames() == mock.response.body.chunks().map_values(
                    |chunk: Seq<u8>| frame(chunk),
                )
            },
            None => {
                &&& self.header_texts() == response_headers(Code::NotFound, None)
                &&& self.frames() == Seq::<Seq<u8>>::empty()
            },
        }
    }
}

/// Builds a gRPC response.
pub fn grpc_response(code: Code, body: Vec<Bytes>, error: Option<&str>) -> (response: GrpcResponse)
    ensures
        response.status == 200,
        response.header_texts() == response_headers(
            code,
            match error {
                Some(message) => Some(message@),
                None => None,
            },
        ),
        response.body == body,
{
    let mut headers: Vec<(String, String)> = Vec::new();
    headers.push((String::from_str("content-type"), String::from_str("application/grpc")));
    let number = code.number();
    headers.push((String::from_str("grpc-status"), decimal_text(number as u32)));
    if let Some(message) = error {
        headers.push((String::from_str("grpc-message"), String::from_str(message)));
    }
    let response = GrpcResponse { status: 200, headers, body };
    assert(response.header_texts() =~= response_headers(
        code,
        match error {
            Some(message) => Some(message@),
            None => None,
        },
    ));
    response
}

/// The mock that a request with the body `wire` for the method `key` finds:
/// the envelopes are taken off the body, and the payload that is left is
/// looked up. A body that is no run of whole frames finds nothing.
pub open spec fn matched(mocks: Registry, key: MethodKey, wire: Seq<u8>) -> Option<Mock> {
    match strip_frames(wire) {
        Some(payload) => lookup(mocks, key, payload),
        None => None,
    }
}

/// How a request is cut into frames makes no difference to what it finds:
/// two runs of chunks that join to the same payload find the same mock.
pub proof fn lemma_chunking_is_irrelevant(
    mocks: Registry,
    key: MethodKey,
    a: Seq<Seq<u8>>,
    b: Seq<Seq<u8>>,
)
    requires
        framable(a),
        framable(b),
        a.flatten() == b.flatten(),
    ensures
        matched(mocks, key, frames(a)) == matched(mocks, key, frames(b)),
        matched(mocks, key, frames(a)) == lookup(mocks, key, a.flatten()),
{
    lemma_strip_frames_of_frames(a);
    lemma_strip_frames_of_frames(b);
}

/// State for a [`MockServer`].
#[derive(Debug)]
pub struct MockServerState {
    pub mocks: MockSet,
}

impl MockServerState {
    pub fn new(mocks: MockSet) -> (r: Self)
        ensures
            r.mocks == mocks,
    {
        Self { mocks }
    }
}

/// A mock gRPC server: the service that it stands for, the port that it is
/// to listen on and its mocks, all of which are for that service.
#[derive(Debug)]
pub struct MockServer {
    name: String,
    port: u16,
    state: MockServerState,
}

impl MockServer {
    #[verifier::type_invariant]
    spec fn consistent(self) -> bool {
        &&& in_port_range(self.port)
        &&& forall|key: MethodKey| #[trigger]
            self.state.mocks@.contains_key(key) ==> key.0 == self.name@
    }

    /// The name of the service that the server stands for.
    pub closed spec fn service(self) -> Seq<char> {
        self.name@
    }

    /// The mocks of the server.
    pub closed spec fn fixtures(self) -> Registry {
        self.state.mocks@
    }

    /// The port that the server is to listen on.
    pub closed spec fn listen_port(self) -> u16 {
        self.port
    }

    /// Creates a new [`MockServer`] for the service `name`, with a port to
    /// try. Fails where a method of `mocks` belongs to another service;
    /// nothing is chosen or bound then.
    pub fn new(name: &str, mocks: MockSet) -> (r: Result<Self, Error>)
        ensures
            match r {
                Ok(server) => {
                    &&& forall|key: MethodKey| mocks@.contains_key(key) ==> key.0 == name@
                    &&& server.service() == name@
                    &&& server.fixtures() == mocks@
                    &&& in_port_range(server.listen_port())
                },
                Err(e) => {
                    &&& exists|key: MethodKey| mocks@.contains_key(key) && key.0 != name@
                    &&& e matches Error::ServiceMismatch(service)
                    &&& service@ == name@
                },
            },
    {
        if !mocks.all_for_service(name) {
            return Err(Error::ServiceMismatch(String::from_str(name)));
        }
        let port = candidate_port();
        Ok(MockServer { name: String::from_str(name), port, state: MockServerState::new(mocks) })
    }

    /// Returns the server's service name.
    pub fn name(&self) -> (r: &str)
        ensures
            r@ == self.service(),
    {
        self.name.as_str()
    }

    /// Returns the port that the server is to listen on, on every address
    /// of the machine.
    pub fn port(&self) -> (r: u16)
        ensures
            r == self.listen_port(),
            in_port_range(r),
    {
        proof {
            use_type_invariant(self);
        }
        self.port
    }

    /// Returns the server's mocks, every one of them for a method of the
    /// server's service.
    pub fn mocks(&self) -> (r: &MockSet)
        ensures
            r@ == self.fixtures(),
            forall|key: MethodKey| self.fixtures().contains_key(key) ==> key.0 == self.service(),
    {
        proof {
            use_type_invariant(self);
        }
        &self.state.mocks
    }

    /// Picks another port to try, for when the one at hand is taken.
    pub fn pick_port(&mut self)
        ensures
            final(self).service() == old(self).service(),
            final(self).fixtures() == old(self).fixtures(),
            in_port_range(final(self).listen_port()),
    {
        proof {
            use_type_invariant(&*self);
        }
        self.port = candidate_port();
    }

    /// Handles a client request for `method` whose body is `body`, returning
    /// a mock response: the envelopes are taken off the frames of the body,
    /// the payload is looked up among the mocks of the method, and the
    /// response is built from the mock that is found, or reports `NotFound`.
    pub fn handle(&self, method: &GrpcMethod, body: &[u8]) -> (response: GrpcResponse)
        ensures
            response.answers(matched(self.fixtures(), method@, body@)),
    {
        let found = match decode_frames(body) {
            Some(payload) => self.state.mocks.find(method, payload.as_slice()),
            None => None,
        };
        match found {
            Some(mock) => {
                let frames = mock.response.body().to_frames();
                let error = mock.response.error();
                let response = grpc_response(mock.response.grpc_code(), frames, error);
                proof {
                    assert(response.frames() =~= frames@.map_values(
                        |framed: Bytes| bytes_of(framed),
                    ));
                    assert(response.answers(Some(*mock)));
                }
                response
            },
            None => {
                let response = grpc_response(Code::NotFound, Vec::new(), None);
                assert(response.frames() =~= Seq::<Seq<u8>>::empty());
                response
            },
        }
    }
}

/// How long one connection attempt of the readiness check may take, in
/// milliseconds.
pub const CONNECT_TIMEOUT_MILLIS: u64 = 30;

/// How long the readiness check sleeps after a failed attempt, in
/// milliseconds.
pub const CONNECT_RETRY_SLEEP_MILLIS: u64 = 30;

/// How many connection attempts the readiness check makes at most.
pub const CONNECT_RETRY_MAX_ATTEMPTS: u32 = 10;

/// Where the readiness check stands.
#[derive(Clone, Copy, Debug, PartialEq, Eq, Structural)]
pub enum Phase {
    /// A connection attempt is under way.
    Probing,
    /// The last attempt failed, and the check sleeps.
    Waiting,
    /// An attempt succeeded: the server listens.
    Ready,
    /// Every attempt failed. The server is handed out all the same.
    GaveUp,
}

/// What happened to the step that the readiness check asked for.
#[derive(Clone, Copy, Debug, PartialEq, Eq, Structural)]
pub enum StartupEvent {
    /// The connection attempt succeeded.
    Connected,
    /// The connection attempt failed or ran out of time.
    Refused,
    /// The sleep is over.
    Slept,
}

/// What the readiness check asks for next.
#[derive(Clone, Copy, Debug, PartialEq, Eq, Structural)]
pub enum StartupAction {
    /// Try to connect to the server's address, for this long at most.
    Connect { timeout_millis: u64 },
    /// Sleep for this long.
    Sleep { millis: u64 },
    /// Stop. `ready` says whether the server was seen to listen.
    Finish { ready: bool },
}

/// What a readiness check in `phase` asks for.
pub open spec fn awaited(phase: Phase) -> StartupAction {
    match phase {
        Phase::Probing => StartupAction::Connect { timeout_millis: CONNECT_TIMEOUT_MILLIS },
        Phase::Waiting => StartupAction::Sleep { millis: CONNECT_RETRY_SLEEP_MILLIS },
        Phase::Ready => StartupAction::Finish { ready: true },
        Phase::GaveUp => StartupAction::Finish { ready: false },
    }
}

/// Where a readiness check in `phase`, with `attempts` attempts begun, goes
/// on `event`, and how many attempts are begun by then. A success ends the
/// check; a failure is slept on; after the sleep comes the next attempt, or
/// the end when the attempts are used up. An event that the phase does not
/// wait for changes nothing.
pub open spec fn next_phase(phase: Phase, attempts: nat, event: StartupEvent) -> (Phase, nat) {
    match (phase, event) {
        (Phase::Probing, StartupEvent::Connected) => (Phase::Ready, attempts),
        (Phase::Probing, StartupEvent::Refused) => (Phase::Waiting, attempts),
        (Phase::Waiting, StartupEvent::Slept) => if attempts < CONNECT_RETRY_MAX_ATTEMPTS {
            (Phase::Probing, attempts + 1)
        } else {
            (Phase::GaveUp, attempts)
        },
        _ => (phase, attempts),
    }
}

/// How many steps a readiness check in `phase`, with `attempts` attempts
/// begun, can still ask for before it ends.
pub open spec fn steps_left(phase: Phase, attempts: nat) -> nat {
    match phase {
        Phase::Probing => (2 * (CONNECT_RETRY_MAX_ATTEMPTS - attempts) + 2) as nat,
        Phase::Waiting => (2 * (CONNECT_RETRY_MAX_ATTEMPTS - attempts) + 1) as nat,
        _ => 0,
    }
}

/// The readiness check of a server that was just started: a bounded run of
/// connection attempts with a sleep after each failure. The caller does what
/// is asked for and reports what came of it.
#[derive(Clone, Copy, Debug)]
pub struct Startup {
    phase: Phase,
    attempts: u32,
}

impl Startup {
    #[verifier::type_invariant]
    spec fn bounded(self) -> bool {
        1 <= self.attempts <= CONNECT_RETRY_MAX_ATTEMPTS
    }

    /// Where the check stands.
    pub closed spec fn phase(self) -> Phase {
        self.phase
    }

    /// How many connection attempts have been begun.
    pub closed spec fn attempts(self) -> nat {
        self.attempts as nat
    }

    /// Begins the check with its first connection attempt.
    pub fn begin() -> (r: (Self, StartupAction))
        ensures
            r.0.phase() == Phase::Probing,
            r.0.attempts() == 1,
            r.1 == awaited(Phase::Probing),
    {
        (
            Startup { phase: Phase::Probing, attempts: 1 },
            StartupAction::Connect { timeout_millis: CONNECT_TIMEOUT_MILLIS },
        )
    }

    /// Takes in what came of the last step and says what to do next. The
    /// number of attempts stays within its bound, and every event that the
    /// check waited for brings it nearer to its end.
    pub fn step(self, event: StartupEvent) -> (r: (Self, StartupAction))
        ensures
            (r.0.phase(), r.0.attempts()) == next_phase(self.phase(), self.attempts(), event),
            r.1 == awaited(r.0.phase()),
            1 <= self.attempts() <= r.0.attempts() <= CONNECT_RETRY_MAX_ATTEMPTS,
            r.0.phase() != self.phase() ==> steps_left(r.0.phase(), r.0.attempts()) < steps_left(
                self.phase(),
                self.attempts(),
            ),
    {
        proof {
            use_type_invariant(&self);
        }
        let next = match (self.phase, event) {
            (Phase::Probing, StartupEvent::Connected) => Startup {
                phase: Phase::Ready,
                attempts: self.attempts,
            },
            (Phase::Probing, StartupEvent::Refused) => Startup {
                phase: Phase::Waiting,
                attempts: self.attempts,
            },
            (Phase::Waiting, StartupEvent::Slept) => if self.attempts
                < CONNECT_RETRY_MAX_ATTEMPTS {
                Startup { phase: Phase::Probing, attempts: self.attempts + 1 }
            } else {
                Startup { phase: Phase::GaveUp, attempts: self.attempts }
            },
            _ => self,
        };
        let action = match next.phase {
            Phase::Probing => StartupAction::Connect { timeout_millis: CONNECT_TIMEOUT_MILLIS },
            Phase::Waiting => StartupAction::Sleep { millis: CONNECT_RETRY_SLEEP_MILLIS },
            Phase::Ready => StartupAction::Finish { ready: true },
            Phase::GaveUp => StartupAction::Finish { ready: false },
        };
        (next, action)
    }
}

} // verus!
