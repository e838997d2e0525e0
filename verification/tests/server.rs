use grpcmock::error::Error;
use grpcmock::method::GrpcMethod;
use grpcmock::mock::{Mock, MockBody, MockRequest, MockResponse, MockSet};
use grpcmock::server::{
    grpc_response, GrpcResponse, MockServer, MockServerState, Startup, StartupAction,
    StartupEvent, CONNECT_RETRY_MAX_ATTEMPTS, CONNECT_RETRY_SLEEP_MILLIS, CONNECT_TIMEOUT_MILLIS,
};
use grpcmock::status::Code;
use grpcmock::wire::encode_frame;
use http::StatusCode;

/// The protobuf encoding of a message whose field `number` is the string
/// `text`.
fn string_field(number: u8, text: &str) -> Vec<u8> {
    assert!(text.len() < 128);
    let mut out = vec![number << 3 | 2, text.len() as u8];
    out.extend_from_slice(text.as_bytes());
    out
}

fn header<'a>(response: &'a GrpcResponse, name: &str) -> Option<&'a str> {
    response.headers.iter().find(|(n, _)| n == name).map(|(_, v)| v.as_str())
}

fn wire(chunks: &[&[u8]]) -> Vec<u8> {
    chunks.iter().flat_map(|chunk| encode_frame(chunk).to_vec()).collect()
}

fn body(response: &GrpcResponse) -> Vec<u8> {
    response.body.iter().flat_map(|frame| frame.to_vec()).collect()
}

/// What the server answers to a request for the method at `path`.
fn respond(server: &MockServer, path: &str, body: &[u8]) -> GrpcResponse {
    let method: GrpcMethod = path.parse().unwrap();
    server.handle(&method, body)
}

fn hello_server(mocks: Vec<(&str, Mock)>) -> MockServer {
    let mut set = MockSet::new();
    for (name, mock) in mocks {
        set.insert(GrpcMethod::new("example.Hello", name).unwrap(), mock);
    }
    MockServer::new("example.Hello", set).unwrap()
}

#[test]
fn response_has_the_grpc_headers() {
    let response = grpc_response(Code::OK, vec![], None);
    assert_eq!(response.status, 200);
    assert_eq!(
        response.headers,
        vec![
            ("content-type".to_string(), "application/grpc".to_string()),
            ("grpc-status".to_string(), "0".to_string()),
        ]
    );
    assert!(response.body.is_empty());
}

#[test]
fn response_carries_message_and_body() {
    let frames = vec![encode_frame(b"a"), encode_frame(b"b")];
    let response = grpc_response(Code::Unauthenticated, frames.clone(), Some("who are you"));
    assert_eq!(response.status, 200);
    assert_eq!(
        response.headers,
        vec![
            ("content-type".to_string(), "application/grpc".to_string()),
            ("grpc-status".to_string(), "16".to_string()),
            ("grpc-message".to_string(), "who are you".to_string()),
        ]
    );
    assert_eq!(response.body, frames);
}

#[test]
fn response_writes_every_code_in_decimal() {
    let codes = [
        Code::OK,
        Code::Cancelled,
        Code::Unknown,
        Code::InvalidArgument,
        Code::DeadlineExceeded,
        Code::NotFound,
        Code::AlreadyExists,
        Code::PermissionDenied,
        Code::ResourceExhausted,
        Code::FailedPrecondition,
        Code::Aborted,
        Code::OutOfRange,
        Code::Unimplemented,
        Code::Internal,
        Code::Unavailable,
        Code::DataLoss,
        Code::Unauthenticated,
    ];
    for (number, code) in codes.into_iter().enumerate() {
        let response = grpc_response(code, vec![], None);
        assert_eq!(header(&response, "grpc-status"), Some(number.to_string().as_str()));
    }
}

#[test]
fn new_server_keeps_name_and_mocks() {
    let server = hello_server(vec![("HelloUnary", Mock::unary(b"r".to_vec(), b"1".to_vec()))]);
    assert_eq!(server.name(), "example.Hello");
    assert!((40000..60000).contains(&server.port()));
    let method = GrpcMethod::new("example.Hello", "HelloUnary").unwrap();
    assert!(server.mocks().find(&method, b"r").is_some());
}

#[test]
fn new_server_without_mocks() {
    let server = MockServer::new("example.Hello", MockSet::new()).unwrap();
    assert_eq!(server.name(), "example.Hello");
    let response = respond(&server, "/example.Hello/HelloUnary", b"");
    assert_eq!(header(&response, "grpc-status"), Some("5"));
}

#[test]
fn pick_port_stays_in_range() {
    let mut server = MockServer::new("example.Hello", MockSet::new()).unwrap();
    let mut seen = std::collections::HashSet::new();
    for _ in 0..200 {
        server.pick_port();
        assert!((40000..60000).contains(&server.port()));
        seen.insert(server.port());
    }
    assert!(seen.len() > 1);
    assert_eq!(server.name(), "example.Hello");
}

#[test]
fn state_holds_the_mocks() {
    let mut mocks = MockSet::new();
    let method = GrpcMethod::new("example.Hello", "HelloUnary").unwrap();
    mocks.insert(method.clone(), Mock::unary(b"r".to_vec(), b"1".to_vec()));
    let state = MockServerState::new(mocks);
    assert!(state.mocks.find(&method, b"r").is_some());
}

#[test]
fn test_hello_with_invalid_mocks() {
    let mut mocks = MockSet::new();
    mocks.insert(
        GrpcMethod::new("WrongService", "Hello").unwrap(),
        Mock::unary(string_field(1, "you"), string_field(1, "Hello you!")),
    );
    assert!(MockServer::new("example.Hello", mocks).is_err_and(|error| {
        matches!(error, Error::ServiceMismatch(_))
            && error.message() == "invalid: all mocks must be for `example.Hello` service"
    }))
}

#[test]
fn new_server_rejects_one_wrong_method_among_right_ones() {
    let mut mocks = MockSet::new();
    let empty = || Mock::unary(vec![], vec![]);
    mocks.insert(GrpcMethod::new("example.Hello", "HelloUnary").unwrap(), empty());
    mocks.insert(GrpcMethod::new("example.Other", "HelloUnary").unwrap(), empty());
    assert!(matches!(
        MockServer::new("example.Hello", mocks),
        Err(Error::ServiceMismatch(name)) if name == "example.Hello"
    ));
}

#[test]
fn test_health() {
    let mut mocks = MockSet::new();
    mocks.insert(
        GrpcMethod::new("grpc.health.v1.Health", "Check").unwrap(),
        Mock::unary(vec![], vec![0x08, 0x01]),
    );
    let server = MockServer::new("grpc.health.v1.Health", mocks).unwrap();
    let response = respond(&server, "/grpc.health.v1.Health/Check", &encode_frame(b""));
    assert_eq!(response.status, 200);
    assert_eq!(header(&response, "grpc-status"), Some("0"));
    assert_eq!(body(&response), vec![0, 0, 0, 0, 2, 0x08, 0x01]);
}

#[test]
fn test_generate() {
    let request = [string_field(1, "bloom-560m"), string_field(2, "What's up?")].concat();
    let reply = string_field(1, "Not much, you?");
    let mut mocks = MockSet::new();
    mocks.insert(
        GrpcMethod::new("tgis.GenerationService", "Generate").unwrap(),
        Mock::unary(request.clone(), reply.clone()),
    );
    let server = MockServer::new("tgis.GenerationService", mocks).unwrap();
    let response =
        respond(&server, "/tgis.GenerationService/Generate", &encode_frame(&request));
    assert_eq!(header(&response, "grpc-status"), Some("0"));
    assert_eq!(header(&response, "grpc-message"), None);
    assert_eq!(response.body, vec![encode_frame(&reply)]);
}

#[test]
fn test_generate_error_message() {
    let empty_text = [string_field(1, "bloom-560m"), string_field(2, "")].concat();
    let bad_model = [string_field(1, "invalid_model"), string_field(2, ".")].concat();
    let mut mocks = MockSet::new();
    let generate = GrpcMethod::new("tgis.GenerationService", "Generate").unwrap();
    mocks.insert(
        generate.clone(),
        Mock {
            request: MockRequest::new(MockBody::full(empty_text.clone())),
            response: MockResponse::default(),
        }
        .with_code(StatusCode::BAD_REQUEST)
        .with_error("text cannot be empty"),
    );
    mocks.insert(
        generate.clone(),
        Mock {
            request: MockRequest::new(MockBody::full(bad_model.clone())),
            response: MockResponse::default(),
        }
        .with_code(StatusCode::NOT_FOUND)
        .with_error("model not found"),
    );
    let server = MockServer::new("tgis.GenerationService", mocks).unwrap();

    let response =
        respond(&server, "/tgis.GenerationService/Generate", &encode_frame(&empty_text));
    assert_eq!(response.status, 200);
    assert_eq!(header(&response, "grpc-status"), Some("13"));
    assert_eq!(header(&response, "grpc-message"), Some("text cannot be empty"));
    assert!(response.body.is_empty());

    let response =
        respond(&server, "/tgis.GenerationService/Generate", &encode_frame(&bad_model));
    assert_eq!(header(&response, "grpc-status"), Some("5"));
    assert_eq!(header(&response, "grpc-message"), Some("model not found"));
}

#[test]
fn matched_request_gets_the_mock_and_another_gets_not_found() {
    let server = hello_server(vec![("HelloUnary", Mock::unary(b"R1".to_vec(), b"B1".to_vec()))]);

    let response = respond(&server, "/example.Hello/HelloUnary", &encode_frame(b"R1"));
    assert_eq!(response.status, 200);
    assert_eq!(header(&response, "content-type"), Some("application/grpc"));
    assert_eq!(header(&response, "grpc-status"), Some("0"));
    assert_eq!(header(&response, "grpc-message"), None);
    assert_eq!(body(&response), vec![0, 0, 0, 0, 2, b'B', b'1']);

    let response = respond(&server, "/example.Hello/HelloUnary", &encode_frame(b"R2"));
    assert_eq!(response.status, 200);
    assert_eq!(header(&response, "content-type"), Some("application/grpc"));
    assert_eq!(header(&response, "grpc-status"), Some("5"));
    assert_eq!(header(&response, "grpc-message"), None);
    assert!(response.body.is_empty());
}

#[test]
fn request_must_be_framed_to_match() {
    let server = hello_server(vec![("HelloUnary", Mock::unary(b"R1".to_vec(), b"B1".to_vec()))]);
    let response = respond(&server, "/example.Hello/HelloUnary", b"R1");
    assert_eq!(header(&response, "grpc-status"), Some("5"));
    assert!(response.body.is_empty());
}

#[test]
fn not_found_status_with_message() {
    let mock = Mock::unary(b"R1".to_vec(), b"".to_vec())
        .with_code(StatusCode::NOT_FOUND)
        .with_error("model not found");
    let server = hello_server(vec![("HelloUnary", mock)]);
    let response = respond(&server, "/example.Hello/HelloUnary", &encode_frame(b"R1"));
    assert_eq!(header(&response, "grpc-status"), Some("5"));
    assert_eq!(header(&response, "grpc-message"), Some("model not found"));
}

#[test]
fn request_for_another_method_is_not_found() {
    let server = hello_server(vec![("HelloUnary", Mock::unary(b"R1".to_vec(), b"B1".to_vec()))]);
    let response = respond(&server, "/example.Hello/HelloOther", &encode_frame(b"R1"));
    assert_eq!(header(&response, "grpc-status"), Some("5"));
    let response = respond(&server, "/example.Other/HelloUnary", &encode_frame(b"R1"));
    assert_eq!(header(&response, "grpc-status"), Some("5"));
}

#[test]
fn stream_fixture_matches_whatever_the_frames() {
    let mock = Mock::client_streaming(vec![b"a".to_vec(), b"b".to_vec()], b"done".to_vec());
    let server = hello_server(vec![("HelloClientStreaming", mock)]);
    let path = "/example.Hello/HelloClientStreaming";
    for request in [
        wire(&[b"a", b"b"]),
        wire(&[b"ab"]),
        wire(&[b"", b"ab"]),
        wire(&[b"a", b"", b"b"]),
    ] {
        let response = respond(&server, path, &request);
        assert_eq!(header(&response, "grpc-status"), Some("0"), "{request:?}");
        assert_eq!(response.body, vec![encode_frame(b"done")]);
    }
    for request in [wire(&[b"a"]), wire(&[b"b", b"a"]), wire(&[b"a", b"b", b"c"]), wire(&[])] {
        let response = respond(&server, path, &request);
        assert_eq!(header(&response, "grpc-status"), Some("5"), "{request:?}");
    }
}

#[test]
fn stream_response_goes_out_frame_by_frame() {
    let mock = Mock::server_streaming(b"R".to_vec(), vec![b"x".to_vec(), b"yz".to_vec()]);
    let server = hello_server(vec![("HelloServerStreaming", mock)]);
    let response =
        respond(&server, "/example.Hello/HelloServerStreaming", &encode_frame(b"R"));
    assert_eq!(response.body, vec![encode_frame(b"x"), encode_frame(b"yz")]);
    assert_eq!(body(&response), vec![0, 0, 0, 0, 1, b'x', 0, 0, 0, 0, 2, b'y', b'z']);
}

#[test]
fn empty_fixture_matches_an_empty_request() {
    let mock = Mock { request: MockRequest::default(), response: MockResponse::default() };
    let server = hello_server(vec![("HelloUnary", mock)]);
    for request in [wire(&[]), wire(&[b""])] {
        let response = respond(&server, "/example.Hello/HelloUnary", &request);
        assert_eq!(header(&response, "grpc-status"), Some("0"));
        assert!(response.body.is_empty());
    }
}

#[test]
fn first_of_two_matching_fixtures_answers() {
    let server = hello_server(vec![
        ("HelloUnary", Mock::unary(b"R".to_vec(), b"first".to_vec())),
        ("HelloUnary", Mock::unary(b"R".to_vec(), b"second".to_vec())),
    ]);
    let response = respond(&server, "/example.Hello/HelloUnary", &encode_frame(b"R"));
    assert_eq!(response.body, vec![encode_frame(b"first")]);
}

#[test]
fn broken_frames_are_not_found() {
    let server = hello_server(vec![("HelloUnary", Mock::unary(b"R".to_vec(), b"B".to_vec()))]);
    for request in [vec![0u8, 0, 0, 0, 2, b'R'], vec![1, 0, 0, 0, 1, b'R'], vec![0, 0, 0]] {
        let response = respond(&server, "/example.Hello/HelloUnary", &request);
        assert_eq!(header(&response, "grpc-status"), Some("5"));
        assert!(response.body.is_empty());
    }
}

#[test]
fn respond_goes_by_the_method_not_by_how_its_path_was_written() {
    let server = hello_server(vec![("HelloUnary", Mock::unary(b"R".to_vec(), b"B".to_vec()))]);
    let response = respond(&server, "example.Hello/HelloUnary", &encode_frame(b"R"));
    assert_eq!(header(&response, "grpc-status"), Some("0"));
}

#[test]
fn every_status_of_the_table_reaches_the_header() {
    for (status, expected) in [
        (200u16, "0"),
        (400, "13"),
        (422, "13"),
        (401, "16"),
        (403, "7"),
        (404, "5"),
        (501, "12"),
        (429, "14"),
        (502, "14"),
        (503, "14"),
        (504, "14"),
        (500, "2"),
        (418, "2"),
    ] {
        let mock = Mock::unary(b"R".to_vec(), b"B".to_vec())
            .with_code(StatusCode::from_u16(status).unwrap());
        let server = hello_server(vec![("HelloUnary", mock)]);
        let response = respond(&server, "/example.Hello/HelloUnary", &encode_frame(b"R"));
        assert_eq!(header(&response, "grpc-status"), Some(expected), "{status}");
    }
}

fn connect() -> StartupAction {
    StartupAction::Connect { timeout_millis: 30 }
}

fn sleep() -> StartupAction {
    StartupAction::Sleep { millis: 30 }
}

#[test]
fn startup_constants() {
    assert_eq!(CONNECT_TIMEOUT_MILLIS, 30);
    assert_eq!(CONNECT_RETRY_SLEEP_MILLIS, 30);
    assert_eq!(CONNECT_RETRY_MAX_ATTEMPTS, 10);
}

#[test]
fn startup_ends_on_the_first_success() {
    let (state, action) = Startup::begin();
    assert_eq!(action, connect());
    let (state, action) = state.step(StartupEvent::Connected);
    assert_eq!(action, StartupAction::Finish { ready: true });
    let (_, action) = state.step(StartupEvent::Slept);
    assert_eq!(action, StartupAction::Finish { ready: true });
}

#[test]
fn startup_retries_after_a_sleep() {
    let (state, _) = Startup::begin();
    let (state, action) = state.step(StartupEvent::Refused);
    assert_eq!(action, sleep());
    let (state, action) = state.step(StartupEvent::Slept);
    assert_eq!(action, connect());
    let (state, action) = state.step(StartupEvent::Refused);
    assert_eq!(action, sleep());
    let (state, action) = state.step(StartupEvent::Slept);
    assert_eq!(action, connect());
    let (_, action) = state.step(StartupEvent::Connected);
    assert_eq!(action, StartupAction::Finish { ready: true });
}

#[test]
fn startup_gives_up_after_ten_attempts() {
    let (mut state, mut action) = Startup::begin();
    let mut connects = 0;
    let mut sleeps = 0;
    let mut steps = 0;
    loop {
        let event = match action {
            StartupAction::Connect { timeout_millis } => {
                assert_eq!(timeout_millis, 30);
                connects += 1;
                StartupEvent::Refused
            }
            StartupAction::Sleep { millis } => {
                assert_eq!(millis, 30);
                sleeps += 1;
                StartupEvent::Slept
            }
            StartupAction::Finish { ready } => {
                assert!(!ready);
                break;
            }
        };
        (state, action) = state.step(event);
        steps += 1;
        assert!(steps <= 20);
    }
    assert_eq!(connects, 10);
    assert_eq!(sleeps, 10);
    let (_, action) = state.step(StartupEvent::Connected);
    assert_eq!(action, StartupAction::Finish { ready: false });
}

#[test]
fn startup_succeeds_on_the_last_attempt() {
    let (mut state, mut action) = Startup::begin();
    for _ in 0..9 {
        assert_eq!(action, connect());
        (state, action) = state.step(StartupEvent::Refused);
        assert_eq!(action, sleep());
        (state, action) = state.step(StartupEvent::Slept);
    }
    assert_eq!(action, connect());
    let (_, action) = state.step(StartupEvent::Connected);
    assert_eq!(action, StartupAction::Finish { ready: true });
}

#[test]
fn startup_ignores_events_it_does_not_wait_for() {
    let (state, _) = Startup::begin();
    let (state, action) = state.step(StartupEvent::Slept);
    assert_eq!(action, connect());
    let (state, action) = state.step(StartupEvent::Refused);
    assert_eq!(action, sleep());
    let (state, action) = state.step(StartupEvent::Refused);
    assert_eq!(action, sleep());
    let (state, action) = state.step(StartupEvent::Connected);
    assert_eq!(action, sleep());
    let (_, action) = state.step(StartupEvent::Slept);
    assert_eq!(action, connect());
}
