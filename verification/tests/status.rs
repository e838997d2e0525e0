use grpcmock::status::Code;
use http::StatusCode;

#[test]
fn http_statuses_map_to_grpc_codes() {
    let table = [
        (200u16, Code::OK),
        (400, Code::Internal),
        (422, Code::Internal),
        (401, Code::Unauthenticated),
        (403, Code::PermissionDenied),
        (404, Code::NotFound),
        (501, Code::Unimplemented),
        (429, Code::Unavailable),
        (502, Code::Unavailable),
        (503, Code::Unavailable),
        (504, Code::Unavailable),
        (201, Code::Unknown),
        (204, Code::Unknown),
        (301, Code::Unknown),
        (405, Code::Unknown),
        (500, Code::Unknown),
        (505, Code::Unknown),
        (999, Code::Unknown),
    ];
    for (status, code) in table {
        assert_eq!(Code::from_status_number(status), code, "{status}");
        assert_eq!(Code::from_http(StatusCode::from_u16(status).unwrap()), code, "{status}");
        assert_eq!(Code::from_u16(status).unwrap(), code, "{status}");
    }
}

#[test]
fn from_u16_rejects_what_is_no_status() {
    assert!(Code::from_u16(0).is_err());
    assert!(Code::from_u16(99).is_err());
    assert!(Code::from_u16(1000).is_err());
    assert!(Code::from_u16(u16::MAX).is_err());
    assert!(Code::from_u16(100).is_ok());
    assert!(Code::from_u16(999).is_ok());
}

#[test]
fn from_status_number_takes_any_number() {
    assert_eq!(Code::from_status_number(0), Code::Unknown);
    assert_eq!(Code::from_status_number(u16::MAX), Code::Unknown);
}

#[test]
fn from_http_reads_the_constants() {
    assert_eq!(Code::from_http(StatusCode::OK), Code::OK);
    assert_eq!(Code::from_http(StatusCode::BAD_REQUEST), Code::Internal);
    assert_eq!(Code::from_http(StatusCode::UNPROCESSABLE_ENTITY), Code::Internal);
    assert_eq!(Code::from_http(StatusCode::UNAUTHORIZED), Code::Unauthenticated);
    assert_eq!(Code::from_http(StatusCode::FORBIDDEN), Code::PermissionDenied);
    assert_eq!(Code::from_http(StatusCode::NOT_FOUND), Code::NotFound);
    assert_eq!(Code::from_http(StatusCode::NOT_IMPLEMENTED), Code::Unimplemented);
    assert_eq!(Code::from_http(StatusCode::TOO_MANY_REQUESTS), Code::Unavailable);
    assert_eq!(Code::from_http(StatusCode::BAD_GATEWAY), Code::Unavailable);
    assert_eq!(Code::from_http(StatusCode::SERVICE_UNAVAILABLE), Code::Unavailable);
    assert_eq!(Code::from_http(StatusCode::GATEWAY_TIMEOUT), Code::Unavailable);
    assert_eq!(Code::from_http(StatusCode::IM_A_TEAPOT), Code::Unknown);
}

#[test]
fn codes_have_their_wire_numbers() {
    let numbers = [
        (Code::OK, 0),
        (Code::Cancelled, 1),
        (Code::Unknown, 2),
        (Code::InvalidArgument, 3),
        (Code::DeadlineExceeded, 4),
        (Code::NotFound, 5),
        (Code::AlreadyExists, 6),
        (Code::PermissionDenied, 7),
        (Code::ResourceExhausted, 8),
        (Code::FailedPrecondition, 9),
        (Code::Aborted, 10),
        (Code::OutOfRange, 11),
        (Code::Unimplemented, 12),
        (Code::Internal, 13),
        (Code::Unavailable, 14),
        (Code::DataLoss, 15),
        (Code::Unauthenticated, 16),
    ];
    for (code, number) in numbers {
        assert_eq!(code.number(), number);
    }
}
