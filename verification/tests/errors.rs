use grpcmock::error::{Error, NamePart};

#[test]
fn invalid_errors_say_what_is_wrong() {
    assert_eq!(
        Error::InvalidNaming(NamePart::Service).message(),
        "invalid: service should start with uppercase"
    );
    assert_eq!(
        Error::InvalidNaming(NamePart::Name).message(),
        "invalid: name should start with uppercase"
    );
    assert_eq!(
        Error::MalformedAddress.message(),
        "invalid: path should be formatted `<service>/<name>`"
    );
    assert_eq!(
        Error::ServiceMismatch("example.Hello".to_string()).message(),
        "invalid: all mocks must be for `example.Hello` service"
    );
}

#[test]
fn json_errors_are_taken_in() {
    let cause = serde_json::from_str::<bool>("{").unwrap_err();
    let text = cause.to_string();
    let error = Error::from(cause);
    assert!(matches!(error, Error::JsonError(_)));
    assert_eq!(error.message(), format!("json error: {text}"));
    assert!(!text.is_empty());
}

#[test]
fn yaml_errors_are_taken_in() {
    let cause = serde_yml::from_str::<bool>("[").unwrap_err();
    let text = cause.to_string();
    let error = Error::from(cause);
    assert!(matches!(error, Error::YamlError(_)));
    assert_eq!(error.message(), format!("yaml error: {text}"));
    assert!(!text.is_empty());
}

#[test]
fn io_errors_are_taken_in() {
    let cause = std::io::Error::new(std::io::ErrorKind::NotFound, "no such fixture");
    let error = Error::from(cause);
    assert!(matches!(error, Error::IoError(_)));
    assert_eq!(error.message(), "io error: no such fixture");
}
