use grpcmock::error::{Error, NamePart};
use grpcmock::method::GrpcMethod;

#[test]
fn new_keeps_service_and_name() {
    let method = GrpcMethod::new("tgis.GenerationService", "Generate").unwrap();
    assert_eq!(method.service(), "tgis.GenerationService");
    assert_eq!(method.name(), "Generate");
}

#[test]
fn new_rejects_lowercase_service() {
    let r = GrpcMethod::new("lowercase.service", "Method");
    assert!(matches!(r, Err(Error::InvalidNaming(NamePart::Service))));
}

#[test]
fn new_rejects_lowercase_name() {
    let r = GrpcMethod::new("Pkg.Service", "method");
    assert!(matches!(r, Err(Error::InvalidNaming(NamePart::Name))));
}

#[test]
fn new_reports_the_service_first() {
    let r = GrpcMethod::new("pkg.service", "method");
    assert!(matches!(r, Err(Error::InvalidNaming(NamePart::Service))));
}

#[test]
fn new_looks_at_the_last_segment_only() {
    assert!(GrpcMethod::new("grpc.health.v1.Health", "Check").is_ok());
    assert!(GrpcMethod::new("Grpc.Health.v1", "Check").is_err());
    assert!(GrpcMethod::new("Health", "Check").is_ok());
}

#[test]
fn new_rejects_empty_parts() {
    assert!(matches!(GrpcMethod::new("", "Check"), Err(Error::InvalidNaming(NamePart::Service))));
    assert!(matches!(
        GrpcMethod::new("pkg.", "Check"),
        Err(Error::InvalidNaming(NamePart::Service))
    ));
    assert!(matches!(GrpcMethod::new("Health", ""), Err(Error::InvalidNaming(NamePart::Name))));
}

#[test]
fn new_knows_uppercase_beyond_ascii() {
    assert!(GrpcMethod::new("pkg.Δelta", "Ärger").is_ok());
    assert!(GrpcMethod::new("pkg.δelta", "Check").is_err());
    assert!(GrpcMethod::new("pkg.1st", "Check").is_err());
}

#[test]
fn path_joins_service_and_name() {
    let method = GrpcMethod::new("example.Hello", "HelloUnary").unwrap();
    assert_eq!(method.path(), "/example.Hello/HelloUnary");
}

#[test]
fn parse_takes_a_leading_slash_or_none() {
    let with = GrpcMethod::parse("/example.Hello/HelloUnary").unwrap();
    let without = GrpcMethod::parse("example.Hello/HelloUnary").unwrap();
    assert_eq!(with, without);
    assert_eq!(with.service(), "example.Hello");
    assert_eq!(with.name(), "HelloUnary");
}

#[test]
fn parse_rejects_other_shapes() {
    for path in [
        "",
        "/",
        "//",
        "example.Hello",
        "/example.Hello",
        "/example.Hello/",
        "//HelloUnary",
        "/example.Hello/HelloUnary/",
        "/example.Hello/Hello/Unary",
        "//example.Hello/HelloUnary",
    ] {
        assert!(matches!(GrpcMethod::parse(path), Err(Error::MalformedAddress)), "{path:?}");
    }
}

#[test]
fn parse_applies_the_naming_rule() {
    assert!(matches!(
        GrpcMethod::parse("/example.hello/HelloUnary"),
        Err(Error::InvalidNaming(NamePart::Service))
    ));
    assert!(matches!(
        GrpcMethod::parse("/example.Hello/helloUnary"),
        Err(Error::InvalidNaming(NamePart::Name))
    ));
}

#[test]
fn parse_inverts_path() {
    for (service, name) in [
        ("example.Hello", "HelloUnary"),
        ("grpc.health.v1.Health", "Check"),
        ("A", "B"),
        ("pkg.Δelta", "Ärger"),
    ] {
        let method = GrpcMethod::new(service, name).unwrap();
        let back = GrpcMethod::parse(&method.path()).unwrap();
        assert_eq!(back, method);
    }
}

#[test]
fn path_with_a_slash_in_the_service_does_not_parse_back() {
    let method = GrpcMethod::new("A/B", "C").unwrap();
    assert_eq!(method.path(), "/A/B/C");
    assert!(matches!(GrpcMethod::parse(&method.path()), Err(Error::MalformedAddress)));
}

#[test]
fn from_str_reads_a_path() {
    let method: GrpcMethod = "/example.Hello/HelloUnary".parse().unwrap();
    assert_eq!(method, GrpcMethod::new("example.Hello", "HelloUnary").unwrap());
    assert!("example.Hello".parse::<GrpcMethod>().is_err());
}

#[test]
fn methods_compare_by_service_and_name() {
    let a = GrpcMethod::new("example.Hello", "HelloUnary").unwrap();
    let b = GrpcMethod::new("example.Hello", "HelloUnary").unwrap();
    let c = GrpcMethod::new("example.Hello", "HelloStream").unwrap();
    let d = GrpcMethod::new("example.Other", "HelloUnary").unwrap();
    assert_eq!(a, b);
    assert_ne!(a, c);
    assert_ne!(a, d);
    assert_eq!(a.clone(), a);
}
