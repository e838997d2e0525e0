//! What can go wrong while addresses, fixtures and servers are built.

use serde_json::Error as JsonError;
use serde_yml::Error as YamlError;
use vstd::prelude::*;
use vstd::string::StringExecFns;

verus! {

/// `serde_yml::Error`, what reading a YAML document fails with. It is only
/// kept and displayed.
#[verifier::external_type_specification]
#[verifier::external_body]
pub struct ExYamlError(YamlError);

/// `serde_json::Error`, what reading a JSON text fails with. It is only kept
/// and displayed.
#[verifier::external_type_specification]
#[verifier::external_body]
pub struct ExJsonError(JsonError);

/// `std::io::Error`, what reading a file fails with. It is only kept and
/// displayed.
#[verifier::external_type_specification]
#[verifier::external_body]
pub struct ExIoError(std::io::Error);

/// `<serde_yml::Error as Display>::fmt`, through `to_string`: the error as
/// text. An error may hold one of the operating system, whose text depends
/// on the machine, so nothing is said of the result.
#[verifier::external_body]
fn describe_yaml(error: &YamlError) -> (text: String) {
    error.to_string()
}

/// `<serde_json::Error as Display>::fmt`, through `to_string`: the error as
/// text. An error may hold one of the operating system, whose text depends
/// on the machine, so nothing is said of the result.
#[verifier::external_body]
fn describe_json(error: &JsonError) -> (text: String) {
    error.to_string()
}

/// `<std::io::Error as Display>::fmt`, through `to_string`: the error as
/// text. The text of an operating system error depends on the machine, so
/// nothing is said of the result.
#[verifier::external_body]
fn describe_io(error: &std::io::Error) -> (text: String) {
    error.to_string()
}

/// The part of a method address that breaks the naming rule.
#[derive(Clone, Copy, Debug, PartialEq, Eq, Structural)]
pub enum NamePart {
    /// The last dot-separated segment of the service.
    Service,
    /// The method name.
    Name,
}

/// Errors of this library.
#[derive(Debug)]
pub enum Error {
    /// A part of a method address does not start with an uppercase letter.
    InvalidNaming(NamePart),
    /// A path is not of the form `<service>/<name>`.
    MalformedAddress,
    /// A fixture is registered for another service than the one named here,
    /// which is the service that the server was declared for.
    ServiceMismatch(String),
    /// A fixture document is not valid YAML of the expected shape.
    YamlError(YamlError),
    /// A message in a fixture is not valid JSON of the expected shape.
    JsonError(JsonError),
    /// A fixture source could not be read.
    IoError(std::io::Error),
}

impl Error {
    /// Whether the error is one of the `invalid` class: a broken naming rule,
    /// a malformed path or a fixture for another service.
    pub open spec fn is_invalid(self) -> bool {
        self is InvalidNaming || self is MalformedAddress || self is ServiceMismatch
    }

    /// What the message says after its class prefix, for the errors that the
    /// library raises itself.
    pub open spec fn detail(self) -> Seq<char>
        recommends
            self.is_invalid(),
    {
        match self {
            Error::InvalidNaming(NamePart::Service) => "service should start with uppercase"@,
            Error::InvalidNaming(NamePart::Name) => "name should start with uppercase"@,
            Error::MalformedAddress => "path should be formatted `<service>/<name>`"@,
            Error::ServiceMismatch(name) => "all mocks must be for `"@ + name@ + "` service"@,
            _ => Seq::empty(),
        }
    }

    /// Whether `text` is a message of this error: its class, then for the
    /// errors that the library raises itself the detail, for the others
    /// whatever they display.
    pub open spec fn has_message(self, text: Seq<char>) -> bool {
        match self {
            Error::YamlError(_) => "yaml error: "@.is_prefix_of(text),
            Error::JsonError(_) => "json error: "@.is_prefix_of(text),
            Error::IoError(_) => "io error: "@.is_prefix_of(text),
            _ => text == "invalid: "@ + self.detail(),
        }
    }

    /// The error as a line of text: its class, a colon, the detail.
    pub fn message(&self) -> (text: String)
        ensures
            self.has_message(text@),
    {
        match self {
            Error::InvalidNaming(NamePart::Service) => String::from_str("invalid: ").concat(
                "service should start with uppercase",
            ),
            Error::InvalidNaming(NamePart::Name) => String::from_str("invalid: ").concat(
                "name should start with uppercase",
            ),
            Error::MalformedAddress => String::from_str("invalid: ").concat(
                "path should be formatted `<service>/<name>`",
            ),
            Error::ServiceMismatch(name) => {
                let text = String::from_str("invalid: ").concat("all mocks must be for `").concat(
                    name.as_str(),
                ).concat("` service");
                assert(text@ == "invalid: "@ + self.detail());
                text
            },
            Error::YamlError(e) => String::from_str("yaml error: ").concat(
                describe_yaml(e).as_str(),
            ),
            Error::JsonError(e) => String::from_str("json error: ").concat(
                describe_json(e).as_str(),
            ),
            Error::IoError(e) => String::from_str("io error: ").concat(describe_io(e).as_str()),
        }
    }
}

impl From<YamlError> for Error {
    fn from(error: YamlError) -> (r: Error) {
        Error::YamlError(error)
    }
}

impl vstd::std_specs::convert::FromSpecImpl<YamlError> for Error {
    open spec fn obeys_from_spec() -> bool {
        true
    }

    open spec fn from_spec(error: YamlError) -> Error {
        Error::YamlError(error)
    }
}

impl From<JsonError> for Error {
    fn from(error: JsonError) -> (r: Error) {
        Error::JsonError(error)
    }
}

impl vstd::std_specs::convert::FromSpecImpl<JsonError> for Error {
    open spec fn obeys_from_spec() -> bool {
        true
    }

    open spec fn from_spec(error: JsonError) -> Error {
        Error::JsonError(error)
    }
}

impl From<std::io::Error> for Error {
    fn from(error: std::io::Error) -> (r: Error) {
        Error::IoError(error)
    }
}

impl vstd::std_specs::convert::FromSpecImpl<std::io::Error> for Error {
    open spec fn obeys_from_spec() -> bool {
        true
    }

    open spec fn from_spec(error: std::io::Error) -> Error {
        Error::IoError(error)
    }
}

} // verus!
