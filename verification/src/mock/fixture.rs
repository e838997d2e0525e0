//! Mock requests, mock responses and the pairs of them.

use crate::error::Error;
use crate::method::{construct, GrpcMethod, MethodKey};
use crate::mock::body::{can_decode, decode_fails, JsonMockBody, MockBody};
use crate::status::{http_to_grpc, status_number, status_ok, Code};
use http::{HeaderMap, StatusCode};
use serde_json::Error as JsonError;
use vstd::prelude::*;
use vstd::string::StringExecFns;

verus! {

/// `http::HeaderMap`, the headers of a request or a response. Of a value
/// nothing is known but what [`header_entries`] says.
#[verifier::external_type_specification]
#[verifier::external_body]
#[verifier::reject_recursive_types(T)]
pub struct ExHeaderMap<T>(http::HeaderMap<T>);

/// `http::HeaderValue`, the value of one header: what a [`HeaderMap`] holds
/// for each name.
#[verifier::external_type_specification]
#[verifier::external_body]
pub struct ExHeaderValue(http::HeaderValue);

/// The headers that a [`HeaderMap`] holds, each a name and the bytes of one
/// value, in the order in which the map is walked.
pub uninterp spec fn header_entries(headers: HeaderMap) -> Seq<(Seq<char>, Seq<u8>)>;

/// `HeaderMap::new`: a map that holds no header.
#[verifier::external_body]
fn empty_headers() -> (headers: HeaderMap)
    ensures
        header_entries(headers) == Seq::<(Seq<char>, Seq<u8>)>::empty(),
{
    HeaderMap::new()
}

/// `<HeaderMap<T> as Clone>::clone`, which `derive` wrote: a copy of the map.
pub assume_specification<T: Clone>[ <http::HeaderMap<T> as Clone>::clone ](
    headers: &http::HeaderMap<T>,
) -> (copy: http::HeaderMap<T>)
;

/// A mock request.
#[derive(Debug, Clone)]
pub struct MockRequest {
    pub headers: HeaderMap,
    /// The body as the fixture document gives it.
    pub json_body: JsonMockBody,
    pub body: MockBody,
}

impl Default for MockRequest {
    fn default() -> (r: Self)
        ensures
            r.is_plain(),
            r.body == MockBody::Empty,
    {
        MockRequest {
            headers: empty_headers(),
            json_body: JsonMockBody::Empty,
            body: MockBody::Empty,
        }
    }
}

impl MockRequest {
    /// Whether the request has nothing but a body: no headers and no JSON
    /// form.
    pub open spec fn is_plain(self) -> bool {
        &&& header_entries(self.headers) == Seq::<(Seq<char>, Seq<u8>)>::empty()
        &&& self.json_body == JsonMockBody::Empty
    }

    /// A request with the given body and no headers.
    pub fn new(body: MockBody) -> (r: Self)
        ensures
            r.is_plain(),
            r.body == body,
    {
        MockRequest { headers: empty_headers(), json_body: JsonMockBody::Empty, body }
    }

    pub fn headers(&self) -> (r: &HeaderMap)
        ensures
            *r == self.headers,
    {
        &self.headers
    }

    pub fn body(&self) -> (r: &MockBody)
        ensures
            *r == self.body,
    {
        &self.body
    }
}

/// A mock response.
#[derive(Debug, Clone)]
pub struct MockResponse {
    /// The HTTP-style status that the gRPC status is derived from.
    pub code: StatusCode,
    pub headers: HeaderMap,
    /// The body as the fixture document gives it.
    pub json_body: JsonMockBody,
    pub body: MockBody,
    /// The error message to send along, if any.
    pub error: Option<String>,
}

impl Default for MockResponse {
    fn default() -> (r: Self)
        ensures
            r.is_plain(),
            r.body == MockBody::Empty,
    {
        MockResponse {
            code: status_ok(),
            headers: empty_headers(),
            json_body: JsonMockBody::Empty,
            body: MockBody::Empty,
            error: None,
        }
    }
}

impl MockResponse {
    /// Whether the response has nothing but a body: status 200, no headers,
    /// no JSON form and no error message.
    pub open spec fn is_plain(self) -> bool {
        &&& status_number(self.code) == 200
        &&& header_entries(self.headers) == Seq::<(Seq<char>, Seq<u8>)>::empty()
        &&& self.json_body == JsonMockBody::Empty
        &&& self.error is None
    }

    /// A response with the given body, status 200, no headers and no error
    /// message.
    pub fn new(body: MockBody) -> (r: Self)
        ensures
            r.is_plain(),
            r.body == body,
    {
        MockResponse {
            code: status_ok(),
            headers: empty_headers(),
            json_body: JsonMockBody::Empty,
            body,
            error: None,
        }
    }

    pub fn code(&self) -> (r: StatusCode)
        ensures
            r == self.code,
    {
        self.code
    }

    /// The gRPC status code that the response's status stands for.
    pub fn grpc_code(&self) -> (r: Code)
        ensures
            r == http_to_grpc(status_number(self.code)),
    {
        Code::from_http(self.code)
    }

    pub fn headers(&self) -> (r: &HeaderMap)
        ensures
            *r == self.headers,
    {
        &self.headers
    }

    pub fn body(&self) -> (r: &MockBody)
        ensures
            *r == self.body,
    {
        &self.body
    }

    pub fn error(&self) -> (r: Option<&str>)
        ensures
            r is Some <==> self.error is Some,
            r matches Some(text) ==> text@ == self.error->0@,
    {
        match &self.error {
            Some(text) => Some(text.as_str()),
            None => None,
        }
    }
}

/// A mock request and response pair.
#[derive(Debug, Clone)]
pub struct Mock {
    pub request: MockRequest,
    pub response: MockResponse,
}

impl Mock {
    /// Creates a unary [`Mock`]: one request message, one response message.
    pub fn unary(request: Vec<u8>, response: Vec<u8>) -> (mock: Self)
        ensures
            mock.request.is_plain(),
            mock.request.body.is_full(request@),
            mock.response.is_plain(),
            mock.response.body.is_full(response@),
    {
        Mock {
            request: MockRequest::new(MockBody::full(request)),
            response: MockResponse::new(MockBody::full(response)),
        }
    }

    /// Creates a client-streaming [`Mock`]: a stream of request messages,
    /// one response message.
    pub fn client_streaming(request: Vec<Vec<u8>>, response: Vec<u8>) -> (mock: Self)
        ensures
            mock.request.is_plain(),
            mock.request.body.is_stream(request@.map_values(|message: Vec<u8>| message@)),
            mock.response.is_plain(),
            mock.response.body.is_full(response@),
    {
        Mock {
            request: MockRequest::new(MockBody::stream(request)),
            response: MockResponse::new(MockBody::full(response)),
        }
    }

    /// Creates a server-streaming [`Mock`]: one request message, a stream of
    /// response messages.
    pub fn server_streaming(request: Vec<u8>, response: Vec<Vec<u8>>) -> (mock: Self)
        ensures
            mock.request.is_plain(),
            mock.request.body.is_full(request@),
            mock.response.is_plain(),
            mock.response.body.is_stream(response@.map_values(|message: Vec<u8>| message@)),
    {
        Mock {
            request: MockRequest::new(MockBody::full(request)),
            response: MockResponse::new(MockBody::stream(response)),
        }
    }

    /// Creates a bidi-streaming [`Mock`]: a stream of request messages, a
    /// stream of response messages.
    pub fn bidi_streaming(request: Vec<Vec<u8>>, response: Vec<Vec<u8>>) -> (mock: Self)
        ensures
            mock.request.is_plain(),
            mock.request.body.is_stream(request@.map_values(|message: Vec<u8>| message@)),
            mock.response.is_plain(),
            mock.response.body.is_stream(response@.map_values(|message: Vec<u8>| message@)),
    {
        Mock {
            request: MockRequest::new(MockBody::stream(request)),
            response: MockResponse::new(MockBody::stream(response)),
        }
    }

    /// Whether the decoders take the JSON texts of the mock's bodies.
    pub open spec fn can_encode<
        F: Fn(&String) -> Result<Vec<u8>, JsonError>,
        G: Fn(&String) -> Result<Vec<u8>, JsonError>,
    >(self, decode_request: &F, decode_response: &G) -> bool {
        &&& can_decode(decode_request, self.request.json_body.texts())
        &&& can_decode(decode_response, self.response.json_body.texts())
    }

    /// Whether the mock is `source` with its bodies decoded from their JSON
    /// form: the request body with its messages joined into one, the
    /// response body message by message. All else is as in `source`.
    pub open spec fn encoded_from<
        F: Fn(&String) -> Result<Vec<u8>, JsonError>,
        G: Fn(&String) -> Result<Vec<u8>, JsonError>,
    >(self, source: Mock, decode_request: &F, decode_response: &G) -> bool {
        &&& self.request == (MockRequest { body: self.request.body, ..source.request })
        &&& self.response == (MockResponse { body: self.response.body, ..source.response })
        &&& self.request.body.decoded_from(source.request.json_body, true, decode_request)
        &&& self.response.body.decoded_from(source.response.json_body, false, decode_response)
    }

    /// Whether decoding the JSON bodies of the mock may fail with `error`:
    /// on the request, or on the response once the request is decoded.
    pub open spec fn encoding_fails<
        F: Fn(&String) -> Result<Vec<u8>, JsonError>,
        G: Fn(&String) -> Result<Vec<u8>, JsonError>,
    >(self, decode_request: &F, decode_response: &G, error: JsonError) -> bool {
        ||| decode_fails(decode_request, self.request.json_body.texts(), error)
        ||| (exists|body: MockBody| #[trigger]
            body.decoded_from(self.request.json_body, true, decode_request)) && decode_fails(
            decode_response,
            self.response.json_body.texts(),
            error,
        )
    }

    /// Encode JSON body representation ([`JsonMockBody`]) to protobuf body
    /// ([`MockBody`]): the request first, then the response. A failure on
    /// the request leaves the mock as it was; one on the response leaves the
    /// request body decoded.
    pub fn encode_body<
        F: Fn(&String) -> Result<Vec<u8>, JsonError>,
        G: Fn(&String) -> Result<Vec<u8>, JsonError>,
    >(&mut self, decode_request: &F, decode_response: &G) -> (r: Result<(), Error>)
        requires
            old(self).can_encode(decode_request, decode_response),
        ensures
            match r {
                Ok(_) => final(self).encoded_from(*old(self), decode_request, decode_response),
                Err(e) => {
                    &&& e matches Error::JsonError(error)
                    &&& old(self).encoding_fails(decode_request, decode_response, error)
                    &&& final(self).response == old(self).response
                    &&& final(self).request == (MockRequest {
                        body: final(self).request.body,
                        ..old(self).request
                    })
                },
            },
    {
        match MockBody::from_json(&self.request.json_body, true, decode_request) {
            Ok(body) => {
                self.request.body = body;
            },
            Err(e) => {
                return Err(e);
            },
        }
        match MockBody::from_json(&self.response.json_body, false, decode_response) {
            Ok(body) => {
                self.response.body = body;
            },
            Err(e) => {
                return Err(e);
            },
        }
        Ok(())
    }

    /// Sets the status of the response.
    pub fn with_code(self, code: StatusCode) -> (mock: Self)
        ensures
            mock == (Mock { response: MockResponse { code, ..self.response }, ..self }),
    {
        let mut mock = self;
        mock.response.code = code;
        mock
    }

    /// Sets the error message of the response.
    pub fn with_error(self, error: &str) -> (mock: Self)
        ensures
            mock.response.error matches Some(text) && text@ == error@,
            mock == (Mock {
                response: MockResponse { error: mock.response.error, ..self.response },
                ..self
            }),
    {
        let mut mock = self;
        mock.response.error = Some(String::from_str(error));
        mock
    }

    /// Sets the headers of the response.
    pub fn with_headers(self, headers: HeaderMap) -> (mock: Self)
        ensures
            mock == (Mock { response: MockResponse { headers, ..self.response }, ..self }),
    {
        let mut mock = self;
        mock.response.headers = headers;
        mock
    }
}

/// A YAML file defining a set of mocks for a method, as it stands once the
/// document has been read: the bodies of its mocks are still in JSON form.
#[derive(Debug, Clone)]
pub struct MockFile {
    pub service: String,
    pub method: String,
    pub mocks: Vec<Mock>,
}

/// Whether the decoders take the JSON texts of every one of `sources`.
pub open spec fn can_encode_all<
    F: Fn(&String) -> Result<Vec<u8>, JsonError>,
    G: Fn(&String) -> Result<Vec<u8>, JsonError>,
>(sources: Seq<Mock>, decode_request: &F, decode_response: &G) -> bool {
    forall|i: int|
        0 <= i < sources.len() ==> (#[trigger] sources[i]).can_encode(
            decode_request,
            decode_response,
        )
}

/// Whether `mocks` are `sources`, one by one, with their bodies decoded.
pub open spec fn all_encoded<
    F: Fn(&String) -> Result<Vec<u8>, JsonError>,
    G: Fn(&String) -> Result<Vec<u8>, JsonError>,
>(mocks: Seq<Mock>, sources: Seq<Mock>, decode_request: &F, decode_response: &G) -> bool {
    &&& mocks.len() == sources.len()
    &&& forall|i: int|
        0 <= i < sources.len() ==> (#[trigger] mocks[i]).encoded_from(
            sources[i],
            decode_request,
            decode_response,
        )
}

/// Whether decoding `sources` one by one may fail with `error`: on one of
/// them, after those before it have been decoded.
pub open spec fn some_encoding_fails<
    F: Fn(&String) -> Result<Vec<u8>, JsonError>,
    G: Fn(&String) -> Result<Vec<u8>, JsonError>,
>(sources: Seq<Mock>, decode_request: &F, decode_response: &G, error: JsonError) -> bool {
    exists|i: int, mocks: Seq<Mock>|
        0 <= i < sources.len() && #[trigger] all_encoded(
            mocks,
            sources.take(i),
            decode_request,
            decode_response,
        ) && sources[i].encoding_fails(decode_request, decode_response, error)
}

impl MockFile {
    /// Reads off the file the method that it is for and its mocks, their
    /// bodies decoded. Fails where service and method break the naming rule, else
    /// with the first failure of a decoder, the mocks taken in order.
    pub fn read<
        F: Fn(&String) -> Result<Vec<u8>, JsonError>,
        G: Fn(&String) -> Result<Vec<u8>, JsonError>,
    >(self, decode_request: &F, decode_response: &G) -> (r: Result<
        (GrpcMethod, Vec<Mock>),
        Error,
    >)
        requires
            can_encode_all(self.mocks@, decode_request, decode_response),
        ensures
            match r {
                Ok((method, mocks)) => {
                    &&& construct(self.service@, self.method@) == Ok::<_, Error>(method@)
                    &&& all_encoded(mocks@, self.mocks@, decode_request, decode_response)
                },
                Err(e) => if construct(self.service@, self.method@) is Err {
                    construct(self.service@, self.method@) == Err::<MethodKey, _>(e)
                } else {
                    e matches Error::JsonError(error) && some_encoding_fails(
                        self.mocks@,
                        decode_request,
                        decode_response,
                        error,
                    )
                },
            },
    {
        let method = match GrpcMethod::new(self.service.as_str(), self.method.as_str()) {
            Ok(method) => method,
            Err(e) => {
                return Err(e);
            },
        };
        let mut mocks: Vec<Mock> = Vec::new();
        for source in it: self.mocks
            invariant
                it.seq() == self.mocks@,
                construct(self.service@, self.method@) is Ok,
                can_encode_all(self.mocks@, decode_request, decode_response),
                all_encoded(
                    mocks@,
                    self.mocks@.take(it.index()),
                    decode_request,
                    decode_response,
                ),
        {
            let ghost done = mocks@;
            assert(self.mocks@[it.index()] == source);
            let mut mock = source;
            match mock.encode_body(decode_request, decode_response) {
                Ok(_) => {},
                Err(e) => {
                    proof {
                        assert(all_encoded(
                            done,
                            self.mocks@.take(it.index()),
                            decode_request,
                            decode_response,
                        ));
                        assert(self.mocks@[it.index()] == source);
                        assert(some_encoding_fails(
                            self.mocks@,
                            decode_request,
                            decode_response,
                            e->JsonError_0,
                        ));
                    }
                    return Err(e);
                },
            }
            mocks.push(mock);
            proof {
                assert forall|i: int| 0 <= i < it.index() + 1 implies (#[trigger] mocks@[i])
                    .encoded_from(
                    self.mocks@.take(it.index() + 1)[i],
                    decode_request,
                    decode_response,
                ) by {
                    if i < it.index() {
                        assert(mocks@[i] == done[i]);
                        assert(self.mocks@.take(it.index() + 1)[i] == self.mocks@.take(
                            it.index(),
                        )[i]);
                    }
                }
            }
        }
        assert(self.mocks@.take(self.mocks@.len() as int) == self.mocks@);
        Ok((method, mocks))
    }
}

} // verus!
