//! The bodies of mock requests and responses.

use crate::error::Error;
use crate::wire::{
    append_bytes, bytes_as_slice, bytes_from_vec, bytes_of, encode_frame, framable, frame, frames,
    lemma_strip_frames_of_frames, strip_frames,
};
use bytes::Bytes;
use serde_json::Error as JsonError;
use vstd::prelude::*;

verus! {

/// A mock body in JSON format: nothing, one message or a list of messages,
/// each message a JSON text.
#[derive(Debug, Clone)]
pub enum JsonMockBody {
    Empty,
    Full(String),
    Stream(Vec<String>),
}

impl Default for JsonMockBody {
    fn default() -> (r: Self)
        ensures
            r == JsonMockBody::Empty,
    {
        JsonMockBody::Empty
    }
}

/// A mock body in protobuf bytes format: nothing, one message or a list of
/// messages, each message the bytes of its encoding.
#[derive(Debug, Clone)]
pub enum MockBody {
    Empty,
    Full(Bytes),
    Stream(Vec<Bytes>),
}

impl Default for MockBody {
    fn default() -> (r: Self)
        ensures
            r == MockBody::Empty,
    {
        MockBody::Empty
    }
}

/// Joins the messages of `data`.
fn concat(data: &Vec<Bytes>) -> (flat: Vec<u8>)
    ensures
        flat@ == data@.map_values(|chunk: Bytes| bytes_of(chunk)).flatten(),
{
    let ghost chunks = data@.map_values(|chunk: Bytes| bytes_of(chunk));
    let mut flat: Vec<u8> = Vec::new();
    let mut i: usize = 0;
    assert(chunks.take(0) == Seq::<Seq<u8>>::empty());
    while i < data.len()
        invariant
            i <= data.len(),
            chunks == data@.map_values(|chunk: Bytes| bytes_of(chunk)),
            flat@ == chunks.take(i as int).flatten(),
        decreases data.len() - i,
    {
        append_bytes(&mut flat, bytes_as_slice(&data[i]));
        proof {
            assert(chunks.take(i + 1) == chunks.take(i as int).push(chunks[i as int]));
            chunks.take(i as int).lemma_flatten_push(chunks[i as int]);
        }
        i += 1;
    }
    assert(chunks.take(chunks.len() as int) == chunks);
    flat
}

/// Whether two byte slices hold the same bytes.
fn same_bytes(a: &[u8], b: &[u8]) -> (r: bool)
    ensures
        r == (a@ == b@),
{
    if a.len() != b.len() {
        return false;
    }
    let mut i: usize = 0;
    while i < a.len()
        invariant
            i <= a.len(),
            a.len() == b.len(),
            a@.take(i as int) == b@.take(i as int),
        decreases a.len() - i,
    {
        if a[i] != b[i] {
            return false;
        }
        assert(a@.take(i + 1) == a@.take(i as int).push(a@[i as int]));
        assert(b@.take(i + 1) == b@.take(i as int).push(b@[i as int]));
        i += 1;
    }
    assert(a@.take(a@.len() as int) == a@);
    assert(b@.take(b@.len() as int) == b@);
    true
}

impl JsonMockBody {
    /// The JSON texts of the body, in order.
    pub open spec fn texts(self) -> Seq<String> {
        match self {
            JsonMockBody::Empty => Seq::empty(),
            JsonMockBody::Full(value) => seq![value],
            JsonMockBody::Stream(values) => values@,
        }
    }
}

/// Whether `decode` takes each of the JSON texts `texts`.
pub open spec fn can_decode<F: Fn(&String) -> Result<Vec<u8>, JsonError>>(
    decode: &F,
    texts: Seq<String>,
) -> bool {
    forall|i: int| 0 <= i < texts.len() ==> call_requires(*decode, (&#[trigger] texts[i],))
}

/// Whether `decode` may answer the JSON text `text` with the message
/// `chunk`.
pub open spec fn may_decode<F: Fn(&String) -> Result<Vec<u8>, JsonError>>(
    decode: &F,
    text: String,
    chunk: Seq<u8>,
) -> bool {
    exists|message: Vec<u8>|
        (#[trigger] message@) == chunk && call_ensures(
            *decode,
            (&text,),
            Ok::<Vec<u8>, JsonError>(message),
        )
}

/// Whether `decode` may answer the JSON texts `texts`, one by one, with the
/// messages `chunks`.
pub open spec fn decodes_to<F: Fn(&String) -> Result<Vec<u8>, JsonError>>(
    decode: &F,
    texts: Seq<String>,
    chunks: Seq<Seq<u8>>,
) -> bool {
    &&& chunks.len() == texts.len()
    &&& forall|i: int| 0 <= i < texts.len() ==> may_decode(decode, texts[i], #[trigger] chunks[i])
}

/// Whether `decode` may fail with `error` on one of the JSON texts `texts`
/// after it has answered those before it with messages.
pub open spec fn decode_fails<F: Fn(&String) -> Result<Vec<u8>, JsonError>>(
    decode: &F,
    texts: Seq<String>,
    error: JsonError,
) -> bool {
    exists|i: int, chunks: Seq<Seq<u8>>|
        0 <= i < texts.len() && #[trigger] decodes_to(decode, texts.take(i), chunks)
            && call_ensures(*decode, (&texts[i],), Err::<Vec<u8>, JsonError>(error))
}

impl MockBody {
    /// The messages of the body, in order.
    pub open spec fn chunks(self) -> Seq<Seq<u8>> {
        match self {
            MockBody::Empty => Seq::empty(),
            MockBody::Full(data) => seq![bytes_of(data)],
            MockBody::Stream(data) => data@.map_values(|chunk: Bytes| bytes_of(chunk)),
        }
    }

    /// The messages of the body joined: what a request is matched by.
    pub open spec fn payload(self) -> Seq<u8> {
        self.chunks().flatten()
    }

    /// The body as it goes over the wire: one frame for each message.
    pub open spec fn wire(self) -> Seq<u8> {
        frames(self.chunks())
    }

    /// The messages of the body joined into one run of bytes.
    pub fn to_payload(&self) -> (flat: Vec<u8>)
        ensures
            flat@ == self.payload(),
    {
        match self {
            MockBody::Empty => Vec::new(),
            MockBody::Full(data) => {
                proof {
                    seq![bytes_of(*data)].lemma_flatten_one_element();
                }
                let mut flat: Vec<u8> = Vec::new();
                append_bytes(&mut flat, bytes_as_slice(data));
                assert(Seq::<u8>::empty() + bytes_of(*data) == bytes_of(*data));
                flat
            },
            MockBody::Stream(data) => concat(data),
        }
    }

    /// The frames in which the body is sent: none for an empty body, one for
    /// a single message, one for each message of a stream, in order.
    pub fn to_frames(&self) -> (out: Vec<Bytes>)
        ensures
            out@.map_values(|framed: Bytes| bytes_of(framed)) == self.chunks().map_values(
                |chunk: Seq<u8>| frame(chunk),
            ),
    {
        let mut out: Vec<Bytes> = Vec::new();
        match self {
            MockBody::Empty => {},
            MockBody::Full(data) => {
                out.push(encode_frame(bytes_as_slice(data)));
            },
            MockBody::Stream(data) => {
                let mut i: usize = 0;
                while i < data.len()
                    invariant
                        i <= data.len(),
                        out@.len() == i,
                        forall|k: int|
                            0 <= k < i ==> bytes_of(#[trigger] out@[k]) == frame(
                                bytes_of(data@[k]),
                            ),
                    decreases data.len() - i,
                {
                    out.push(encode_frame(bytes_as_slice(&data[i])));
                    i += 1;
                }
            },
        }
        assert(out@.map_values(|framed: Bytes| bytes_of(framed)) == self.chunks().map_values(
            |chunk: Seq<u8>| frame(chunk),
        ));
        out
    }

    /// Whether the body is one message that holds `payload`.
    pub open spec fn is_full(self, payload: Seq<u8>) -> bool {
        self matches MockBody::Full(data) && bytes_of(data) == payload
    }

    /// Whether the body is a stream of the messages `chunks`.
    pub open spec fn is_stream(self, chunks: Seq<Seq<u8>>) -> bool {
        self matches MockBody::Stream(data) && data@.map_values(|chunk: Bytes| bytes_of(chunk))
            == chunks
    }

    /// A body of one message.
    pub fn full(message: Vec<u8>) -> (body: Self)
        ensures
            body.is_full(message@),
    {
        MockBody::Full(bytes_from_vec(message))
    }

    /// A body of a stream of messages.
    pub fn stream(messages: Vec<Vec<u8>>) -> (body: Self)
        ensures
            body.is_stream(messages@.map_values(|message: Vec<u8>| message@)),
    {
        let mut data: Vec<Bytes> = Vec::new();
        for message in it: messages
            invariant
                it.seq() == messages@,
                data@.len() == it.index(),
                forall|k: int|
                    0 <= k < it.index() ==> bytes_of(#[trigger] data@[k]) == messages@[k]@,
        {
            data.push(bytes_from_vec(message));
        }
        assert(data@.map_values(|chunk: Bytes| bytes_of(chunk)) == messages@.map_values(
            |message: Vec<u8>| message@,
        ));
        MockBody::Stream(data)
    }

    /// Whether the body may come of `json_body` where `decode` turns each
    /// JSON text into a message: nothing of nothing, one message of one
    /// text, and of a list of texts the stream of their messages or, where
    /// `flatten` is set, the one message that joins them.
    pub open spec fn decoded_from<F: Fn(&String) -> Result<Vec<u8>, JsonError>>(
        self,
        json_body: JsonMockBody,
        flatten: bool,
        decode: &F,
    ) -> bool {
        match json_body {
            JsonMockBody::Empty => self == MockBody::Empty,
            JsonMockBody::Full(_) => self is Full && decodes_to(
                decode,
                json_body.texts(),
                self.chunks(),
            ),
            JsonMockBody::Stream(_) => if flatten {
                self is Full && exists|chunks: Seq<Seq<u8>>|
                    #[trigger] decodes_to(decode, json_body.texts(), chunks) && self.payload()
                        == chunks.flatten()
            } else {
                self is Stream && decodes_to(decode, json_body.texts(), self.chunks())
            },
        }
    }

    /// The body with a stream joined into one message; any other body as it
    /// is. The payload stays what it was.
    pub fn flattened(self) -> (body: Self)
        ensures
            self is Stream ==> body.is_full(self.payload()),
            !(self is Stream) ==> body == self,
            body.payload() == self.payload(),
    {
        match self {
            MockBody::Stream(data) => {
                let body = MockBody::full(concat(&data));
                proof {
                    seq![self.payload()].lemma_flatten_one_element();
                }
                body
            },
            other => other,
        }
    }

    /// Creates a [`MockBody`] from a [`JsonMockBody`]. `decode` turns one
    /// JSON text into the bytes of the message that it describes, or fails;
    /// the first failure ends the work and is returned.
    pub fn from_json<F: Fn(&String) -> Result<Vec<u8>, JsonError>>(
        json_body: &JsonMockBody,
        flatten: bool,
        decode: &F,
    ) -> (r: Result<Self, Error>)
        requires
            can_decode(decode, json_body.texts()),
        ensures
            match r {
                Ok(body) => body.decoded_from(*json_body, flatten, decode),
                Err(e) => e matches Error::JsonError(error) && decode_fails(
                    decode,
                    json_body.texts(),
                    error,
                ),
            },
    {
        match json_body {
            JsonMockBody::Empty => Ok(MockBody::Empty),
            JsonMockBody::Full(value) => {
                assert(json_body.texts()[0] == *value);
                match decode(value) {
                    Ok(message) => {
                        let body = MockBody::full(message);
                        proof {
                            assert(message@ == body.chunks()[0]);
                            assert(may_decode(decode, *value, body.chunks()[0]));
                            assert(decodes_to(decode, json_body.texts(), body.chunks()));
                        }
                        Ok(body)
                    },
                    Err(error) => {
                        proof {
                            assert(json_body.texts().take(0) == Seq::<String>::empty());
                            assert(decodes_to(decode, json_body.texts().take(0), Seq::empty()));
                            assert(decode_fails(decode, json_body.texts(), error));
                        }
                        Err(Error::from(error))
                    },
                }
            },
            JsonMockBody::Stream(values) => {
                let mut messages: Vec<Vec<u8>> = Vec::new();
                let mut i: usize = 0;
                while i < values.len()
                    invariant
                        i <= values.len(),
                        json_body.texts() == values@,
                        can_decode(decode, values@),
                        decodes_to(
                            decode,
                            values@.take(i as int),
                            messages@.map_values(|message: Vec<u8>| message@),
                        ),
                    decreases values.len() - i,
                {
                    let ghost chunks = messages@.map_values(|message: Vec<u8>| message@);
                    match decode(&values[i]) {
                        Ok(message) => {
                            messages.push(message);
                            proof {
                                let longer = messages@.map_values(|message: Vec<u8>| message@);
                                assert(message@ == longer[i as int]);
                                assert forall|k: int| 0 <= k < i + 1 implies may_decode(
                                    decode,
                                    values@.take(i + 1)[k],
                                    #[trigger] longer[k],
                                ) by {
                                    if k < i {
                                        assert(longer[k] == chunks[k]);
                                        assert(values@.take(i + 1)[k] == values@.take(i as int)[k]);
                                    }
                                }
                            }
                        },
                        Err(error) => {
                            proof {
                                assert(decodes_to(
                                    decode,
                                    json_body.texts().take(i as int),
                                    chunks,
                                ));
                                assert(decode_fails(decode, json_body.texts(), error));
                            }
                            return Err(Error::from(error));
                        },
                    }
                    i += 1;
                }
                assert(values@.take(values@.len() as int) == values@);
                let ghost chunks = messages@.map_values(|message: Vec<u8>| message@);
                let body = MockBody::stream(messages);
                assert(decodes_to(decode, json_body.texts(), chunks));
                if flatten {
                    Ok(body.flattened())
                } else {
                    Ok(body)
                }
            },
        }
    }
}

/// A body that is sent and read back is matched by its own payload: the
/// frames of its messages, provided each fits its length bytes, decode to
/// the messages joined.
pub proof fn lemma_wire_decodes(body: MockBody)
    requires
        framable(body.chunks()),
    ensures
        strip_frames(body.wire()) == Some(body.payload()),
{
    lemma_strip_frames_of_frames(body.chunks());
}

impl PartialEq<[u8]> for MockBody {
    /// Whether the body, its messages joined, is `other` byte for byte.
    /// Where the messages are cut makes no difference.
    fn eq(&self, other: &[u8]) -> (r: bool) {
        match self {
            MockBody::Empty => {
                assert(self.payload() == Seq::<u8>::empty());
                assert(other@.len() == 0 ==> other@ =~= Seq::<u8>::empty());
                other.len() == 0
            },
            MockBody::Full(data) => {
                proof {
                    seq![bytes_of(*data)].lemma_flatten_one_element();
                }
                same_bytes(bytes_as_slice(data), other)
            },
            MockBody::Stream(data) => {
                let flat = concat(data);
                same_bytes(flat.as_slice(), other)
            },
        }
    }
}

impl vstd::std_specs::cmp::PartialEqSpecImpl<[u8]> for MockBody {
    open spec fn obeys_eq_spec() -> bool {
        true
    }

    open spec fn eq_spec(&self, other: &[u8]) -> bool {
        self.payload() == other@
    }
}

impl From<Bytes> for MockBody {
    fn from(value: Bytes) -> (r: Self) {
        MockBody::Full(value)
    }
}

impl vstd::std_specs::convert::FromSpecImpl<Bytes> for MockBody {
    open spec fn obeys_from_spec() -> bool {
        true
    }

    open spec fn from_spec(value: Bytes) -> Self {
        MockBody::Full(value)
    }
}

impl From<Vec<Bytes>> for MockBody {
    fn from(value: Vec<Bytes>) -> (r: Self) {
        MockBody::Stream(value)
    }
}

impl vstd::std_specs::convert::FromSpecImpl<Vec<Bytes>> for MockBody {
    open spec fn obeys_from_spec() -> bool {
        true
    }

    open spec fn from_spec(value: Vec<Bytes>) -> Self {
        MockBody::Stream(value)
    }
}

} // verus!
