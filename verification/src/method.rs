//! Method addresses: which service and which of its methods a request is for.

use crate::error::{Error, NamePart};
use vstd::prelude::*;
use vstd::string::{StrSliceExecFns, StringExecFns};

verus! {

/// A method as specifications see it: its service and its name.
pub type MethodKey = (Seq<char>, Seq<char>);

/// Whether `c` has the Unicode property `Uppercase`.
pub uninterp spec fn is_uppercase(c: char) -> bool;

/// `char::is_uppercase`: whether the character has the Unicode property
/// `Uppercase`.
#[verifier::external_body]
fn char_is_uppercase(c: char) -> (r: bool)
    ensures
        r == is_uppercase(c),
{
    c.is_uppercase()
}

/// What follows the last dot of `service`, or all of it where it has none.
pub open spec fn last_segment(service: Seq<char>) -> Seq<char>
    decreases service.len(),
{
    if service.len() == 0 {
        service
    } else if service.last() == '.' {
        Seq::empty()
    } else {
        last_segment(service.drop_last()).push(service.last())
    }
}

/// Whether `text` begins with an uppercase letter.
pub open spec fn starts_uppercase(text: Seq<char>) -> bool {
    text.len() > 0 && is_uppercase(text[0])
}

/// The naming rule: the last segment of the service and the method name each
/// begin with an uppercase letter.
pub open spec fn valid_naming(service: Seq<char>, name: Seq<char>) -> bool {
    starts_uppercase(last_segment(service)) && starts_uppercase(name)
}

/// Whether the last segment of `service` begins with an uppercase letter.
fn service_starts_uppercase(service: &str) -> (r: bool)
    ensures
        r == starts_uppercase(last_segment(service@)),
{
    // `None` while the segment that is being read is empty, else whether its
    // first character is uppercase.
    let mut first: Option<bool> = None;
    for c in it: service.chars()
        invariant
            it.seq() == service@,
            first == segment_start(last_segment(service@.take(it.index()))),
    {
        proof {
            assert(service@.take(it.index() + 1) == service@.take(it.index()).push(c));
            assert(service@.take(it.index() + 1).drop_last() == service@.take(it.index()));
        }
        if c == '.' {
            first = None;
        } else if first.is_none() {
            first = Some(char_is_uppercase(c));
        }
    }
    assert(service@.take(service@.len() as int) == service@);
    match first {
        Some(upper) => upper,
        None => false,
    }
}

/// `None` for an empty segment, else whether its first character is
/// uppercase.
spec fn segment_start(segment: Seq<char>) -> Option<bool> {
    if segment.len() == 0 {
        None
    } else {
        Some(is_uppercase(segment[0]))
    }
}

/// The path of a method: a slash, the service, a slash, the name.
pub open spec fn format_path(service: Seq<char>, name: Seq<char>) -> Seq<char> {
    seq!['/'] + service + seq!['/'] + name
}

/// `path` without the one slash that may lead it.
pub open spec fn strip_slash(path: Seq<char>) -> Seq<char> {
    if path.len() > 0 && path[0] == '/' {
        path.skip(1)
    } else {
        path
    }
}

/// Whether `text` has a slash at `at` and nowhere else.
pub open spec fn sole_slash(text: Seq<char>, at: int) -> bool {
    &&& 0 <= at < text.len()
    &&& text[at] == '/'
    &&& forall|i: int| 0 <= i < text.len() && i != at ==> text[i] != '/'
}

/// Service and name of a path of the form `<service>/<name>`, a leading
/// slash allowed: what stands before and behind its only other slash, if
/// both are non-empty.
pub open spec fn split_path(path: Seq<char>) -> Option<MethodKey> {
    let rest = strip_slash(path);
    if exists|at: int| sole_slash(rest, at) {
        let at = choose|at: int| sole_slash(rest, at);
        if 0 < at && at + 1 < rest.len() {
            Some((rest.take(at), rest.skip(at + 1)))
        } else {
            None
        }
    } else {
        None
    }
}

/// What constructing a method from `service` and `name` gives: the pair
/// itself under the naming rule, else the part that breaks it, the service
/// first.
pub open spec fn construct(service: Seq<char>, name: Seq<char>) -> Result<MethodKey, Error> {
    if !starts_uppercase(last_segment(service)) {
        Err(Error::InvalidNaming(NamePart::Service))
    } else if !starts_uppercase(name) {
        Err(Error::InvalidNaming(NamePart::Name))
    } else {
        Ok((service, name))
    }
}

/// What parsing `path` gives.
pub open spec fn parse(path: Seq<char>) -> Result<MethodKey, Error> {
    match split_path(path) {
        Some((service, name)) => construct(service, name),
        None => Err(Error::MalformedAddress),
    }
}

/// A gRPC method: a service and the unqualified name of one of its methods.
/// Every value obeys the naming rule.
#[derive(Debug, Hash)]
pub struct GrpcMethod {
    service: String,
    name: String,
}

impl View for GrpcMethod {
    type V = MethodKey;

    /// The service and the name.
    closed spec fn view(&self) -> MethodKey {
        (self.service@, self.name@)
    }
}

impl GrpcMethod {
    #[verifier::type_invariant]
    spec fn well_named(self) -> bool {
        valid_naming(self.service@, self.name@)
    }

    /// Creates the method `name` of `service`. Fails where the last
    /// dot-separated segment of `service` or `name` does not begin with an
    /// uppercase letter.
    pub fn new(service: &str, name: &str) -> (r: Result<Self, Error>)
        ensures
            match r {
                Ok(method) => construct(service@, name@) == Ok::<_, Error>(method@),
                Err(e) => construct(service@, name@) == Err::<MethodKey, _>(e),
            },
    {
        if !service_starts_uppercase(service) {
            return Err(Error::InvalidNaming(NamePart::Service));
        }
        if name.is_empty() || !char_is_uppercase(name.get_char(0)) {
            return Err(Error::InvalidNaming(NamePart::Name));
        }
        Ok(GrpcMethod { service: String::from_str(service), name: String::from_str(name) })
    }

    /// Returns method's service name.
    pub fn service(&self) -> (r: &str)
        ensures
            r@ == self@.0,
            valid_naming(self@.0, self@.1),
    {
        proof {
            use_type_invariant(self);
        }
        self.service.as_str()
    }

    /// Returns method's unqualified name.
    pub fn name(&self) -> (r: &str)
        ensures
            r@ == self@.1,
            valid_naming(self@.0, self@.1),
    {
        proof {
            use_type_invariant(self);
        }
        self.name.as_str()
    }

    /// Returns method's path.
    pub fn path(&self) -> (r: String)
        ensures
            r@ == format_path(self@.0, self@.1),
    {
        proof {
            reveal_strlit("/");
            assert("/"@ == seq!['/']);
        }
        String::from_str("/").concat(self.service.as_str()).concat("/").concat(self.name.as_str())
    }

    /// Reads a method from a path of the form `<service>/<name>`, with or
    /// without a slash in front. Fails where the path does not split into
    /// exactly two non-empty segments, or where they break the naming rule.
    pub fn parse(path: &str) -> (r: Result<Self, Error>)
        ensures
            match r {
                Ok(method) => parse(path@) == Ok::<_, Error>(method@),
                Err(e) => parse(path@) == Err::<MethodKey, _>(e),
            },
    {
        let len = path.unicode_len();
        // Where the segments begin, and where the one slash between them
        // stands once it has been seen.
        let mut start: usize = 0;
        let mut slash: Option<usize> = None;
        let mut i: usize = 0;
        for c in it: path.chars()
            invariant
                it.seq() == path@,
                len == path@.len(),
                i == it.index(),
                start <= 1,
                start <= i || i == 0,
                start == 1 <==> i > 0 && path@[0] == '/',
                match slash {
                    Some(at) => start <= at < i && path@[at as int] == '/' && forall|j: int|
                        start <= j < i && j != at ==> path@[j] != '/',
                    None => forall|j: int| start <= j < i ==> path@[j] != '/',
                },
        {
            if c == '/' {
                if i == 0 {
                    start = 1;
                } else if slash.is_some() {
                    proof {
                        lemma_two_slashes(strip_slash(path@), slash.unwrap() - start, i - start);
                    }
                    return Err(Error::MalformedAddress);
                } else {
                    slash = Some(i);
                }
            }
            i += 1;
        }
        let ghost rest = strip_slash(path@);
        assert(rest == path@.skip(start as int));
        match slash {
            Some(at) => {
                assert(sole_slash(rest, at - start));
                proof {
                    lemma_sole_slash_unique(rest, at - start);
                }
                if at == start || at + 1 == len {
                    return Err(Error::MalformedAddress);
                }
                let service = path.substring_char(start, at);
                let name = path.substring_char(at + 1, len);
                assert(service@ == rest.take(at - start));
                assert(name@ == rest.skip(at - start + 1));
                GrpcMethod::new(service, name)
            },
            None => {
                assert(forall|at: int| !sole_slash(rest, at));
                Err(Error::MalformedAddress)
            },
        }
    }
}

impl Clone for GrpcMethod {
    fn clone(&self) -> (r: Self)
        ensures
            r@ == self@,
    {
        proof {
            use_type_invariant(self);
        }
        GrpcMethod { service: self.service.clone(), name: self.name.clone() }
    }
}

impl PartialEq for GrpcMethod {
    fn eq(&self, other: &Self) -> (r: bool) {
        self.service == other.service && self.name == other.name
    }
}

impl Eq for GrpcMethod {

}

impl vstd::std_specs::cmp::PartialEqSpecImpl for GrpcMethod {
    open spec fn obeys_eq_spec() -> bool {
        true
    }

    /// Two methods are equal where service and name are.
    open spec fn eq_spec(&self, other: &Self) -> bool {
        self@ == other@
    }
}

impl std::str::FromStr for GrpcMethod {
    type Err = Error;

    /// Reads a method from its path, as [`GrpcMethod::parse`] does.
    fn from_str(s: &str) -> (r: Result<Self, Error>)
        ensures
            match r {
                Ok(method) => parse(s@) == Ok::<_, Error>(method@),
                Err(e) => parse(s@) == Err::<MethodKey, _>(e),
            },
    {
        GrpcMethod::parse(s)
    }
}

/// The last segment of a service is the part of it behind its last dot: it
/// ends the service, holds no dot, and either is all of the service or
/// stands right behind a dot.
pub proof fn lemma_last_segment(service: Seq<char>)
    ensures
        last_segment(service).len() <= service.len(),
        last_segment(service) == service.skip(service.len() - last_segment(service).len()),
        !last_segment(service).contains('.'),
        last_segment(service).len() < service.len() ==> service[service.len() - last_segment(
            service,
        ).len() - 1] == '.',
    decreases service.len(),
{
    if service.len() > 0 && service.last() != '.' {
        let front = service.drop_last();
        lemma_last_segment(front);
        let segment = last_segment(front);
        assert(segment.push(service.last()) == service.skip(service.len() - segment.len() - 1));
        assert forall|i: int| 0 <= i < segment.len() + 1 implies segment.push(service.last())[i]
            != '.' by {
            if i < segment.len() {
                assert(segment.contains(segment[i]));
            }
        }
    }
}

/// Parsing inverts formatting: the path of a service and a name that obey
/// the naming rule and hold no slash parses to that service and that name.
pub proof fn lemma_parse_format(service: Seq<char>, name: Seq<char>)
    requires
        valid_naming(service, name),
        !service.contains('/'),
        !name.contains('/'),
    ensures
        parse(format_path(service, name)) == Ok::<_, Error>((service, name)),
{
    let path = format_path(service, name);
    let rest = strip_slash(path);
    let at = service.len() as int;
    lemma_last_segment(service);
    assert(rest == service + seq!['/'] + name);
    assert forall|i: int| 0 <= i < rest.len() && i != at implies rest[i] != '/' by {
        if i < at {
            assert(service.contains(service[i]));
        } else {
            assert(name.contains(name[i - at - 1]));
        }
    }
    assert(sole_slash(rest, at));
    lemma_sole_slash_unique(rest, at);
    assert(rest.take(at) == service);
    assert(rest.skip(at + 1) == name);
}

/// A text with slashes at two places has no only slash.
proof fn lemma_two_slashes(text: Seq<char>, a: int, b: int)
    requires
        0 <= a < b < text.len(),
        text[a] == '/',
        text[b] == '/',
    ensures
        forall|at: int| !sole_slash(text, at),
{
    assert forall|at: int| !sole_slash(text, at) by {
        if sole_slash(text, at) {
            if at == a {
                assert(text[b] != '/');
            } else {
                assert(text[a] != '/');
            }
        }
    }
}

/// A text has its only slash at one place: the one that [`split_path`]
/// splits it at.
pub proof fn lemma_sole_slash_unique(text: Seq<char>, at: int)
    requires
        sole_slash(text, at),
    ensures
        (choose|k: int| sole_slash(text, k)) == at,
{
    let k = choose|k: int| sole_slash(text, k);
    assert(sole_slash(text, k));
    if k != at {
        assert(text[k] != '/');
    }
}

} // verus!
