//! The registry of mocks: for each method its mocks in the order of their
//! registration, and the lookup of the mock that answers a request.

use crate::error::Error;
use crate::method::{construct, GrpcMethod, MethodKey};
use crate::mock::fixture::{all_encoded, can_encode_all, some_encoding_fails, Mock, MockFile};
use serde_json::Error as JsonError;
use vstd::prelude::*;
use vstd::string::StringExecFns;

verus! {

/// A registry as specifications see it: the mocks of each method that has
/// any, in the order of their registration.
pub type Registry = Map<MethodKey, Seq<Mock>>;

/// The first of `mocks` whose request body, its messages joined, is
/// `payload`.
pub open spec fn first_match(mocks: Seq<Mock>, payload: Seq<u8>) -> Option<Mock>
    decreases mocks.len(),
{
    if mocks.len() == 0 {
        None
    } else if mocks.first().request.body.payload() == payload {
        Some(mocks.first())
    } else {
        first_match(mocks.drop_first(), payload)
    }
}

/// The mock that answers a request for the method `key` with the payload
/// `payload`: the first match among the mocks of that method.
pub open spec fn lookup(
    mocks: Registry,
    key: MethodKey,
    payload: Seq<u8>,
) -> Option<Mock> {
    if mocks.contains_key(key) {
        first_match(mocks[key], payload)
    } else {
        None
    }
}

/// The mocks of the method `key` with `more` put behind them.
pub open spec fn extended(
    mocks: Registry,
    key: MethodKey,
    more: Seq<Mock>,
) -> Registry {
    if mocks.contains_key(key) {
        mocks.insert(key, mocks[key] + more)
    } else {
        mocks.insert(key, more)
    }
}

/// What a list of entries collects to: each entry sets the mocks of its
/// method, a later entry in place of an earlier one for the same method.
pub open spec fn collected(entries: Seq<(GrpcMethod, Vec<Mock>)>) -> Registry
    decreases entries.len(),
{
    if entries.len() == 0 {
        Map::empty()
    } else {
        collected(entries.drop_last()).insert(entries.last().0@, entries.last().1@)
    }
}

/// Whether no two of `entries` are for the same method.
spec fn distinct(entries: Seq<(GrpcMethod, Vec<Mock>)>) -> bool {
    forall|i: int, j: int| 0 <= i < j < entries.len() ==> entries[i].0@ != entries[j].0@
}

/// Whether the entry at `i` is for the method `key`.
spec fn entry_for(entries: Seq<(GrpcMethod, Vec<Mock>)>, key: MethodKey, i: int)
    -> bool {
    0 <= i < entries.len() && entries[i].0@ == key
}

/// The map that `entries` stand for.
spec fn model(entries: Seq<(GrpcMethod, Vec<Mock>)>) -> Registry {
    Map::new(
        |key: MethodKey| exists|i: int| entry_for(entries, key, i),
        |key: MethodKey| entries[choose|i: int| entry_for(entries, key, i)].1@,
    )
}

/// Each of distinct entries is what the model holds for its method.
proof fn lemma_model_entry(entries: Seq<(GrpcMethod, Vec<Mock>)>, i: int)
    requires
        distinct(entries),
        0 <= i < entries.len(),
    ensures
        model(entries).contains_key(entries[i].0@),
        model(entries)[entries[i].0@] == entries[i].1@,
{
    let key = entries[i].0@;
    assert(entry_for(entries, key, i));
    let k = choose|k: int| entry_for(entries, key, k);
    assert(k == i);
}

/// A new entry for a method that has none adds that method to the model.
proof fn lemma_model_push(entries: Seq<(GrpcMethod, Vec<Mock>)>, entry: (GrpcMethod, Vec<Mock>))
    requires
        distinct(entries),
        !model(entries).contains_key(entry.0@),
    ensures
        distinct(entries.push(entry)),
        model(entries.push(entry)) == model(entries).insert(entry.0@, entry.1@),
{
    let longer = entries.push(entry);
    assert forall|i: int, j: int| 0 <= i < j < longer.len() implies longer[i].0@
        != longer[j].0@ by {
        if j == entries.len() {
            assert(entry_for(entries, entries[i].0@, i));
        }
    }
    let expected = model(entries).insert(entry.0@, entry.1@);
    assert forall|key: MethodKey| #[trigger]
        model(longer).contains_key(key) == expected.contains_key(key) by {
        if model(longer).contains_key(key) {
            let i = choose|i: int| entry_for(longer, key, i);
            if i < entries.len() {
                assert(entry_for(entries, key, i));
            }
        }
        if expected.contains_key(key) {
            if key == entry.0@ {
                assert(entry_for(longer, key, entries.len() as int));
            } else {
                let i = choose|i: int| entry_for(entries, key, i);
                assert(entry_for(longer, key, i));
            }
        }
    }
    assert forall|key: MethodKey| model(longer).contains_key(key) implies #[trigger]
        model(longer)[key] == expected[key] by {
        let i = choose|i: int| entry_for(longer, key, i);
        lemma_model_entry(longer, i);
        if i < entries.len() {
            lemma_model_entry(entries, i);
        }
    }
    assert(model(longer) =~= expected);
}

/// Another list of mocks for the method of an entry replaces that method's
/// mocks in the model.
proof fn lemma_model_update(
    entries: Seq<(GrpcMethod, Vec<Mock>)>,
    at: int,
    entry: (GrpcMethod, Vec<Mock>),
)
    requires
        distinct(entries),
        0 <= at < entries.len(),
        entry.0@ == entries[at].0@,
    ensures
        distinct(entries.update(at, entry)),
        model(entries.update(at, entry)) == model(entries).insert(entry.0@, entry.1@),
{
    let changed = entries.update(at, entry);
    assert forall|i: int, j: int| 0 <= i < j < changed.len() implies changed[i].0@
        != changed[j].0@ by {
        assert(changed[i].0@ == entries[i].0@);
        assert(changed[j].0@ == entries[j].0@);
    }
    let expected = model(entries).insert(entry.0@, entry.1@);
    assert forall|key: MethodKey| #[trigger]
        model(changed).contains_key(key) == expected.contains_key(key) by {
        if model(changed).contains_key(key) {
            let i = choose|i: int| entry_for(changed, key, i);
            assert(entry_for(entries, key, i));
        }
        if expected.contains_key(key) {
            if key == entry.0@ {
                assert(entry_for(changed, key, at));
            } else {
                let i = choose|i: int| entry_for(entries, key, i);
                assert(entry_for(changed, key, i));
            }
        }
    }
    assert forall|key: MethodKey| model(changed).contains_key(key) implies #[trigger]
        model(changed)[key] == expected[key] by {
        let i = choose|i: int| entry_for(changed, key, i);
        lemma_model_entry(changed, i);
        lemma_model_entry(entries, i);
    }
    assert(model(changed) =~= expected);
}

/// Where the entry for `method` stands, if there is one.
fn position(entries: &Vec<(GrpcMethod, Vec<Mock>)>, method: &GrpcMethod) -> (at: Option<usize>)
    requires
        distinct(entries@),
    ensures
        match at {
            Some(i) => entry_for(entries@, method@, i as int),
            None => !model(entries@).contains_key(method@),
        },
{
    let mut i: usize = 0;
    while i < entries.len()
        invariant
            i <= entries.len(),
            forall|k: int| 0 <= k < i ==> !entry_for(entries@, method@, k),
        decreases entries.len() - i,
    {
        if entries[i].0 == *method {
            return Some(i);
        }
        i += 1;
    }
    None
}

/// A set of mocks for a service: for each method the mocks registered for
/// it, in the order in which they were registered.
#[derive(Debug)]
pub struct MockSet {
    entries: Vec<(GrpcMethod, Vec<Mock>)>,
}

impl View for MockSet {
    type V = Registry;

    /// The mocks of each method that has any registered.
    closed spec fn view(&self) -> Registry {
        model(self.entries@)
    }
}

impl Clone for MockSet {
    /// A set with the same methods and, for each, as many mocks.
    fn clone(&self) -> (r: Self)
        ensures
            r@.dom() == self@.dom(),
            forall|key: MethodKey|
                self@.contains_key(key) ==> (#[trigger] r@[key]).len() == self@[key].len(),
    {
        proof {
            use_type_invariant(self);
        }
        let mut entries: Vec<(GrpcMethod, Vec<Mock>)> = Vec::new();
        let mut i: usize = 0;
        while i < self.entries.len()
            invariant
                i <= self.entries.len(),
                entries@.len() == i,
                forall|k: int|
                    0 <= k < i ==> (#[trigger] entries@[k]).0@ == self.entries@[k].0@
                        && entries@[k].1@.len() == self.entries@[k].1@.len(),
            decreases self.entries.len() - i,
        {
            entries.push((self.entries[i].0.clone(), self.entries[i].1.clone()));
            i += 1;
        }
        let r = MockSet { entries };
        proof {
            assert forall|key: MethodKey| #[trigger]
                r@.contains_key(key) == self@.contains_key(key) by {
                if r@.contains_key(key) {
                    let k = choose|k: int| entry_for(r.entries@, key, k);
                    assert(entry_for(self.entries@, key, k));
                }
                if self@.contains_key(key) {
                    let k = choose|k: int| entry_for(self.entries@, key, k);
                    assert(entry_for(r.entries@, key, k));
                }
            }
            assert(r@.dom() =~= self@.dom());
            assert forall|key: MethodKey| self@.contains_key(key) implies (
            #[trigger] r@[key]).len() == self@[key].len() by {
                let k = choose|k: int| entry_for(self.entries@, key, k);
                lemma_model_entry(self.entries@, k);
                lemma_model_entry(r.entries@, k);
            }
        }
        r
    }
}

impl Default for MockSet {
    fn default() -> (r: Self)
        ensures
            r@ == Registry::empty(),
    {
        MockSet::new()
    }
}

impl MockSet {
    #[verifier::type_invariant]
    spec fn one_entry_each(self) -> bool {
        distinct(self.entries@)
    }

    /// Creates a empty [`MockSet`].
    pub fn new() -> (r: Self)
        ensures
            r@ == Registry::empty(),
    {
        let r = MockSet { entries: Vec::new() };
        assert(r@ =~= Registry::empty());
        r
    }

    /// Inserts a [`Mock`] behind the mocks that `method` already has.
    pub fn insert(&mut self, method: GrpcMethod, mock: Mock)
        ensures
            final(self)@ == extended(old(self)@, method@, seq![mock]),
    {
        let mut mocks: Vec<Mock> = Vec::new();
        mocks.push(mock);
        self.insert_all(method, mocks);
    }

    /// Inserts [`Mock`]s, in their order, behind the mocks that `method`
    /// already has.
    pub fn insert_all(&mut self, method: GrpcMethod, mocks: Vec<Mock>)
        ensures
            final(self)@ == extended(old(self)@, method@, mocks@),
    {
        proof {
            use_type_invariant(&*self);
        }
        let mut entries: Vec<(GrpcMethod, Vec<Mock>)> = Vec::new();
        std::mem::swap(&mut self.entries, &mut entries);
        let ghost before = entries@;
        let mut mocks = mocks;
        match position(&entries, &method) {
            Some(i) => {
                entries[i].1.append(&mut mocks);
                proof {
                    lemma_model_entry(before, i as int);
                    lemma_model_update(before, i as int, entries@[i as int]);
                    assert(entries@ == before.update(i as int, entries@[i as int]));
                }
            },
            None => {
                proof {
                    lemma_model_push(before, (method, mocks));
                }
                entries.push((method, mocks));
            },
        }
        self.entries = entries;
    }

    /// Matches a [`Mock`] by method and request body: the first mock of
    /// `method` whose request body, its messages joined, is `body` byte for
    /// byte. Headers play no part.
    pub fn find(&self, method: &GrpcMethod, body: &[u8]) -> (r: Option<&Mock>)
        ensures
            match r {
                Some(mock) => lookup(self@, method@, body@) == Some(*mock),
                None => lookup(self@, method@, body@) is None,
            },
    {
        proof {
            use_type_invariant(self);
        }
        match position(&self.entries, method) {
            None => None,
            Some(i) => {
                proof {
                    lemma_model_entry(self.entries@, i as int);
                }
                let mocks = &self.entries[i].1;
                let mut k: usize = 0;
                assert(mocks@.skip(0) == mocks@);
                while k < mocks.len()
                    invariant
                        k <= mocks.len(),
                        self@.contains_key(method@),
                        self@[method@] == mocks@,
                        first_match(mocks@, body@) == first_match(mocks@.skip(k as int), body@),
                    decreases mocks.len() - k,
                {
                    assert(mocks@.skip(k as int).first() == mocks@[k as int]);
                    assert(mocks@.skip(k as int).drop_first() == mocks@.skip(k + 1));
                    if mocks[k].request.body == *body {
                        return Some(&mocks[k]);
                    }
                    k += 1;
                }
                None
            },
        }
    }

    /// The mocks registered for `method`, if it has any entry.
    pub fn get(&self, method: &GrpcMethod) -> (r: Option<&Vec<Mock>>)
        ensures
            r is Some <==> self@.contains_key(method@),
            r matches Some(mocks) ==> mocks@ == self@[method@],
    {
        proof {
            use_type_invariant(self);
        }
        match position(&self.entries, method) {
            None => None,
            Some(i) => {
                proof {
                    lemma_model_entry(self.entries@, i as int);
                }
                Some(&self.entries[i].1)
            },
        }
    }

    /// Whether every method with an entry belongs to `service`.
    pub fn all_for_service(&self, service: &str) -> (r: bool)
        ensures
            r == forall|key: MethodKey| self@.contains_key(key) ==> key.0 == service@,
    {
        proof {
            use_type_invariant(self);
        }
        let wanted = String::from_str(service);
        let mut i: usize = 0;
        while i < self.entries.len()
            invariant
                i <= self.entries.len(),
                distinct(self.entries@),
                wanted@ == service@,
                forall|k: int| 0 <= k < i ==> (#[trigger] self.entries@[k]).0@.0 == service@,
            decreases self.entries.len() - i,
        {
            let entry_service = String::from_str(self.entries[i].0.service());
            if !(entry_service == wanted) {
                proof {
                    lemma_model_entry(self.entries@, i as int);
                    assert(self@.contains_key(self.entries@[i as int].0@));
                }
                return false;
            }
            i += 1;
        }
        assert forall|key: MethodKey| self@.contains_key(key) implies key.0
            == service@ by {
            let k = choose|k: int| entry_for(self.entries@, key, k);
            assert(self.entries@[k].0@.0 == service@);
        }
        true
    }

    /// Collects a list of entries, each a method and its mocks. Where a
    /// method comes twice, its later entry stands in place of the earlier.
    pub fn from_entries(entries: Vec<(GrpcMethod, Vec<Mock>)>) -> (r: Self)
        ensures
            r@ == collected(entries@),
    {
        let mut kept: Vec<(GrpcMethod, Vec<Mock>)> = Vec::new();
        assert(model(kept@) =~= collected(entries@.take(0)));
        for entry in it: entries
            invariant
                it.seq() == entries@,
                distinct(kept@),
                model(kept@) == collected(entries@.take(it.index())),
        {
            let ghost before = kept@;
            proof {
                assert(entries@.take(it.index() + 1).drop_last() == entries@.take(it.index()));
            }
            match position(&kept, &entry.0) {
                Some(i) => {
                    proof {
                        lemma_model_update(before, i as int, entry);
                    }
                    kept.set(i, entry);
                },
                None => {
                    proof {
                        lemma_model_push(before, entry);
                    }
                    kept.push(entry);
                },
            }
        }
        assert(entries@.take(entries@.len() as int) == entries@);
        MockSet { entries: kept }
    }
}

/// Where the first match stands: the mock there is the first match, none
/// before it matches, and where none matches at all the place is the end of
/// the list.
pub proof fn lemma_first_match(mocks: Seq<Mock>, payload: Seq<u8>) -> (at: int)
    ensures
        0 <= at <= mocks.len(),
        forall|j: int| 0 <= j < at ==> (#[trigger] mocks[j]).request.body.payload() != payload,
        at < mocks.len() ==> mocks[at].request.body.payload() == payload && first_match(
            mocks,
            payload,
        ) == Some(mocks[at]),
        at == mocks.len() <==> first_match(mocks, payload) is None,
    decreases mocks.len(),
{
    if mocks.len() == 0 {
        0
    } else if mocks.first().request.body.payload() == payload {
        0
    } else {
        let rest = lemma_first_match(mocks.drop_first(), payload);
        assert forall|j: int| 0 <= j < rest + 1 implies (#[trigger] mocks[j]).request.body.payload()
            != payload by {
            if j > 0 {
                assert(mocks[j] == mocks.drop_first()[j - 1]);
            }
        }
        if rest < mocks.drop_first().len() {
            assert(mocks[rest + 1] == mocks.drop_first()[rest]);
        }
        rest + 1
    }
}

/// Mocks put behind others are asked only where none of the others
/// matches.
pub proof fn lemma_first_match_append(mocks: Seq<Mock>, more: Seq<Mock>, payload: Seq<u8>)
    ensures
        first_match(mocks + more, payload) == if first_match(mocks, payload) is Some {
            first_match(mocks, payload)
        } else {
            first_match(more, payload)
        },
    decreases mocks.len(),
{
    if mocks.len() == 0 {
        assert(mocks + more == more);
    } else {
        assert((mocks + more).first() == mocks.first());
        assert((mocks + more).drop_first() == mocks.drop_first() + more);
        lemma_first_match_append(mocks.drop_first(), more, payload);
    }
}

/// A request finds no mock exactly where its method has no entry or none of
/// the method's mocks has the request's payload.
pub proof fn lemma_lookup_none(mocks: Registry, key: MethodKey, payload: Seq<u8>)
    ensures
        lookup(mocks, key, payload) is None <==> !mocks.contains_key(key) || forall|i: int|
            0 <= i < mocks[key].len() ==> (#[trigger] mocks[key][i]).request.body.payload()
                != payload,
{
    if mocks.contains_key(key) {
        let at = lemma_first_match(mocks[key], payload);
    }
}

/// Registering mocks changes what a request finds only where the request
/// found nothing before: then it finds the first match among the new mocks
/// of its method.
pub proof fn lemma_lookup_extended(
    mocks: Registry,
    key: MethodKey,
    more: Seq<Mock>,
    asked: MethodKey,
    payload: Seq<u8>,
)
    ensures
        lookup(extended(mocks, key, more), asked, payload) == if lookup(mocks, asked, payload)
            is Some || asked != key {
            lookup(mocks, asked, payload)
        } else {
            first_match(more, payload)
        },
{
    if asked == key && mocks.contains_key(key) {
        lemma_first_match_append(mocks[key], more, payload);
    }
}

/// Of two mocks that both match, registered one after the other for the
/// same method, a request never finds the second: it finds what it found
/// before, or else the first of the two.
pub proof fn lemma_first_inserted_wins(
    mocks: Registry,
    key: MethodKey,
    first: Mock,
    second: Mock,
    payload: Seq<u8>,
)
    requires
        first.request.body.payload() == payload,
        second.request.body.payload() == payload,
    ensures
        lookup(extended(extended(mocks, key, seq![first]), key, seq![second]), key, payload)
            == if lookup(mocks, key, payload) is Some {
            lookup(mocks, key, payload)
        } else {
            Some(first)
        },
{
    let once = extended(mocks, key, seq![first]);
    lemma_lookup_extended(mocks, key, seq![first], key, payload);
    lemma_lookup_extended(once, key, seq![second], key, payload);
    assert(seq![first].first() == first);
}

impl MockSet {
    /// Inserts [`Mock`]s from a mock file, behind the mocks that the file's
    /// method already has. Where the file's names or one of its bodies is
    /// refused, the set stays as it was.
    pub fn insert_from_file<
        F: Fn(&String) -> Result<Vec<u8>, JsonError>,
        G: Fn(&String) -> Result<Vec<u8>, JsonError>,
    >(&mut self, file: MockFile, decode_request: &F, decode_response: &G) -> (r: Result<
        (),
        Error,
    >)
        requires
            can_encode_all(file.mocks@, decode_request, decode_response),
        ensures
            match r {
                Ok(_) => {
                    &&& construct(file.service@, file.method@) is Ok
                    &&& exists|mocks: Seq<Mock>| #[trigger]
                        all_encoded(mocks, file.mocks@, decode_request, decode_response)
                            && final(self)@ == extended(
                            old(self)@,
                            (file.service@, file.method@),
                            mocks,
                        )
                },
                Err(e) => {
                    &&& final(self)@ == old(self)@
                    &&& if construct(file.service@, file.method@) is Err {
                        construct(file.service@, file.method@) == Err::<MethodKey, _>(e)
                    } else {
                        e matches Error::JsonError(error) && some_encoding_fails(
                            file.mocks@,
                            decode_request,
                            decode_response,
                            error,
                        )
                    }
                },
            },
    {
        match file.read(decode_request, decode_response) {
            Ok((method, mocks)) => {
                proof {
                    assert(all_encoded(mocks@, file.mocks@, decode_request, decode_response));
                }
                self.insert_all(method, mocks);
                Ok(())
            },
            Err(e) => Err(e),
        }
    }
}

} // verus!
