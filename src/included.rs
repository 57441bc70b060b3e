//! The resolver: an index of the document's raw resources by `(kind, id)`, and a
//! memo that maps each resolved identity to its one slot in the holder.
//!
//! The memo is keyed by identity alone and records the type each identity was
//! resolved as. A second request for the identity as that type gets the same
//! slot; a request as any other type is a `ResourceTypeMismatch`. One resource
//! is therefore never materialised as two different types in one document.

use vstd::prelude::*;
use crate::document::string_member;
use crate::error::Error;
use crate::holder::{Handle, Holder};
use crate::json::{member_of, same_optional_tree, JsonValue};

verus! {

/// One resource object of the document, as the resolver indexes it.
#[derive(Debug)]
pub struct RawResource {
    pub id: String,
    pub kind: String,
    pub attributes: Option<JsonValue>,
    pub relationships: Option<JsonValue>,
}

/// Whether `key` is one of the members of a resource object: `type`, `id`,
/// `attributes` or `relationships`.
pub open spec fn resource_member_name(key: Seq<char>) -> bool {
    key == "type"@ || key == "id"@ || key == "attributes"@ || key == "relationships"@
}

impl RawResource {
    /// The resource object again: its `type`, `id`, `attributes` and `relationships`.
    pub fn to_json(&self) -> (r: JsonValue)
        ensures
            string_member(r, "type"@) == Some(self.kind@),
            string_member(r, "id"@) == Some(self.id@),
            same_optional_tree(r.member("attributes"@), self.attributes),
            same_optional_tree(r.member("relationships"@), self.relationships),
            r is Object,
            forall|i: int| 0 <= i < r->Object_0@.len() ==> resource_member_name(#[trigger] r->Object_0@[i].0@),
    {
        let mut fields: Vec<(String, JsonValue)> = Vec::new();
        fields.push(("type".to_owned(), JsonValue::Str(self.kind.clone())));
        fields.push(("id".to_owned(), JsonValue::Str(self.id.clone())));
        proof {
            reveal_strlit("type");
            reveal_strlit("id");
            assert("type"@.len() == 4 && "id"@.len() == 2);
            assert(fields@.drop_first()[0] == fields@[1]);
            assert(member_of(fields@.drop_first(), "id"@) == Some(fields@[1].1));
        }
        let ghost head = fields@;
        if let Some(a) = &self.attributes {
            fields.push(("attributes".to_owned(), a.deep_clone()));
        }
        if let Some(rel) = &self.relationships {
            fields.push(("relationships".to_owned(), rel.deep_clone()));
        }
        proof {
            reveal_strlit("attributes");
            reveal_strlit("relationships");
            assert("attributes"@.len() == 10 && "relationships"@.len() == 13);
            reveal_with_fuel(member_of, 5);
            let f = fields@;
            assert(f[0] == head[0] && f[1] == head[1]);
            assert(f.drop_first()[0] == f[1]);
            assert(f.drop_first().drop_first() =~= f.subrange(2, f.len() as int));
            if self.attributes is Some {
                assert(f[2].0@ == "attributes"@);
                assert(f.subrange(2, f.len() as int)[0] == f[2]);
            }
            if self.relationships is Some {
                assert(f[f.len() - 1].0@ == "relationships"@);
                assert(f.subrange(2, f.len() as int).drop_first() =~= f.subrange(3, f.len() as int));
            }
            assert(member_of(fields@.drop_first(), "id"@) == Some(fields@[1].1));
            assert(member_of(fields@, "id"@) == Some(fields@[1].1));
            assert forall|i: int| 0 <= i < f.len() implies resource_member_name(#[trigger] f[i].0@) by {
                if i >= 2 && self.attributes is Some && i == 2 {
                    assert(f[2].0@ == "attributes"@);
                }
            }
        }
        JsonValue::Object(fields)
    }
}

/// A resolved identity: the type it was resolved as, and its slot.
#[derive(Debug)]
pub struct MemoEntry {
    pub kind: String,
    pub id: String,
    pub resource_type: String,
    pub handle: Handle,
}

/// How a resource type is read from its resource object. `R` is the type of the
/// holder's slots, which has a variant for every resource type of the document.
pub trait JsonApiDeserialize<R>: Sized {
    /// The name under which a resolved resource of this type is remembered.
    const RESOURCE_TYPE: &'static str;

    /// Reads a resource object, resolving its references through `included_map`.
    /// The map can only be changed through its own methods, all of which keep it
    /// well formed and only let it grow. An implementation must not put another
    /// map in its place through the `&mut` argument: the resolver relies on the
    /// map having only grown, and would then index past its holder's end.
    fn from_value(value: &JsonValue, included_map: &mut IncludedMap<R>) -> (r: Result<Self, Error>)
        requires
            old(included_map).wf(),
        ensures
            final(included_map).wf(),
            final(included_map).extends(*old(included_map)),
    ;

    /// A placeholder that stands in the slot while the real value is built.
    fn stub() -> Self;

    /// Wraps the value as a slot of the holder.
    fn into_slot(self) -> R;
}

/// The last resource of `raw` with identity `(kind, id)`: a later duplicate wins.
pub open spec fn raw_lookup(raw: Seq<RawResource>, kind: Seq<char>, id: Seq<char>) -> Option<RawResource>
    decreases raw.len(),
{
    if raw.len() == 0 {
        None
    } else if raw.last().kind@ == kind && raw.last().id@ == id {
        Some(raw.last())
    } else {
        raw_lookup(raw.drop_last(), kind, id)
    }
}

/// The first entry of `memo` for the identity `(kind, id)`.
pub open spec fn memo_lookup(memo: Seq<MemoEntry>, kind: Seq<char>, id: Seq<char>) -> Option<MemoEntry>
    decreases memo.len(),
{
    if memo.len() == 0 {
        None
    } else if memo[0].kind@ == kind && memo[0].id@ == id {
        Some(memo[0])
    } else {
        memo_lookup(memo.drop_first(), kind, id)
    }
}

/// Whether the memo remembers the identity `(kind, id)` in the slot `h`.
pub open spec fn resolved_as(memo: Seq<MemoEntry>, kind: Seq<char>, id: Seq<char>, h: Handle) -> bool {
    memo_lookup(memo, kind, id) matches Some(e) && e.handle == h
}

/// An entry found in a memo is still what is found once the memo has grown at its end.
pub proof fn lemma_memo_lookup_prefix(memo: Seq<MemoEntry>, more: Seq<MemoEntry>, kind: Seq<char>, id: Seq<char>)
    requires
        memo.is_prefix_of(more),
        memo_lookup(memo, kind, id) is Some,
    ensures
        memo_lookup(more, kind, id) == memo_lookup(memo, kind, id),
    decreases memo.len(),
{
    if memo[0].kind@ == kind && memo[0].id@ == id {
        assert(more[0] == memo[0]);
    } else {
        assert(more[0] == memo[0]);
        lemma_memo_lookup_prefix(memo.drop_first(), more.drop_first(), kind, id);
    }
}

/// An entry found in a memo is one of its elements.
proof fn lemma_memo_lookup_in(memo: Seq<MemoEntry>, kind: Seq<char>, id: Seq<char>)
    ensures
        memo_lookup(memo, kind, id) matches Some(e) ==> exists|i: int| 0 <= i < memo.len() && memo[i] == e && e.kind@ == kind && e.id@ == id,
    decreases memo.len(),
{
    if memo.len() > 0 && !(memo[0].kind@ == kind && memo[0].id@ == id) {
        lemma_memo_lookup_in(memo.drop_first(), kind, id);
        if memo_lookup(memo, kind, id) is Some {
            let i = choose|i: int| 0 <= i < memo.drop_first().len() && memo.drop_first()[i] == memo_lookup(memo, kind, id)->0;
            assert(memo[i + 1] == memo.drop_first()[i]);
        }
    }
}

/// Appending an entry for an identity that the memo lacks makes it the one found.
proof fn lemma_memo_lookup_push(memo: Seq<MemoEntry>, e: MemoEntry)
    requires
        memo_lookup(memo, e.kind@, e.id@) is None,
    ensures
        memo_lookup(memo.push(e), e.kind@, e.id@) == Some(e),
    decreases memo.len(),
{
    if memo.len() == 0 {
        assert(memo.push(e)[0] == e);
    } else {
        assert(memo.push(e).drop_first() =~= memo.drop_first().push(e));
        lemma_memo_lookup_push(memo.drop_first(), e);
    }
}

/// Growth of a resolver is transitive: a state that grew from one that grew
/// from `a` grew from `a`.
pub proof fn lemma_extends_transitive<R>(a: IncludedMap<R>, b: IncludedMap<R>, c: IncludedMap<R>)
    requires
        b.extends(a),
        c.extends(b),
    ensures
        c.extends(a),
{
    assert(a.memo_spec() =~= c.memo_spec().subrange(0, a.memo_spec().len() as int)) by {
        assert forall|i: int| 0 <= i < a.memo_spec().len() implies a.memo_spec()[i] == c.memo_spec()[i] by {
            assert(a.memo_spec()[i] == b.memo_spec().subrange(0, a.memo_spec().len() as int)[i]);
            assert(b.memo_spec()[i] == c.memo_spec().subrange(0, b.memo_spec().len() as int)[i]);
        }
    }
}

/// Within one document an identity resolves to one slot: once it has been
/// resolved to `first`, any later resolution of it, from any state the
/// resolver grew into, yields `first` again (the same slot, not an equal copy).
pub proof fn lemma_same_identity_same_slot<R>(
    earlier: IncludedMap<R>,
    later: IncludedMap<R>,
    kind: Seq<char>,
    id: Seq<char>,
    first: Handle,
    second: Handle,
)
    requires
        resolved_as(earlier.memo_spec(), kind, id, first),
        later.extends(earlier),
        resolved_as(later.memo_spec(), kind, id, second),
    ensures
        first == second,
{
    lemma_memo_lookup_prefix(earlier.memo_spec(), later.memo_spec(), kind, id);
}

/// A cycle closes on the stub: once `get` has remembered `(kind, id)` as the
/// type named `tag` (it does so before the descriptor runs), that entry is
/// still what the memo finds in every state the resolver grows into while the
/// resource is being built. So a re-entrant request for `(kind, id)` as the
/// same type returns the stub's slot and changes nothing (see `get`), instead
/// of reading the resource again.
pub proof fn lemma_cycle_closes_on_stub<R>(
    stubbed: IncludedMap<R>,
    later: IncludedMap<R>,
    kind: Seq<char>,
    id: Seq<char>,
    tag: Seq<char>,
)
    requires
        memo_lookup(stubbed.memo_spec(), kind, id) matches Some(e) && e.resource_type@ == tag,
        later.extends(stubbed),
    ensures
        memo_lookup(later.memo_spec(), kind, id) == memo_lookup(stubbed.memo_spec(), kind, id),
        memo_lookup(later.memo_spec(), kind, id)->0.resource_type@ == tag,
{
    lemma_memo_lookup_prefix(stubbed.memo_spec(), later.memo_spec(), kind, id);
}

/// The raw resources of a document and what has been resolved from them so far.
pub struct IncludedMap<R> {
    holder: Holder<R>,
    raw: Vec<RawResource>,
    memo: Vec<MemoEntry>,
}

impl<R> IncludedMap<R> {
    pub closed spec fn raw_spec(&self) -> Seq<RawResource> {
        self.raw@
    }

    pub closed spec fn memo_spec(&self) -> Seq<MemoEntry> {
        self.memo@
    }

    pub closed spec fn slots(&self) -> Seq<R> {
        self.holder@
    }

    /// Every remembered handle names a slot of the holder, and every
    /// remembered identity is one of the raw resources.
    pub open spec fn wf(&self) -> bool {
        &&& forall|i: int| 0 <= i < self.memo_spec().len() ==> (#[trigger] self.memo_spec()[i]).handle.index < self.slots().len()
        &&& forall|i: int| 0 <= i < self.memo_spec().len() ==> raw_lookup(self.raw_spec(), (#[trigger] self.memo_spec()[i]).kind@, self.memo_spec()[i].id@) is Some
    }

    /// `self` is what `prev` became: the same raw resources, every earlier
    /// memo entry kept in place, no slot taken away.
    pub open spec fn extends(&self, prev: Self) -> bool {
        &&& self.raw_spec() == prev.raw_spec()
        &&& prev.memo_spec().is_prefix_of(self.memo_spec())
        &&& prev.slots().len() <= self.slots().len()
    }

    /// An index over `raw` with nothing resolved yet, storing into `holder`.
    pub fn from_includes(raw: Vec<RawResource>, holder: Holder<R>) -> (m: IncludedMap<R>)
        ensures
            m.wf(),
            m.raw_spec() == raw@,
            m.memo_spec() == Seq::<MemoEntry>::empty(),
            m.slots() == holder@,
    {
        IncludedMap { holder, raw, memo: Vec::new() }
    }

    /// An index with no raw resources, storing into `holder`.
    pub fn empty(holder: Holder<R>) -> (m: IncludedMap<R>)
        ensures
            m.wf(),
            m.raw_spec() == Seq::<RawResource>::empty(),
            m.memo_spec() == Seq::<MemoEntry>::empty(),
            m.slots() == holder@,
    {
        IncludedMap::from_includes(Vec::new(), holder)
    }

    /// Gives the holder back, with every slot filled so far.
    pub fn into_holder(self) -> (h: Holder<R>)
        ensures
            h@ == self.slots(),
    {
        self.holder
    }

    /// Stores `value` in a new slot of the holder.
    pub fn allocate(&mut self, value: R) -> (h: Handle)
        requires
            old(self).wf(),
        ensures
            final(self).wf(),
            final(self).extends(*old(self)),
            final(self).memo_spec() == old(self).memo_spec(),
            final(self).slots() == old(self).slots().push(value),
            h.index == old(self).slots().len(),
    {
        let h = self.holder.allocate(value);
        assert forall|i: int| 0 <= i < self.memo_spec().len() implies (
        #[trigger] self.memo_spec()[i]).handle.index < self.slots().len() by {
            assert(old(self).memo_spec()[i] == self.memo_spec()[i]);
        }
        h
    }

    /// The resource `(kind, id)` as a `T`, materialised once per document.
    ///
    /// An identity already resolved yields its slot again, also while that slot
    /// still holds a stub because the resource is being built further up the
    /// stack; that is how a cycle closes. Asked for as another type than the
    /// one it was resolved as, it fails with `ResourceTypeMismatch`. Otherwise
    /// the raw resource is looked up (`MissingResource` if there is none), a
    /// stub is stored and remembered before `T::from_value` runs, and the slot
    /// is then filled in place with what it returns.
    pub fn get<T: JsonApiDeserialize<R>>(&mut self, kind: &str, id: &str) -> (r: Result<Handle, Error>)
        requires
            old(self).wf(),
        ensures
            final(self).wf(),
            final(self).extends(*old(self)),
            r matches Ok(h) ==> resolved_as(final(self).memo_spec(), kind@, id@, h),
            r matches Ok(h) ==> memo_lookup(final(self).memo_spec(), kind@, id@)->0.resource_type@ == T::RESOURCE_TYPE@,
            memo_lookup(old(self).memo_spec(), kind@, id@) matches Some(e) ==> {
                &&& *final(self) == *old(self)
                &&& e.resource_type@ == T::RESOURCE_TYPE@ ==> r == Ok::<Handle, Error>(e.handle)
                &&& e.resource_type@ != T::RESOURCE_TYPE@ ==> (r matches Err(Error::ResourceTypeMismatch { expected, found })
                    && expected@ == T::RESOURCE_TYPE@ && found@ == e.resource_type@)
            },
            raw_lookup(old(self).raw_spec(), kind@, id@) is None ==> {
                &&& *final(self) == *old(self)
                &&& r matches Err(Error::MissingResource { kind: k, id: i }) && k@ == kind@ && i@ == id@
            },
            memo_lookup(old(self).memo_spec(), kind@, id@) is None && raw_lookup(old(self).raw_spec(), kind@, id@)
                is Some ==> {
                &&& final(self).memo_spec().len() > old(self).memo_spec().len()
                &&& final(self).memo_spec()[old(self).memo_spec().len() as int].handle.index == old(self).slots().len()
                &&& memo_lookup(final(self).memo_spec(), kind@, id@) == Some(final(self).memo_spec()[old(self).memo_spec().len() as int])
                &&& r matches Ok(h) ==> h.index == old(self).slots().len()
            },
    {
        let kind = kind.to_owned();
        let id = id.to_owned();
        let name: String = T::RESOURCE_TYPE.to_owned();
        proof {
            if raw_lookup(self.raw@, kind@, id@) is None {
                lemma_memo_lookup_in(self.memo@, kind@, id@);
            }
        }
        if let Some(done) = self.remembered(&kind, &id, name.as_str()) {
            return done;
        }
        let j = match self.find_raw(&kind, &id) {
            Some(j) => j,
            None => {
                return Err(Error::MissingResource { kind, id });
            },
        };
        let value = self.raw[j].to_json();
        let ghost before = *self;
        let h = self.allocate(T::stub().into_slot());
        let entry = MemoEntry { kind, id, resource_type: name, handle: h };
        let ghost e = entry;
        proof {
            lemma_memo_lookup_push(self.memo@, e);
        }
        self.memo.push(entry);
        assert(self.wf()) by {
            assert forall|i: int| 0 <= i < self.memo_spec().len() implies (
            #[trigger] self.memo_spec()[i]).handle.index < self.slots().len() && raw_lookup(self.raw_spec(), self.memo_spec()[i].kind@, self.memo_spec()[i].id@) is Some by {
                if i < before.memo_spec().len() {
                    assert(self.memo_spec()[i] == before.memo_spec()[i]);
                }
            }
        }
        let ghost mid = *self;
        assert(before.memo_spec().is_prefix_of(mid.memo_spec()));
        let result = T::from_value(&value, self);
        proof {
            lemma_memo_lookup_prefix(mid.memo_spec(), self.memo_spec(), e.kind@, e.id@);
            let n = before.memo_spec().len() as int;
            assert(mid.memo_spec()[n] == e);
            assert(self.memo_spec().subrange(0, mid.memo_spec().len() as int)[n] == mid.memo_spec()[n]);
            assert(self.memo_spec()[n] == e);
        }
        match result {
            Ok(t) => {
                self.holder.fill(h, t.into_slot());
                Ok(h)
            },
            Err(x) => Err(x),
        }
    }

    /// What the memo answers when `(kind, id)` is asked for as the type named
    /// `resource_type`: `None` if the identity has not been resolved, its slot
    /// if it was resolved as that type, else `ResourceTypeMismatch`.
    pub fn remembered(&self, kind: &String, id: &String, resource_type: &str) -> (r: Option<Result<Handle, Error>>)
        ensures
            memo_lookup(self.memo_spec(), kind@, id@) is None ==> r is None,
            memo_lookup(self.memo_spec(), kind@, id@) matches Some(e) ==> {
                &&& e.resource_type@ == resource_type@ ==> r == Some(Ok::<Handle, Error>(e.handle))
                &&& e.resource_type@ != resource_type@ ==> (r matches Some(Err(Error::ResourceTypeMismatch { expected: x, found: y }))
                    && x@ == resource_type@ && y@ == e.resource_type@)
            },
    {
        match self.find_memo(kind, id) {
            None => None,
            Some(j) => {
                let expected = resource_type.to_owned();
                if self.memo[j].resource_type == expected {
                    Some(Ok(self.memo[j].handle))
                } else {
                    Some(Err(Error::ResourceTypeMismatch { expected, found: self.memo[j].resource_type.clone() }))
                }
            },
        }
    }

    /// Position of the memo entry for `(kind, id)`, if there is one.
    fn find_memo(&self, kind: &String, id: &String) -> (r: Option<usize>)
        ensures
            r matches Some(j) ==> j < self.memo_spec().len() && memo_lookup(self.memo_spec(), kind@, id@)
                == Some(self.memo_spec()[j as int]),
            r is None ==> memo_lookup(self.memo_spec(), kind@, id@) is None,
    {
        let mut j: usize = 0;
        assert(self.memo@.skip(0) =~= self.memo@);
        while j < self.memo.len()
            invariant
                j <= self.memo@.len(),
                memo_lookup(self.memo@, kind@, id@) == memo_lookup(self.memo@.skip(j as int), kind@, id@),
            decreases self.memo@.len() - j,
        {
            assert(self.memo@.skip(j as int).drop_first() =~= self.memo@.skip(j + 1));
            assert(self.memo@.skip(j as int)[0] == self.memo@[j as int]);
            if self.memo[j].kind == *kind && self.memo[j].id == *id {
                return Some(j);
            }
            j += 1;
        }
        None
    }

    /// Position of the raw resource that `(kind, id)` names: the last one listed.
    fn find_raw(&self, kind: &String, id: &String) -> (r: Option<usize>)
        ensures
            r matches Some(j) ==> j < self.raw_spec().len() && raw_lookup(self.raw_spec(), kind@, id@)
                == Some(self.raw_spec()[j as int]),
            r is None ==> raw_lookup(self.raw_spec(), kind@, id@) is None,
    {
        let mut j: usize = self.raw.len();
        assert(self.raw@.take(j as int) =~= self.raw@);
        while j > 0
            invariant
                j <= self.raw@.len(),
                raw_lookup(self.raw@, kind@, id@) == raw_lookup(self.raw@.take(j as int), kind@, id@),
            decreases j,
        {
            assert(self.raw@.take(j as int).drop_last() =~= self.raw@.take(j - 1));
            assert(self.raw@.take(j as int).last() == self.raw@[j - 1]);
            if self.raw[j - 1].kind == *kind && self.raw[j - 1].id == *id {
                return Some(j - 1);
            }
            j -= 1;
        }
        None
    }
}

/// Reads a value that may be null: null gives `None`, anything else what
/// `T::from_value` makes of it.
pub fn nullable_from_value<R, T: JsonApiDeserialize<R>>(value: &JsonValue, included_map: &mut IncludedMap<R>) -> (r: Result<Option<T>, Error>)
    requires
        old(included_map).wf(),
    ensures
        final(included_map).wf(),
        final(included_map).extends(*old(included_map)),
        value is Null ==> (r matches Ok(None) && *final(included_map) == *old(included_map)),
        !(value is Null) ==> !(r matches Ok(None)),
{
    if value.is_null() {
        return Ok(None);
    }
    match T::from_value(value, included_map) {
        Ok(t) => Ok(Some(t)),
        Err(e) => Err(e),
    }
}

/// Reads an array element by element with `T::from_value`, keeping its order;
/// the first element that fails ends the read.
pub fn list_from_value<R, T: JsonApiDeserialize<R>>(value: &JsonValue, included_map: &mut IncludedMap<R>) -> (r: Result<Vec<T>, Error>)
    requires
        old(included_map).wf(),
    ensures
        final(included_map).wf(),
        final(included_map).extends(*old(included_map)),
        !(value is Array) ==> (r matches Err(Error::InvalidType(m)) && m@ == "Expected an array"@
            && *final(included_map) == *old(included_map)),
        (value matches JsonValue::Array(a) && a@.len() == 0) ==> (r matches Ok(items) && items@.len() == 0
            && *final(included_map) == *old(included_map)),
        r matches Ok(items) ==> (value matches JsonValue::Array(a) && items@.len() == a@.len()),
{
    let items = match value.as_array() {
        Some(a) => a,
        None => {
            return Err(Error::InvalidType("Expected an array".to_owned()));
        },
    };
    let mut out: Vec<T> = Vec::new();
    let mut i: usize = 0;
    while i < items.len()
        invariant
            i <= items@.len(),
            out@.len() == i,
            *value == JsonValue::Array(*items),
            included_map.wf(),
            included_map.extends(*old(included_map)),
            items@.len() == 0 ==> *included_map == *old(included_map),
        decreases items@.len() - i,
    {
        let ghost before = *included_map;
        let t = T::from_value(&items[i], included_map)?;
        proof {
            lemma_extends_transitive(*old(included_map), before, *included_map);
        }
        out.push(t);
        i += 1;
    }
    Ok(out)
}

} // verus!
