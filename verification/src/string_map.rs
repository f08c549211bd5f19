//! A small mapping from strings to strings, used for headers and captured
//! path parameters. Entries are kept in insertion order; inserting an
//! existing key replaces its value in place.
use vstd::prelude::*;
use crate::text_parse::str_eq;

verus! {

/// A mapping from strings to strings: entries in insertion order, looked up
/// first-match-first, with insertion replacing an existing key's value in
/// place.
pub struct StringMap {
    pub entries: Vec<(String, String)>,
}

impl View for StringMap {
    type V = Seq<(Seq<char>, Seq<char>)>;

    open spec fn view(&self) -> Seq<(Seq<char>, Seq<char>)> {
        Seq::new(self.entries@.len(), |i: int| (self.entries@[i].0@, self.entries@[i].1@))
    }
}

/// The value bound to `key`: the first entry with that name, if any.
pub open spec fn spec_str_lookup(entries: Seq<(Seq<char>, Seq<char>)>, key: Seq<char>) -> Option<
    Seq<char>,
>
    decreases entries.len(),
{
    if entries.len() == 0 {
        None
    } else if entries[0].0 == key {
        Some(entries[0].1)
    } else {
        spec_str_lookup(entries.drop_first(), key)
    }
}

/// The entries after binding `key` to `value`: the first entry with that
/// name is replaced in place, or a new entry is appended.
pub open spec fn spec_str_insert(
    entries: Seq<(Seq<char>, Seq<char>)>,
    key: Seq<char>,
    value: Seq<char>,
) -> Seq<(Seq<char>, Seq<char>)>
    decreases entries.len(),
{
    if entries.len() == 0 {
        seq![(key, value)]
    } else if entries[0].0 == key {
        seq![(key, value)] + entries.drop_first()
    } else {
        seq![entries[0]] + spec_str_insert(entries.drop_first(), key, value)
    }
}

/// After an insert, the inserted key is bound to the new value.
pub proof fn lemma_str_insert_lookup_same(
    entries: Seq<(Seq<char>, Seq<char>)>,
    key: Seq<char>,
    value: Seq<char>,
)
    ensures
        spec_str_lookup(spec_str_insert(entries, key, value), key) == Some(value),
    decreases entries.len(),
{
    if entries.len() == 0 {
    } else if entries[0].0 == key {
        assert((seq![(key, value)] + entries.drop_first())[0] == (key, value));
    } else {
        lemma_str_insert_lookup_same(entries.drop_first(), key, value);
        let spliced = seq![entries[0]] + spec_str_insert(entries.drop_first(), key, value);
        assert(spliced[0] == entries[0]);
        assert(spliced.drop_first() =~= spec_str_insert(entries.drop_first(), key, value));
    }
}

/// An insert leaves every other key's binding unchanged.
pub proof fn lemma_str_insert_lookup_other(
    entries: Seq<(Seq<char>, Seq<char>)>,
    key: Seq<char>,
    value: Seq<char>,
    other: Seq<char>,
)
    requires
        other != key,
    ensures
        spec_str_lookup(spec_str_insert(entries, key, value), other) == spec_str_lookup(
            entries,
            other,
        ),
    decreases entries.len(),
{
    if entries.len() == 0 {
        let s = seq![(key, value)];
        assert(s.drop_first() =~= Seq::<(Seq<char>, Seq<char>)>::empty());
        assert(spec_str_lookup(s.drop_first(), other) is None);
    } else if entries[0].0 == key {
        let spliced = seq![(key, value)] + entries.drop_first();
        assert(spliced[0] == (key, value));
        assert(spliced.drop_first() =~= entries.drop_first());
    } else {
        lemma_str_insert_lookup_other(entries.drop_first(), key, value, other);
        let spliced = seq![entries[0]] + spec_str_insert(entries.drop_first(), key, value);
        assert(spliced[0] == entries[0]);
        assert(spliced.drop_first() =~= spec_str_insert(entries.drop_first(), key, value));
    }
}

/// When the key is absent, an insert appends the new entry.
proof fn lemma_str_insert_at_end(
    entries: Seq<(Seq<char>, Seq<char>)>,
    key: Seq<char>,
    value: Seq<char>,
)
    requires
        forall|j: int| 0 <= j < entries.len() ==> (#[trigger] entries[j]).0 != key,
    ensures
        spec_str_insert(entries, key, value) == entries.push((key, value)),
    decreases entries.len(),
{
    if entries.len() == 0 {
        assert(spec_str_insert(entries, key, value) =~= entries.push((key, value)));
    } else {
        assert(forall|j: int| 0 <= j < entries.drop_first().len() ==> (#[trigger] entries.drop_first()[j]).0
            != key);
        lemma_str_insert_at_end(entries.drop_first(), key, value);
        assert(seq![entries[0]] + entries.drop_first().push((key, value)) =~= entries.push(
            (key, value),
        ));
    }
}

/// When the key first occurs at position `i`, an insert replaces that entry
/// in place.
proof fn lemma_str_insert_at_found(
    entries: Seq<(Seq<char>, Seq<char>)>,
    key: Seq<char>,
    value: Seq<char>,
    i: int,
)
    requires
        0 <= i < entries.len(),
        forall|j: int| 0 <= j < i ==> (#[trigger] entries[j]).0 != key,
        entries[i].0 == key,
    ensures
        spec_str_insert(entries, key, value) == entries.update(i, (key, value)),
    decreases entries.len(),
{
    if i == 0 {
        assert(seq![(key, value)] + entries.drop_first() =~= entries.update(0, (key, value)));
    } else {
        assert(entries.drop_first()[i - 1].0 == key);
        lemma_str_insert_at_found(entries.drop_first(), key, value, i - 1);
        assert(seq![entries[0]] + entries.drop_first().update(i - 1, (key, value)) =~= entries.update(
            i,
            (key, value),
        ));
    }
}

impl StringMap {
    /// An empty mapping.
    pub fn new() -> (r: Self)
        ensures
            r@ == Seq::<(Seq<char>, Seq<char>)>::empty(),
    {
        let r = StringMap { entries: Vec::new() };
        proof {
            assert(r@ =~= Seq::<(Seq<char>, Seq<char>)>::empty());
        }
        r
    }

    /// The value bound to `key`, if any.
    pub fn get(&self, key: &str) -> (r: Option<&String>)
        ensures
            match spec_str_lookup(self@, key@) {
                Some(v) => r is Some && r->0@ == v,
                None => r is None,
            },
    {
        proof {
            assert(self@.subrange(0, self@.len() as int) =~= self@);
        }
        let mut i: usize = 0;
        while i < self.entries.len()
            invariant
                0 <= i <= self.entries.len(),
                self@.len() == self.entries@.len(),
                spec_str_lookup(self@, key@) == spec_str_lookup(
                    self@.subrange(i as int, self@.len() as int),
                    key@,
                ),
            decreases self.entries.len() - i,
        {
            proof {
                let rest = self@.subrange(i as int, self@.len() as int);
                assert(rest[0] == self@[i as int]);
                assert(rest.drop_first() =~= self@.subrange(i + 1, self@.len() as int));
            }
            if str_eq(self.entries[i].0.as_str(), key) {
                return Some(&self.entries[i].1);
            }
            i = i + 1;
        }
        None
    }

    /// Binds `key` to `value`, replacing the first entry with that name in
    /// place or appending a new entry.
    #[verifier::loop_isolation(false)]
    pub fn insert(&mut self, key: String, value: String)
        ensures
            final(self)@ == spec_str_insert(old(self)@, key@, value@),
    {
        let ghost key_model = key@;
        let ghost value_model = value@;
        let mut i: usize = 0;
        while i < self.entries.len()
            invariant
                0 <= i <= self.entries.len(),
                self@.len() == self.entries@.len(),
                forall|j: int| 0 <= j < self@.len() ==> #[trigger] self@[j] == (
                    self.entries@[j].0@,
                    self.entries@[j].1@,
                ),
                forall|j: int| 0 <= j < i ==> #[trigger] self.entries@[j].0@ != key@,
                self == old(self),
            decreases self.entries.len() - i,
        {
            if str_eq(self.entries[i].0.as_str(), key.as_str()) {
                proof {
                    assert(forall|j: int| 0 <= j < i ==> (#[trigger] old(self)@[j]).0 != key_model);
                    assert(old(self)@[i as int].0 == key_model);
                }
                let entry = (key, value);
                let ghost pair = entry;
                let ghost before = self.entries@;
                let _ = self.entries.remove(i);
                self.entries.insert(i, entry);
                proof {
                    lemma_str_insert_at_found(old(self)@, key_model, value_model, i as int);
                    assert(self.entries@ == before.remove(i as int).insert(i as int, pair));
                    assert(self.entries@ =~= before.update(i as int, pair));
                    assert(self@ =~= old(self)@.update(i as int, (key_model, value_model)));
                }
                return ;
            }
            i = i + 1;
        }
        self.entries.push((key, value));
        proof {
            lemma_str_insert_at_end(old(self)@, key_model, value_model);
            assert(self@ =~= old(self)@.push((key_model, value_model)));
        }
    }

    /// The number of bindings.
    pub fn len(&self) -> (r: usize)
        ensures
            r == self@.len(),
    {
        self.entries.len()
    }
}

/// The entries after binding each pair in turn, left to right.
pub open spec fn spec_str_insert_all(
    entries: Seq<(Seq<char>, Seq<char>)>,
    pairs: Seq<(Seq<char>, Seq<char>)>,
) -> Seq<(Seq<char>, Seq<char>)>
    decreases pairs.len(),
{
    if pairs.len() == 0 {
        entries
    } else {
        spec_str_insert_all(spec_str_insert(entries, pairs[0].0, pairs[0].1), pairs.drop_first())
    }
}

impl StringMap {
    /// A copy of this mapping with every binding of `other` applied in
    /// order, so `other`'s values win on shared keys.
    #[verifier::loop_isolation(false)]
    pub fn merge(&self, other: &StringMap) -> (r: StringMap)
        ensures
            r@ == spec_str_insert_all(self@, other@),
    {
        let ghost pairs = other@;
        let mut out = self.clone();
        proof {
            assert(pairs.subrange(0, pairs.len() as int) =~= pairs);
        }
        let mut i: usize = 0;
        while i < other.entries.len()
            invariant
                0 <= i <= other.entries@.len(),
                pairs.len() == other.entries@.len(),
                forall|j: int| 0 <= j < pairs.len() ==> #[trigger] pairs[j] == (
                    other.entries@[j].0@,
                    other.entries@[j].1@,
                ),
                spec_str_insert_all(self@, pairs) == spec_str_insert_all(
                    out@,
                    pairs.subrange(i as int, pairs.len() as int),
                ),
            decreases other.entries@.len() - i,
        {
            proof {
                let rest = pairs.subrange(i as int, pairs.len() as int);
                assert(rest[0] == pairs[i as int]);
                assert(rest.drop_first() =~= pairs.subrange(i + 1, pairs.len() as int));
            }
            let key = other.entries[i].0.clone();
            let value = other.entries[i].1.clone();
            out.insert(key, value);
            i = i + 1;
        }
        proof {
            assert(pairs.subrange(i as int, pairs.len() as int).len() == 0);
        }
        out
    }
}

impl Clone for StringMap {
    fn clone(&self) -> (r: Self)
        ensures
            r@ == self@,
    {
        let mut out: Vec<(String, String)> = Vec::new();
        let mut i: usize = 0;
        while i < self.entries.len()
            invariant
                0 <= i <= self.entries.len(),
                out@.len() == i,
                forall|j: int| 0 <= j < i ==> #[trigger] out@[j].0@ == self.entries@[j].0@
                    && out@[j].1@ == self.entries@[j].1@,
            decreases self.entries.len() - i,
        {
            out.push((self.entries[i].0.clone(), self.entries[i].1.clone()));
            i = i + 1;
        }
        let r = StringMap { entries: out };
        proof {
            assert(r@ =~= self@);
        }
        r
    }
}

} // verus!
