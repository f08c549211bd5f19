//! The recursive value tree handed to templates, and the name-to-value
//! mapping used as a rendering scope.
use vstd::prelude::*;
use vstd::string::StringExecFns;
use crate::numbers::spec_int_string;
use crate::numbers::i64_to_string;
use crate::text_parse::str_eq;

verus! {

broadcast use vstd::std_specs::vec::group_vec_axioms;

/// A scalar template value.
pub enum Primitive {
    Str(String),
    Num(i64),
    Bool(bool),
}

/// The mathematical value of a [`Primitive`].
pub enum PrimModel {
    Str(Seq<char>),
    Num(int),
    Bool(bool),
}

/// A template value: a scalar, an ordered sequence, a mapping from names to
/// values, or pre-rendered text destined for a named slot of an included
/// component. A value is never mutated once constructed; rendering only
/// clones and extends copies.
pub enum ContextTree {
    Leaf(Primitive),
    Array(Vec<ContextTree>),
    Branch(ContextMap),
    Slot(Primitive),
}

/// The mathematical value of a [`ContextTree`]: a branch is the sequence of
/// its entries in insertion order, looked up first-match-first.
pub enum TreeModel {
    Leaf(PrimModel),
    Array(Seq<TreeModel>),
    Branch(Seq<(Seq<char>, TreeModel)>),
    Slot(PrimModel),
}

/// A mapping from names to template values: the root scope passed into
/// rendering. Entries are kept in insertion order; inserting an existing
/// name replaces its value in place.
pub struct ContextMap {
    pub entries: Vec<(String, ContextTree)>,
}

impl View for Primitive {
    type V = PrimModel;

    open spec fn view(&self) -> PrimModel {
        match self {
            Primitive::Str(s) => PrimModel::Str(s@),
            Primitive::Num(n) => PrimModel::Num(*n as int),
            Primitive::Bool(b) => PrimModel::Bool(*b),
        }
    }
}

/// The mathematical value of a [`ContextTree`].
pub open spec fn tree_model(t: ContextTree) -> TreeModel
    decreases t,
{
    match t {
        ContextTree::Leaf(p) => TreeModel::Leaf(p@),
        ContextTree::Array(v) => TreeModel::Array(array_models(v@)),
        ContextTree::Branch(m) => TreeModel::Branch(entry_models(m.entries@)),
        ContextTree::Slot(p) => TreeModel::Slot(p@),
    }
}

/// The mathematical values of a sequence of trees, in order.
pub open spec fn array_models(s: Seq<ContextTree>) -> Seq<TreeModel>
    decreases s,
{
    if s.len() == 0 {
        Seq::empty()
    } else {
        seq![tree_model(s[0])] + array_models(s.drop_first())
    }
}

/// The mathematical values of a sequence of named entries, in order.
pub open spec fn entry_models(s: Seq<(String, ContextTree)>) -> Seq<(Seq<char>, TreeModel)>
    decreases s,
{
    if s.len() == 0 {
        Seq::empty()
    } else {
        seq![(s[0].0@, tree_model(s[0].1))] + entry_models(s.drop_first())
    }
}

/// The values of a sequence of trees are its trees' values, index by index.
pub broadcast proof fn lemma_array_models_index(s: Seq<ContextTree>)
    ensures
        (#[trigger] array_models(s)).len() == s.len(),
        forall|i: int| 0 <= i < s.len() ==> array_models(s)[i] == tree_model(s[i]),
    decreases s.len(),
{
    if s.len() > 0 {
        lemma_array_models_index(s.drop_first());
        assert forall|i: int| 0 <= i < s.len() implies array_models(s)[i] == tree_model(s[i]) by {
            if i > 0 {
                assert(array_models(s)[i] == array_models(s.drop_first())[i - 1]);
                assert(s.drop_first()[i - 1] == s[i]);
            }
        }
    }
}

/// The values of a sequence of entries are its entries' values, index by
/// index.
pub broadcast proof fn lemma_entry_models_index(s: Seq<(String, ContextTree)>)
    ensures
        (#[trigger] entry_models(s)).len() == s.len(),
        forall|i: int| 0 <= i < s.len() ==> entry_models(s)[i] == (s[i].0@, tree_model(s[i].1)),
    decreases s.len(),
{
    if s.len() > 0 {
        lemma_entry_models_index(s.drop_first());
        assert forall|i: int| 0 <= i < s.len() implies entry_models(s)[i] == (
            s[i].0@,
            tree_model(s[i].1),
        ) by {
            if i > 0 {
                assert(entry_models(s)[i] == entry_models(s.drop_first())[i - 1]);
                assert(s.drop_first()[i - 1] == s[i]);
            }
        }
    }
}

pub broadcast group group_context_model_axioms {
    lemma_array_models_index,
    lemma_entry_models_index,
}

impl View for ContextTree {
    type V = TreeModel;

    open spec fn view(&self) -> TreeModel {
        tree_model(*self)
    }
}

impl View for ContextMap {
    type V = Seq<(Seq<char>, TreeModel)>;

    open spec fn view(&self) -> Seq<(Seq<char>, TreeModel)> {
        entry_models(self.entries@)
    }
}

/// The value bound to `key`: the first entry with that name, if any.
pub open spec fn spec_lookup(entries: Seq<(Seq<char>, TreeModel)>, key: Seq<char>) -> Option<
    TreeModel,
>
    decreases entries.len(),
{
    if entries.len() == 0 {
        None
    } else if entries[0].0 == key {
        Some(entries[0].1)
    } else {
        spec_lookup(entries.drop_first(), key)
    }
}

/// The entries after binding `key` to `value`: the first entry with that
/// name is replaced in place, or a new entry is appended.
pub open spec fn spec_insert(
    entries: Seq<(Seq<char>, TreeModel)>,
    key: Seq<char>,
    value: TreeModel,
) -> Seq<(Seq<char>, TreeModel)>
    decreases entries.len(),
{
    if entries.len() == 0 {
        seq![(key, value)]
    } else if entries[0].0 == key {
        seq![(key, value)] + entries.drop_first()
    } else {
        seq![entries[0]] + spec_insert(entries.drop_first(), key, value)
    }
}

/// After binding a name, that name resolves to the new value.
pub proof fn lemma_insert_lookup_same(
    entries: Seq<(Seq<char>, TreeModel)>,
    key: Seq<char>,
    value: TreeModel,
)
    ensures
        spec_lookup(spec_insert(entries, key, value), key) == Some(value),
    decreases entries.len(),
{
    if entries.len() == 0 {
    } else if entries[0].0 == key {
        assert((seq![(key, value)] + entries.drop_first())[0] == (key, value));
    } else {
        lemma_insert_lookup_same(entries.drop_first(), key, value);
        let spliced = seq![entries[0]] + spec_insert(entries.drop_first(), key, value);
        assert(spliced[0] == entries[0]);
        assert(spliced.drop_first() =~= spec_insert(entries.drop_first(), key, value));
    }
}

/// A new binding shadows without leaking: every other name's binding is
/// untouched, so extending a copied scope never changes what sibling
/// lookups see.
pub proof fn lemma_insert_lookup_other(
    entries: Seq<(Seq<char>, TreeModel)>,
    key: Seq<char>,
    value: TreeModel,
    other: Seq<char>,
)
    requires
        other != key,
    ensures
        spec_lookup(spec_insert(entries, key, value), other) == spec_lookup(entries, other),
    decreases entries.len(),
{
    if entries.len() == 0 {
        let s = seq![(key, value)];
        assert(s.drop_first() =~= Seq::<(Seq<char>, TreeModel)>::empty());
        assert(spec_lookup(s.drop_first(), other) is None);
    } else if entries[0].0 == key {
        let spliced = seq![(key, value)] + entries.drop_first();
        assert(spliced[0] == (key, value));
        assert(spliced.drop_first() =~= entries.drop_first());
    } else {
        lemma_insert_lookup_other(entries.drop_first(), key, value, other);
        let spliced = seq![entries[0]] + spec_insert(entries.drop_first(), key, value);
        assert(spliced[0] == entries[0]);
        assert(spliced.drop_first() =~= spec_insert(entries.drop_first(), key, value));
    }
}

impl Clone for Primitive {
    fn clone(&self) -> (r: Self)
        ensures
            r@ == self@,
    {
        match self {
            Primitive::Str(s) => Primitive::Str(s.clone()),
            Primitive::Num(n) => Primitive::Num(*n),
            Primitive::Bool(b) => Primitive::Bool(*b),
        }
    }
}

impl Clone for ContextTree {
    fn clone(&self) -> (r: Self)
        ensures
            r@ == self@,
        decreases *self,
    {
        broadcast use group_context_model_axioms;

        match self {
            ContextTree::Leaf(p) => ContextTree::Leaf(p.clone()),
            ContextTree::Array(v) => {
                let mut out: Vec<ContextTree> = Vec::new();
                let mut i: usize = 0;
                while i < v.len()
                    invariant
                        0 <= i <= v.len(),
                        out@.len() == i,
                        forall|j: int| 0 <= j < i ==> tree_model(#[trigger] out@[j]) == tree_model(
                            v@[j],
                        ),
                        *self == ContextTree::Array(*v),
                    decreases v.len() - i,
                {
                    let element = &v[i];
                    proof {
                        assert(decreases_to!(*self => (*self)->Array_0));
                        assert(decreases_to!(*v => v@));
                        assert(decreases_to!(v@ => v@[i as int]));
                    }
                    out.push(element.clone());
                    i = i + 1;
                }
                proof {
                    assert(array_models(out@) =~= array_models(v@));
                }
                ContextTree::Array(out)
            },
            ContextTree::Branch(m) => {
                proof {
                    assert(decreases_to!(*self => (*self)->Branch_0));
                }
                ContextTree::Branch(m.clone())
            },
            ContextTree::Slot(p) => ContextTree::Slot(p.clone()),
        }
    }
}

impl Clone for ContextMap {
    fn clone(&self) -> (r: Self)
        ensures
            r@ == self@,
        decreases *self,
    {
        broadcast use group_context_model_axioms;

        let mut out: Vec<(String, ContextTree)> = Vec::new();
        let mut i: usize = 0;
        while i < self.entries.len()
            invariant
                0 <= i <= self.entries.len(),
                out@.len() == i,
                forall|j: int| 0 <= j < i ==> #[trigger] out@[j].0@ == self.entries@[j].0@
                    && tree_model(out@[j].1) == tree_model(self.entries@[j].1),
            decreases self.entries.len() - i,
        {
            let key = self.entries[i].0.clone();
            let element = &self.entries[i].1;
            proof {
                assert(decreases_to!(*self => self.entries));
                assert(decreases_to!(self.entries => self.entries@));
                assert(decreases_to!(self.entries@ => self.entries@[i as int]));
                assert(decreases_to!(self.entries@[i as int] => self.entries@[i as int].1));
            }
            let value = element.clone();
            out.push((key, value));
            i = i + 1;
        }
        let r = ContextMap { entries: out };
        proof {
            assert(r@ =~= self@);
        }
        r
    }
}

impl Default for ContextTree {
    /// An empty branch.
    fn default() -> (r: Self)
        ensures
            r@ == TreeModel::Branch(Seq::<(Seq<char>, TreeModel)>::empty()),
    {
        ContextTree::Branch(ContextMap { entries: Vec::new() })
    }
}

impl ContextMap {
    /// An empty scope.
    pub fn new() -> (r: Self)
        ensures
            r@ == Seq::<(Seq<char>, TreeModel)>::empty(),
    {
        ContextMap { entries: Vec::new() }
    }

    /// The value bound to `key`, if any.
    pub fn get(&self, key: &str) -> (r: Option<&ContextTree>)
        ensures
            match spec_lookup(self@, key@) {
                Some(m) => r is Some && r->0@ == m,
                None => r is None,
            },
    {
        broadcast use group_context_model_axioms;

        proof {
            assert(self@.subrange(0, self@.len() as int) =~= self@);
        }
        let mut i: usize = 0;
        while i < self.entries.len()
            invariant
                0 <= i <= self.entries.len(),
                self@.len() == self.entries@.len(),
                forall|j: int| 0 <= j < self@.len() ==> #[trigger] self@[j] == (
                    self.entries@[j].0@,
                    tree_model(self.entries@[j].1),
                ),
                spec_lookup(self@, key@) == spec_lookup(
                    self@.subrange(i as int, self@.len() as int),
                    key@,
                ),
            decreases self.entries.len() - i,
        {
            proof {
                let rest = self@.subrange(i as int, self@.len() as int);
                assert(rest[0] == self@[i as int]);
                assert(rest.drop_first() =~= self@.subrange(i + 1, self@.len() as int));
            }
            if str_eq(self.entries[i].0.as_str(), key) {
                return Some(&self.entries[i].1);
            }
            i = i + 1;
        }
        None
    }

    /// Binds `key` to `value`, replacing the first entry with that name in
    /// place or appending a new entry.
    #[verifier::loop_isolation(false)]
    pub fn insert(&mut self, key: String, value: ContextTree)
        ensures
            final(self)@ == spec_insert(old(self)@, key@, tree_model(value)),
    {
        broadcast use group_context_model_axioms;

        let ghost value_model = tree_model(value);
        let ghost key_model = key@;
        let mut i: usize = 0;
        while i < self.entries.len()
            invariant
                0 <= i <= self.entries.len(),
                self@.len() == self.entries@.len(),
                forall|j: int| 0 <= j < self@.len() ==> #[trigger] self@[j] == (
                    self.entries@[j].0@,
                    tree_model(self.entries@[j].1),
                ),
                forall|j: int| 0 <= j < i ==> #[trigger] self.entries@[j].0@ != key@,
                self == old(self),
            decreases self.entries.len() - i,
        {
            if str_eq(self.entries[i].0.as_str(), key.as_str()) {
                proof {
                    assert(forall|j: int| 0 <= j < i ==> (#[trigger] old(self)@[j]).0 != key@);
                    assert(old(self)@[i as int].0 == key@);
                }
                let entry = (key, value);
                let ghost pair = entry;
                let ghost before = self.entries@;
                let _ = self.entries.remove(i);
                proof {
                    assert(self.entries@ == before.remove(i as int));
                }
                self.entries.insert(i, entry);
                proof {
                    lemma_insert_at_found(old(self)@, key_model, value_model, i as int);
                    assert(self.entries@ == before.remove(i as int).insert(i as int, pair));
                    assert(self.entries@ =~= before.update(i as int, pair));
                    assert(self@.len() == self.entries@.len());
                    assert(self@ =~= old(self)@.update(i as int, (key_model, value_model)));
                }
                return ;
            }
            i = i + 1;
        }
        self.entries.push((key, value));
        proof {
            lemma_insert_at_end(old(self)@, key@, value_model);
            assert(self@ =~= old(self)@.push((key@, value_model)));
        }
    }

    /// Removes every binding.
    pub fn clear(&mut self)
        ensures
            final(self)@ == Seq::<(Seq<char>, TreeModel)>::empty(),
    {
        self.entries.clear();
    }

    /// The number of bindings.
    pub fn len(&self) -> (r: usize)
        ensures
            r == self@.len(),
    {
        proof {
            broadcast use group_context_model_axioms;

        }
        self.entries.len()
    }
}

/// When the key is absent, an insert appends the new entry.
proof fn lemma_insert_at_end(
    entries: Seq<(Seq<char>, TreeModel)>,
    key: Seq<char>,
    value: TreeModel,
)
    requires
        forall|j: int| 0 <= j < entries.len() ==> (#[trigger] entries[j]).0 != key,
    ensures
        spec_insert(entries, key, value) == entries.push((key, value)),
    decreases entries.len(),
{
    if entries.len() == 0 {
        assert(spec_insert(entries, key, value) =~= entries.push((key, value)));
    } else {
        assert(forall|j: int| 0 <= j < entries.drop_first().len() ==> (#[trigger] entries.drop_first()[j]).0
            != key);
        lemma_insert_at_end(entries.drop_first(), key, value);
        assert(seq![entries[0]] + entries.drop_first().push((key, value)) =~= entries.push(
            (key, value),
        ));
    }
}

/// When the key first occurs at position `i`, an insert replaces that entry
/// in place.
proof fn lemma_insert_at_found(
    entries: Seq<(Seq<char>, TreeModel)>,
    key: Seq<char>,
    value: TreeModel,
    i: int,
)
    requires
        0 <= i < entries.len(),
        forall|j: int| 0 <= j < i ==> (#[trigger] entries[j]).0 != key,
        entries[i].0 == key,
    ensures
        spec_insert(entries, key, value) == entries.update(i, (key, value)),
    decreases entries.len(),
{
    if i == 0 {
        assert(seq![(key, value)] + entries.drop_first() =~= entries.update(0, (key, value)));
    } else {
        assert(entries.drop_first()[i - 1].0 == key);
        lemma_insert_at_found(entries.drop_first(), key, value, i - 1);
        assert(seq![entries[0]] + entries.drop_first().update(i - 1, (key, value)) =~= entries.update(
            i,
            (key, value),
        ));
    }
}

impl ContextTree {
    /// Retrieves the value bound to `key` when this tree is a branch;
    /// any other shape holds no bindings.
    pub fn get_from_branch(&self, key: &str) -> (r: Option<&ContextTree>)
        ensures
            match *self {
                ContextTree::Branch(m) => match spec_lookup(m@, key@) {
                    Some(t) => r is Some && r->0@ == t,
                    None => r is None,
                },
                _ => r is None,
            },
    {
        match self {
            ContextTree::Branch(map) => map.get(key),
            _ => None,
        }
    }
}

impl Primitive {
    /// The textual form of a scalar: the string itself, the decimal digits
    /// of a number, or `true` / `false`.
    pub open spec fn spec_text(&self) -> Seq<char> {
        spec_prim_text(self@)
    }

    /// The textual form of a scalar.
    pub fn to_text(&self) -> (r: String)
        ensures
            r@ == self.spec_text(),
    {
        match self {
            Primitive::Str(s) => s.clone(),
            Primitive::Num(n) => i64_to_string(*n),
            Primitive::Bool(b) => {
                if *b {
                    "true".to_owned()
                } else {
                    "false".to_owned()
                }
            },
        }
    }
}

/// The textual form of the model of a scalar: the string itself, the decimal
/// digits of a number, or `true` / `false`.
pub open spec fn spec_prim_text(p: PrimModel) -> Seq<char> {
    match p {
        PrimModel::Str(s) => s,
        PrimModel::Num(n) => spec_int_string(n),
        PrimModel::Bool(b) => if b {
            "true"@
        } else {
            "false"@
        },
    }
}

/// Convert a vector of values to an array value.
pub fn ctx_vec(parameters: Vec<ContextTree>) -> (r: ContextTree)
    ensures
        r@ == TreeModel::Array(array_models(parameters@)),
{
    ContextTree::Array(parameters)
}

/// Convert a string slice to a string leaf value.
pub fn ctx_str(str: &str) -> (r: ContextTree)
    ensures
        r@ == TreeModel::Leaf(PrimModel::Str(str@)),
{
    ContextTree::Leaf(Primitive::Str(str.to_owned()))
}

/// The entries after binding each pair in turn, left to right.
pub open spec fn spec_insert_all(
    entries: Seq<(Seq<char>, TreeModel)>,
    pairs: Seq<(Seq<char>, TreeModel)>,
) -> Seq<(Seq<char>, TreeModel)>
    decreases pairs.len(),
{
    if pairs.len() == 0 {
        entries
    } else {
        spec_insert_all(spec_insert(entries, pairs[0].0, pairs[0].1), pairs.drop_first())
    }
}

/// Convert key-value pairs to a branch value; a repeated key keeps its last
/// value.
#[verifier::loop_isolation(false)]
pub fn ctx_map(array: Vec<(String, ContextTree)>) -> (r: ContextTree)
    ensures
        r@ == TreeModel::Branch(
            spec_insert_all(Seq::<(Seq<char>, TreeModel)>::empty(), entry_models(array@)),
        ),
{
    broadcast use group_context_model_axioms;

    let ghost pairs = entry_models(array@);
    proof {
        assert(pairs.len() == array@.len());
    }
    let mut map = ContextMap::new();
    proof {
        assert(pairs.subrange(0, pairs.len() as int) =~= pairs);
    }
    let mut i: usize = 0;
    while i < array.len()
        invariant
            0 <= i <= array.len(),
            pairs == entry_models(array@),
            pairs.len() == array@.len(),
            spec_insert_all(Seq::<(Seq<char>, TreeModel)>::empty(), pairs) == spec_insert_all(
                map@,
                pairs.subrange(i as int, pairs.len() as int),
            ),
        decreases array.len() - i,
    {
        proof {
            let rest = pairs.subrange(i as int, pairs.len() as int);
            assert(rest[0] == pairs[i as int]);
            assert(rest.drop_first() =~= pairs.subrange(i + 1, pairs.len() as int));
        }
        let key = array[i].0.clone();
        let element = &array[i].1;
        let value = element.clone();
        proof {
            assert(pairs[i as int] == (array@[i as int].0@, tree_model(array@[i as int].1)));
            assert(key@ == pairs[i as int].0);
            assert(tree_model(value) == pairs[i as int].1);
        }
        let ghost map_before = map@;
        map.insert(key, value);
        proof {
            let rest = pairs.subrange(i as int, pairs.len() as int);
            assert(map@ == spec_insert(map_before, rest[0].0, rest[0].1));
            assert(spec_insert_all(map_before, rest) == spec_insert_all(
                map@,
                rest.drop_first(),
            ));
        }
        i = i + 1;
    }
    proof {
        assert(pairs.subrange(i as int, pairs.len() as int).len() == 0);
    }
    ContextTree::Branch(map)
}

} // verus!


verus! {

impl From<i64> for ContextTree {
    /// A numeric leaf.
    fn from(value: i64) -> (r: Self) {
        ContextTree::Leaf(Primitive::Num(value))
    }
}

impl vstd::std_specs::convert::FromSpecImpl<i64> for ContextTree {
    open spec fn obeys_from_spec() -> bool {
        true
    }

    open spec fn from_spec(value: i64) -> Self {
        ContextTree::Leaf(Primitive::Num(value))
    }
}

impl From<bool> for ContextTree {
    /// A boolean leaf.
    fn from(value: bool) -> (r: Self) {
        ContextTree::Leaf(Primitive::Bool(value))
    }
}

impl vstd::std_specs::convert::FromSpecImpl<bool> for ContextTree {
    open spec fn obeys_from_spec() -> bool {
        true
    }

    open spec fn from_spec(value: bool) -> Self {
        ContextTree::Leaf(Primitive::Bool(value))
    }
}

impl From<String> for ContextTree {
    /// A string leaf.
    fn from(value: String) -> (r: Self) {
        ContextTree::Leaf(Primitive::Str(value))
    }
}

impl vstd::std_specs::convert::FromSpecImpl<String> for ContextTree {
    open spec fn obeys_from_spec() -> bool {
        true
    }

    open spec fn from_spec(value: String) -> Self {
        ContextTree::Leaf(Primitive::Str(value))
    }
}

} // verus!
