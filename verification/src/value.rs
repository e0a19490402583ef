//! Run-time values. A record keeps its fields in an `indexmap::IndexMap`, in
//! the order in which they were first inserted.

use crate::ast::Name;
use indexmap::IndexMap;
use vstd::prelude::*;
use vstd::std_specs::cmp::PartialEqSpecImpl;

verus! {

// ---------------------------------------------------------------------------
// Model
// ---------------------------------------------------------------------------
/// Model of [`Value`].
pub enum ValueV {
    Int(i64),
    Bool(bool),
    Str(Seq<char>),
    Record(Seq<EntryV>),
    Unit,
}

/// One field of a record value.
pub struct EntryV {
    pub key: Name,
    pub value: ValueV,
}

/// The index of the first entry with the given key.
pub open spec fn index_of(entries: Seq<EntryV>, key: Name) -> Option<int>
    decreases entries.len(),
{
    if entries.len() == 0 {
        None
    } else if entries[0].key == key {
        Some(0)
    } else {
        match index_of(entries.drop_first(), key) {
            Some(i) => Some(i + 1),
            None => None,
        }
    }
}

/// The value stored under `key`.
pub open spec fn value_of(entries: Seq<EntryV>, key: Name) -> Option<ValueV> {
    match index_of(entries, key) {
        Some(i) => Some(entries[i].value),
        None => None,
    }
}

/// Stores `value` under `key`: in place where the key is present, at the
/// end where it is not.
pub open spec fn put(entries: Seq<EntryV>, key: Name, value: ValueV) -> Seq<EntryV> {
    match index_of(entries, key) {
        Some(i) => entries.update(i, EntryV { key, value }),
        None => entries.push(EntryV { key, value }),
    }
}

/// Equality of values. Two records are equal when they have as many fields
/// and every field of the first is in the second with an equal value: the
/// order of the fields does not count.
pub open spec fn value_eq(a: ValueV, b: ValueV) -> bool
    decreases a,
{
    match (a, b) {
        (ValueV::Int(x), ValueV::Int(y)) => x == y,
        (ValueV::Bool(x), ValueV::Bool(y)) => x == y,
        (ValueV::Str(x), ValueV::Str(y)) => x == y,
        (ValueV::Unit, ValueV::Unit) => true,
        (ValueV::Record(ea), ValueV::Record(eb)) => ea.len() == eb.len() && forall|i: int|
            0 <= i < ea.len() ==> match value_of(eb, (#[trigger] ea[i]).key) {
                Some(v) => value_eq(ea[i].value, v),
                None => false,
            },
        _ => false,
    }
}

/// What a record holds: its fields in order. This names the contents of the
/// map inside [`Fields`]; the functions below say how each operation of the
/// map changes it.
pub uninterp spec fn entries_of(f: Fields) -> Seq<EntryV>;

/// What `{:?}` prints for a value.
pub uninterp spec fn debug_text(v: ValueV) -> Seq<char>;

// ---------------------------------------------------------------------------
// Values
// ---------------------------------------------------------------------------
/// The fields of a record value: an `indexmap::IndexMap` from field names
/// to values. What it holds is [`entries_of`]; it is reached only through the
/// functions below, one for each operation of the map that is used.
#[verifier::external_body]
pub struct Fields {
    map: IndexMap<String, Value>,
}

/// The formatter that `{:?}` hands to what it prints.
#[verifier::external_type_specification]
#[verifier::external_body]
pub struct ExFormatter<'a>(core::fmt::Formatter<'a>);

/// The error of a formatter.
#[verifier::external_type_specification]
#[verifier::external_body]
pub struct ExFmtError(core::fmt::Error);

impl core::fmt::Debug for Fields {
    /// A record is printed as its map is.
    #[verifier::external_body]
    fn fmt(&self, f: &mut core::fmt::Formatter<'_>) -> core::fmt::Result {
        core::fmt::Debug::fmt(&self.map, f)
    }
}

/// A run-time value.
#[derive(Debug)]
pub enum Value {
    Int(i64),
    Bool(bool),
    Str(String),
    Record(Fields),
    Unit,
}

impl View for Value {
    type V = ValueV;

    open spec fn view(&self) -> ValueV {
        match self {
            Value::Int(i) => ValueV::Int(*i),
            Value::Bool(b) => ValueV::Bool(*b),
            Value::Str(s) => ValueV::Str(s@),
            Value::Record(f) => ValueV::Record(entries_of(*f)),
            Value::Unit => ValueV::Unit,
        }
    }
}

/// The model of a list of named values.
pub open spec fn pairs_view(pairs: Seq<(String, Value)>) -> Seq<EntryV> {
    Seq::new(pairs.len(), |i: int| EntryV { key: pairs[i].0@, value: pairs[i].1@ })
}

/// The record that holds the first `n` of the given pairs, put in order.
pub open spec fn put_all(entries: Seq<EntryV>, n: int) -> Seq<EntryV>
    decreases n,
{
    if n <= 0 || n > entries.len() {
        Seq::empty()
    } else {
        put(put_all(entries, n - 1), entries[n - 1].key, entries[n - 1].value)
    }
}

// ---------------------------------------------------------------------------
// The map
// ---------------------------------------------------------------------------
/// `IndexMap::new`: a map without entries.
#[verifier::external_body]
pub(crate) fn fields_new() -> (r: Fields)
    ensures
        entries_of(r) == Seq::<EntryV>::empty(),
{
    Fields { map: IndexMap::new() }
}

/// `IndexMap::insert`: where the key is present its value is replaced and
/// the entry keeps its place; where it is not, the entry is added last.
#[verifier::external_body]
pub(crate) fn fields_insert(f: &mut Fields, key: String, value: Value)
    ensures
        entries_of(*final(f)) == put(entries_of(*old(f)), key@, value@),
{
    f.map.insert(key, value);
}

/// `IndexMap::shift_remove`: the entry with the key is taken out and its
/// value returned; the entries behind it keep their order. Without such an
/// entry nothing changes.
#[verifier::external_body]
pub(crate) fn fields_shift_remove(f: &mut Fields, key: &str) -> (r: Option<Value>)
    ensures
        match index_of(entries_of(*old(f)), key@) {
            Some(i) => r matches Some(v) && v@ == entries_of(*old(f))[i].value && entries_of(
                *final(f),
            ) == entries_of(*old(f)).remove(i),
            None => r is None && entries_of(*final(f)) == entries_of(*old(f)),
        },
{
    f.map.shift_remove(key)
}

/// `IndexMap::get_mut`: a mutable reference to the value under the key.
/// What is written through it is the value of that entry afterwards; the
/// entry keeps its key and its place, and every other entry stays as it is.
/// Without such an entry there is no reference and nothing changes.
#[verifier::external_body]
pub(crate) fn fields_get_mut<'a>(f: &'a mut Fields, key: &str) -> (r: Option<&'a mut Value>)
    ensures
        match index_of(entries_of(*old(f)), key@) {
            Some(i) => r matches Some(slot) && (*slot)@ == entries_of(*old(f))[i].value
                && entries_of(*final(f)) == entries_of(*old(f)).update(
                i,
                EntryV { key: entries_of(*old(f))[i].key, value: (*final(slot))@ },
            ),
            None => r is None && entries_of(*final(f)) == entries_of(*old(f)),
        },
{
    f.map.get_mut(key)
}

/// `IndexMap::clone`: the same entries in the same order.
#[verifier::external_body]
pub(crate) fn fields_clone(f: &Fields) -> (r: Fields)
    ensures
        entries_of(r) == entries_of(*f),
{
    Fields { map: f.map.clone() }
}

/// `IndexMap`'s `==`: as many entries, and every entry of the first is in
/// the second, under its key, with an equal value.
#[verifier::external_body]
pub(crate) fn fields_eq(a: &Fields, b: &Fields) -> (r: bool)
    ensures
        r == value_eq(ValueV::Record(entries_of(*a)), ValueV::Record(entries_of(*b))),
{
    a.map == b.map
}

/// `IndexMap::iter`: the entries in order, each copied out.
#[verifier::external_body]
pub(crate) fn fields_entries(f: &Fields) -> (r: Vec<(String, Value)>)
    ensures
        pairs_view(r@) == entries_of(*f),
{
    f.map.iter().map(|(k, v)| (k.clone(), v.clone())).collect()
}

/// The text that `{:?}` prints for a value.
#[verifier::external_body]
pub(crate) fn debug_string(v: &Value) -> (r: String)
    ensures
        r@ == debug_text(v@),
{
    format!("{:?}", v)
}

// ---------------------------------------------------------------------------
// Copies and comparisons
// ---------------------------------------------------------------------------
impl Clone for Value {
    fn clone(&self) -> (r: Self)
        ensures
            r@ == self@,
    {
        match self {
            Value::Int(i) => Value::Int(*i),
            Value::Bool(b) => Value::Bool(*b),
            Value::Str(s) => Value::Str(s.clone()),
            Value::Record(f) => Value::Record(fields_clone(f)),
            Value::Unit => Value::Unit,
        }
    }
}

impl PartialEq for Value {
    fn eq(&self, other: &Self) -> (r: bool) {
        match (self, other) {
            (Value::Int(a), Value::Int(b)) => *a == *b,
            (Value::Bool(a), Value::Bool(b)) => *a == *b,
            (Value::Str(a), Value::Str(b)) => *a == *b,
            (Value::Unit, Value::Unit) => true,
            (Value::Record(a), Value::Record(b)) => fields_eq(a, b),
            _ => false,
        }
    }
}

impl PartialEqSpecImpl for Value {
    open spec fn obeys_eq_spec() -> bool {
        true
    }

    open spec fn eq_spec(&self, other: &Self) -> bool {
        value_eq(self@, other@)
    }
}

impl Value {
    /// A record with the given fields, put in order: a name that comes twice
    /// keeps its first place and its last value.
    pub fn record(pairs: Vec<(String, Value)>) -> (r: Value)
        ensures
            r@ == ValueV::Record(put_all(pairs_view(pairs@), pairs@.len() as int)),
    {
        let ghost pv = pairs_view(pairs@);
        let mut f = fields_new();
        let mut i: usize = 0;
        while i < pairs.len()
            invariant
                i <= pairs.len(),
                pv == pairs_view(pairs@),
                entries_of(f) == put_all(pv, i as int),
            decreases pairs.len() - i,
        {
            fields_insert(&mut f, pairs[i].0.clone(), pairs[i].1.clone());
            i += 1;
        }
        Value::Record(f)
    }

    /// The fields of a record in order, each copied out; `None` for a value
    /// that is no record.
    pub fn entries(&self) -> (r: Option<Vec<(String, Value)>>)
        ensures
            match self@ {
                ValueV::Record(es) => r matches Some(pairs) && pairs_view(pairs@) == es,
                _ => r is None,
            },
    {
        match self {
            Value::Record(f) => Some(fields_entries(f)),
            _ => None,
        }
    }
}

} // verus!
