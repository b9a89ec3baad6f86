//! The field mapping attached to every classification result: an
//! order-irrelevant mapping from field name to a typed value (string,
//! unsigned integer, boolean, or list of strings). Modeled as a
//! `Map<Seq<char>, FieldV>` in which a later entry for the same name
//! replaces an earlier one.

use vstd::prelude::*;

verus! {

use crate::text::str_eq;
use crate::text::views_of;

/// A typed field value.
pub enum FieldValue {
    Str(String),
    UInt(u64),
    Bool(bool),
    List(Vec<String>),
}

/// The mathematical value of a [`FieldValue`].
pub enum FieldV {
    Str(Seq<char>),
    UInt(u64),
    Bool(bool),
    List(Seq<Seq<char>>),
}

impl View for FieldValue {
    type V = FieldV;

    open spec fn view(&self) -> FieldV {
        match self {
            FieldValue::Str(s) => FieldV::Str(s@),
            FieldValue::UInt(n) => FieldV::UInt(*n),
            FieldValue::Bool(b) => FieldV::Bool(*b),
            FieldValue::List(v) => FieldV::List(views_of(v@)),
        }
    }
}

/// The mapping described by a sequence of name/value entries, later
/// entries replacing earlier ones of the same name.
pub open spec fn map_of(entries: Seq<(String, FieldValue)>) -> Map<Seq<char>, FieldV>
    decreases entries.len(),
{
    if entries.len() == 0 {
        Map::empty()
    } else {
        map_of(entries.drop_last()).insert(entries.last().0@, entries.last().1@)
    }
}

proof fn lemma_map_of_absent(entries: Seq<(String, FieldValue)>, k: Seq<char>)
    requires
        forall|i: int| 0 <= i < entries.len() ==> (#[trigger] entries[i]).0@ != k,
    ensures
        !map_of(entries).contains_key(k),
    decreases entries.len(),
{
    if entries.len() > 0 {
        lemma_map_of_absent(entries.drop_last(), k);
    }
}

proof fn lemma_map_of_found(entries: Seq<(String, FieldValue)>, k: Seq<char>, i: int)
    requires
        0 <= i < entries.len(),
        entries[i].0@ == k,
        forall|j: int| i < j < entries.len() ==> (#[trigger] entries[j]).0@ != k,
    ensures
        map_of(entries).contains_pair(k, entries[i].1@),
    decreases entries.len(),
{
    if i == entries.len() - 1 {
    } else {
        lemma_map_of_found(entries.drop_last(), k, i);
    }
}

/// A mapping from field name to typed value. Field names are unique at
/// the level of the mapping's value: setting a name that is already
/// present replaces its value.
pub struct FieldMap {
    entries: Vec<(String, FieldValue)>,
}

impl View for FieldMap {
    type V = Map<Seq<char>, FieldV>;

    closed spec fn view(&self) -> Map<Seq<char>, FieldV> {
        map_of(self.entries@)
    }
}

impl FieldMap {
    /// An empty mapping.
    pub fn new() -> (r: FieldMap)
        ensures
            r@ == Map::<Seq<char>, FieldV>::empty(),
    {
        FieldMap { entries: Vec::new() }
    }

    /// Binds `name` to `value`, replacing any earlier binding of `name`.
    pub fn set(&mut self, name: &str, value: FieldValue)
        ensures
            final(self)@ == old(self)@.insert(name@, value@),
    {
        let ghost e0 = self.entries@;
        let ghost vv = value@;
        self.entries.push((String::from_str(name), value));
        proof {
            assert(self.entries@.drop_last() =~= e0);
            assert(map_of(self.entries@) == map_of(e0).insert(name@, vv));
        }
    }

    /// The value bound to `name`, if any.
    pub fn get(&self, name: &str) -> (r: Option<&FieldValue>)
        ensures
            match r {
                Some(v) => self@.contains_pair(name@, v@),
                None => !self@.contains_key(name@),
            },
    {
        let ghost es = self.entries@;
        let n: usize = self.entries.len();
        let mut i: usize = n;
        while i > 0
            invariant
                i <= n,
                n == es.len(),
                self.entries@ == es,
                forall|j: int| i <= j < n ==> (#[trigger] es[j]).0@ != name@,
            decreases i,
        {
            i = i - 1;
            if str_eq(self.entries[i].0.as_str(), name) {
                proof {
                    lemma_map_of_found(es, name@, i as int);
                }
                return Some(&self.entries[i].1);
            }
        }
        proof {
            lemma_map_of_absent(es, name@);
        }
        None
    }

    /// Every entry, in insertion order; an entry is live unless a later
    /// entry binds the same name.
    pub fn entries(&self) -> (r: &Vec<(String, FieldValue)>)
        ensures
            map_of(r@) == self@,
    {
        &self.entries
    }
}

} // verus!
