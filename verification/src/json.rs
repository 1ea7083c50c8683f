//! A decoded structured-data document.

use vstd::prelude::*;
use vstd::string::*;

verus! {

/// A decoded JSON value.
///
/// An object keeps its members in document order; a lookup takes the first
/// member of a name.
#[derive(Debug)]
pub enum Json {
    Null,
    Bool(bool),
    /// A number that is a non-negative integer below 2^64.
    Integer(u64),
    /// Any other number, kept as its source text.
    Decimal(String),
    Text(String),
    Array(Vec<Json>),
    Object(Vec<(String, Json)>),
}

/// The value of the first member named `key`, if there is one.
pub open spec fn lookup(entries: Seq<(String, Json)>, key: Seq<char>) -> Option<Json>
    decreases entries.len(),
{
    if entries.len() == 0 {
        None
    } else if entries[0].0@ == key {
        Some(entries[0].1)
    } else {
        lookup(entries.subrange(1, entries.len() as int), key)
    }
}

/// The value behind an optional reference.
pub open spec fn held(v: Option<&Json>) -> Option<Json> {
    match v {
        Some(x) => Some(*x),
        None => None,
    }
}

/// Tells whether two texts hold the same characters.
pub(crate) fn same_text(a: &String, b: &str) -> (r: bool)
    ensures
        r == (a@ == b@),
{
    let other = String::from_str(b);
    *a == other
}

impl Json {
    /// The member `key` of an object; `None` where the value is no object or
    /// has no such member.
    pub open spec fn member(self, key: Seq<char>) -> Option<Json> {
        match self {
            Json::Object(entries) => lookup(entries@, key),
            _ => None,
        }
    }

    /// The member at `outer`, then `key` inside it.
    pub open spec fn member2(self, outer: Seq<char>, key: Seq<char>) -> Option<Json> {
        match self.member(outer) {
            Some(v) => v.member(key),
            None => None,
        }
    }

    /// Looks up a member of an object by its name.
    pub fn get(&self, key: &str) -> (r: Option<&Json>)
        ensures
            held(r) == self.member(key@),
    {
        match self {
            Json::Object(entries) => {
                let n: usize = entries.len();
                let mut i: usize = 0;
                assert(entries@.subrange(0, n as int) =~= entries@);
                while i < n
                    invariant
                        n == entries@.len(),
                        i <= n,
                        self.member(key@) == lookup(entries@, key@),
                        lookup(entries@, key@) == lookup(entries@.subrange(i as int, n as int), key@),
                    decreases n - i,
                {
                    let ghost rest = entries@.subrange(i as int, n as int);
                    if same_text(&entries[i].0, key) {
                        assert(rest[0] == entries@[i as int]);
                        assert(lookup(rest, key@) == Some(rest[0].1));
                        return Some(&entries[i].1);
                    }
                    assert(rest.subrange(1, rest.len() as int) =~= entries@.subrange(i + 1, n as int));
                    i += 1;
                }
                None
            },
            _ => None,
        }
    }

    /// Looks up the member `key` of the member `outer`.
    pub fn get2(&self, outer: &str, key: &str) -> (r: Option<&Json>)
        ensures
            held(r) == self.member2(outer@, key@),
    {
        match self.get(outer) {
            Some(v) => v.get(key),
            None => None,
        }
    }
}

} // verus!
