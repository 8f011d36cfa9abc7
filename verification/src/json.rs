//! A plain-value model of a dynamic JSON document.
//!
//! The upstream catalog API answers with deeply nested, loosely-typed
//! JSON. The boundary of the application decodes the wire bytes and
//! hands the core a [`Json`] tree of plain values; every field access
//! the normalizer performs is then an ordinary, contract-checked
//! operation on this tree.
//!
//! Numbers are carried in fixed point: a JSON number is either a
//! non-negative integer ([`Json::UInt`]) or a count of thousandths
//! ([`Json::Milli`]). The core is float-free; the boundary scales
//! fractional wire numbers by 1000 when it builds the tree.

use vstd::prelude::*;

verus! {

/// One node of a JSON document, as plain values.
pub enum Json {
    Null,
    Bool(bool),
    /// A number that is a non-negative integer on the wire.
    UInt(u64),
    /// A fractional number, in thousandths.
    Milli(i64),
    Str(String),
    Arr(Vec<Json>),
    /// An object, as its members in document order.
    Obj(Vec<(String, Json)>),
}

/// The first member of `entries` named `key`, if any.
pub open spec fn spec_lookup(entries: Seq<(String, Json)>, key: Seq<char>) -> Option<Json>
    decreases entries.len(),
{
    if entries.len() == 0 {
        None
    } else if entries[0].0@ == key {
        Some(entries[0].1)
    } else {
        spec_lookup(entries.skip(1), key)
    }
}

/// String-slice equality by view, for member names and unit symbols.
pub fn str_eq(a: &str, b: &str) -> (r: bool)
    ensures
        r == (a@ == b@),
{
    let sa = String::from_str(a);
    let sb = String::from_str(b);
    sa == sb
}

/// Scans object members in document order for the first one named `key`.
fn lookup<'a>(entries: &'a Vec<(String, Json)>, key: &str) -> (r: Option<&'a Json>)
    ensures
        match r {
            Some(v) => spec_lookup(entries@, key@) == Some(*v),
            None => spec_lookup(entries@, key@) is None,
        },
{
    let n = entries.len();
    assert(entries@.skip(0) =~= entries@);
    for i in 0..n
        invariant
            n == entries@.len(),
            spec_lookup(entries@, key@) == spec_lookup(entries@.skip(i as int), key@),
    {
        if str_eq(entries[i].0.as_str(), key) {
            assert(entries@.skip(i as int)[0] == entries@[i as int]);
            assert(spec_lookup(entries@.skip(i as int), key@) == Some(entries@[i as int].1));
            let e = &entries[i];
            return Some(&e.1);
        }
        assert(entries@.skip(i as int).skip(1) =~= entries@.skip(i + 1));
    }
    assert(entries@.skip(n as int).len() == 0);
    None
}

impl Json {
    /// The member of an object node named `key`; `None` on a
    /// non-object node or an absent member.
    pub open spec fn spec_get(self, key: Seq<char>) -> Option<Json> {
        match self {
            Json::Obj(entries) => spec_lookup(entries@, key),
            _ => None,
        }
    }

    /// The string content of a string node.
    pub open spec fn spec_as_str(self) -> Option<Seq<char>> {
        match self {
            Json::Str(s) => Some(s@),
            _ => None,
        }
    }

    /// The value of an integer number node.
    pub open spec fn spec_as_u64(self) -> Option<u64> {
        match self {
            Json::UInt(n) => Some(n),
            _ => None,
        }
    }

    /// The value of a number node, in thousandths; `None` when an
    /// integer node is too large to scale.
    pub open spec fn spec_as_milli(self) -> Option<i64> {
        match self {
            Json::UInt(n) => if n * 1000 <= i64::MAX {
                Some((n * 1000) as i64)
            } else {
                None
            },
            Json::Milli(m) => Some(m),
            _ => None,
        }
    }

    /// The elements of an array node.
    pub open spec fn spec_as_arr(self) -> Option<Seq<Json>> {
        match self {
            Json::Arr(elems) => Some(elems@),
            _ => None,
        }
    }

    /// Looks a member up by name in an object node.
    pub fn get<'a>(&'a self, key: &str) -> (r: Option<&'a Json>)
        ensures
            match r {
                Some(v) => self.spec_get(key@) == Some(*v),
                None => self.spec_get(key@) is None,
            },
    {
        match self {
            Json::Obj(entries) => lookup(entries, key),
            _ => None,
        }
    }

    /// The string content of this node, if it is a string.
    pub fn as_str<'a>(&'a self) -> (r: Option<&'a String>)
        ensures
            match r {
                Some(s) => self.spec_as_str() == Some(s@),
                None => self.spec_as_str() is None,
            },
    {
        match self {
            Json::Str(s) => Some(s),
            _ => None,
        }
    }

    /// The value of this node as a non-negative integer, if it is one.
    pub fn as_u64(&self) -> (r: Option<u64>)
        ensures
            r == self.spec_as_u64(),
    {
        match self {
            Json::UInt(n) => Some(*n),
            _ => None,
        }
    }

    /// The value of this node in thousandths, if it is a number that
    /// can be scaled without overflow.
    pub fn as_milli(&self) -> (r: Option<i64>)
        ensures
            r == self.spec_as_milli(),
    {
        match self {
            Json::UInt(n) => {
                if *n <= 9_223_372_036_854_775u64 {
                    Some((*n as i64) * 1000)
                } else {
                    None
                }
            },
            Json::Milli(m) => Some(*m),
            _ => None,
        }
    }

    /// The elements of this node, if it is an array.
    pub fn as_arr<'a>(&'a self) -> (r: Option<&'a Vec<Json>>)
        ensures
            match r {
                Some(elems) => self.spec_as_arr() == Some(elems@),
                None => self.spec_as_arr() is None,
            },
    {
        match self {
            Json::Arr(elems) => Some(elems),
            _ => None,
        }
    }
}

} // verus!
