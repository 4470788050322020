//! The untyped document value and its safe accessor.
//!
//! Every document handed over by the external collaborator is modelled as a
//! [`DocValue`]: null, a boolean, a number, a string, an ordered sequence of
//! values, or a mapping from string keys to values.  Navigation through a
//! value is total: an absent key, an out-of-range index or a kind mismatch
//! yields `None`, never a panic.  Every other component of the mapping layer
//! routes its structural inspection through these accessors.

use vstd::prelude::*;
use crate::strlib::str_eq;

verus! {

/// An untyped tree-shaped document value.
///
/// Object keys are expected to be unique (as in the source system's
/// documents); lookups take the first binding of a key, so on documents with
/// unique keys they agree with any map reading.
#[derive(Debug, PartialEq)]
pub enum DocValue {
    Null,
    Bool(bool),
    Int(i64),
    Text(String),
    Array(Vec<DocValue>),
    Object(Vec<(String, DocValue)>),
}

/// The first binding of `key` among `pairs`, if any.
pub open spec fn obj_lookup(pairs: Seq<(String, DocValue)>, key: Seq<char>) -> Option<DocValue>
    decreases pairs.len(),
{
    if pairs.len() == 0 {
        None
    } else if pairs[0].0@ == key {
        Some(pairs[0].1)
    } else {
        obj_lookup(pairs.drop_first(), key)
    }
}

/// The value under `key`, if `v` is an object binding that key.
pub open spec fn spec_get(v: DocValue, key: Seq<char>) -> Option<DocValue> {
    match v {
        DocValue::Object(pairs) => obj_lookup(pairs@, key),
        _ => None,
    }
}

/// The element at `i`, if `v` is an array of at least `i + 1` elements.
pub open spec fn spec_at(v: DocValue, i: int) -> Option<DocValue> {
    match v {
        DocValue::Array(items) => if 0 <= i < items@.len() {
            Some(items@[i])
        } else {
            None
        },
        _ => None,
    }
}

/// The characters of `v`, if `v` is a string.
pub open spec fn spec_str(v: DocValue) -> Option<Seq<char>> {
    match v {
        DocValue::Text(s) => Some(s@),
        _ => None,
    }
}

/// The boolean held by `v`, if `v` is a boolean.
pub open spec fn spec_bool(v: DocValue) -> Option<bool> {
    match v {
        DocValue::Bool(b) => Some(b),
        _ => None,
    }
}

/// The elements of `v`, if `v` is an array.
pub open spec fn spec_items(v: DocValue) -> Option<Seq<DocValue>> {
    match v {
        DocValue::Array(items) => Some(items@),
        _ => None,
    }
}

/// Whether `v` is a string value holding `text`.
pub open spec fn is_text_value(v: DocValue, text: Seq<char>) -> bool {
    match v {
        DocValue::Text(s) => s@ == text,
        _ => false,
    }
}

impl DocValue {
    /// The value under `key`, or `None` when `self` is not an object or does
    /// not bind `key`.
    pub fn get<'a>(&'a self, key: &str) -> (r: Option<&'a DocValue>)
        ensures
            match r {
                Some(v) => spec_get(*self, key@) == Some(*v),
                None => spec_get(*self, key@) is None,
            },
    {
        match self {
            DocValue::Object(pairs) => {
                let n = pairs.len();
                let mut i: usize = 0;
                proof {
                    assert(pairs@.skip(0) =~= pairs@);
                }
                while i < n
                    invariant
                        *self == DocValue::Object(*pairs),
                        n == pairs@.len(),
                        i <= n,
                        obj_lookup(pairs@, key@) == obj_lookup(pairs@.skip(i as int), key@),
                    decreases n - i,
                {
                    proof {
                        assert(pairs@.skip(i as int)[0] == pairs@[i as int]);
                    }
                    if str_eq(pairs[i].0.as_str(), key) {
                        proof {
                            assert(pairs@.skip(i as int).len() > 0);
                            assert(obj_lookup(pairs@.skip(i as int), key@)
                                == Some(pairs@[i as int].1));
                            assert(spec_get(*self, key@) == obj_lookup(pairs@, key@));
                        }
                        return Some(&pairs[i].1);
                    }
                    proof {
                        assert(pairs@.skip(i as int).drop_first() =~= pairs@.skip(i as int + 1));
                    }
                    i += 1;
                }
                proof {
                    assert(pairs@.skip(n as int) =~= Seq::<(String, DocValue)>::empty());
                }
                None
            },
            _ => None,
        }
    }

    /// The element at `i`, or `None` when `self` is not an array or `i` is
    /// out of range.
    pub fn at<'a>(&'a self, i: usize) -> (r: Option<&'a DocValue>)
        ensures
            match r {
                Some(v) => spec_at(*self, i as int) == Some(*v),
                None => spec_at(*self, i as int) is None,
            },
    {
        match self {
            DocValue::Array(items) => {
                if i < items.len() {
                    Some(&items[i])
                } else {
                    None
                }
            },
            _ => None,
        }
    }

    /// The held string, or `None` when `self` is not a string.
    pub fn as_str<'a>(&'a self) -> (r: Option<&'a String>)
        ensures
            match r {
                Some(s) => spec_str(*self) == Some(s@),
                None => spec_str(*self) is None,
            },
    {
        match self {
            DocValue::Text(s) => Some(s),
            _ => None,
        }
    }

    /// The held boolean, or `None` when `self` is not a boolean.
    pub fn as_bool(&self) -> (r: Option<bool>)
        ensures
            r == spec_bool(*self),
    {
        match self {
            DocValue::Bool(b) => Some(*b),
            _ => None,
        }
    }

    /// The held elements, or `None` when `self` is not an array.
    pub fn as_array<'a>(&'a self) -> (r: Option<&'a Vec<DocValue>>)
        ensures
            match r {
                Some(items) => spec_items(*self) == Some(items@),
                None => spec_items(*self) is None,
            },
    {
        match self {
            DocValue::Array(items) => Some(items),
            _ => None,
        }
    }
}

} // verus!
