//! A JSON document as the library reads GitHub's answers.
//!
//! A number keeps what the rules read of it: its value where it is a whole
//! number that fits in `u64`.
use vstd::prelude::*;

use crate::text::text_is;

verus! {

/// A JSON value.
#[derive(Debug)]
pub enum Json {
    Null,
    Bool(bool),
    /// A number: `Some(n)` for a whole number `0 <= n <= u64::MAX`, else `None`.
    Num(Option<u64>),
    Str(String),
    Array(Vec<Json>),
    /// The members of an object in order; a lookup takes the first with the key.
    Object(Vec<(String, Json)>),
}

/// The value of the first member named `key`, or `Null`.
pub open spec fn pick(members: Seq<(String, Json)>, key: Seq<char>) -> Json
    decreases members.len(),
{
    if members.len() == 0 {
        Json::Null
    } else if members[0].0@ == key {
        members[0].1
    } else {
        pick(members.drop_first(), key)
    }
}

impl Json {
    /// `self[key]`: the member's value, or `Null` where there is none.
    pub open spec fn at(self, key: Seq<char>) -> Json {
        match self {
            Json::Object(m) => pick(m@, key),
            _ => Json::Null,
        }
    }

    /// `self[i]`: the element, or `Null` where there is none.
    pub open spec fn nth(self, i: int) -> Json {
        match self {
            Json::Array(v) => if 0 <= i < v@.len() {
                v@[i]
            } else {
                Json::Null
            },
            _ => Json::Null,
        }
    }

    /// `as_str`.
    pub open spec fn str_of(self) -> Option<Seq<char>> {
        match self {
            Json::Str(s) => Some(s@),
            _ => None,
        }
    }

    /// `as_u64`.
    pub open spec fn u64_of(self) -> Option<u64> {
        match self {
            Json::Num(n) => n,
            _ => None,
        }
    }

    /// `as_bool`.
    pub open spec fn bool_of(self) -> Option<bool> {
        match self {
            Json::Bool(b) => Some(b),
            _ => None,
        }
    }

    /// `as_array`.
    pub open spec fn array_of(self) -> Option<Seq<Json>> {
        match self {
            Json::Array(v) => Some(v@),
            _ => None,
        }
    }

    /// The elements where `self` is an array, and none otherwise
    /// (`as_array().into_iter().flatten()`).
    pub open spec fn elements(self) -> Seq<Json> {
        match self {
            Json::Array(v) => v@,
            _ => seq![],
        }
    }
}

/// The value that an optional reference stands for: `Null` for none.
pub open spec fn value(j: Option<&Json>) -> Json {
    match j {
        Some(v) => *v,
        None => Json::Null,
    }
}

/// `j[key]` (`serde_json`'s `Index<&str>`).
pub fn field<'a>(j: Option<&'a Json>, key: &str) -> (r: Option<&'a Json>)
    ensures
        value(r) == value(j).at(key@),
{
    match j {
        Some(Json::Object(m)) => {
            let mut i: usize = 0;
            assert(m@.skip(0) =~= m@);
            assert(value(j).at(key@) == pick(m@, key@));
            while i < m.len()
                invariant
                    i <= m@.len(),
                    value(j).at(key@) == pick(m@, key@),
                    pick(m@, key@) == pick(m@.skip(i as int), key@),
                decreases m@.len() - i,
            {
                let ghost rest = m@.skip(i as int);
                assert(rest[0] == m@[i as int]);
                assert(rest.drop_first() =~= m@.skip(i + 1));
                if text_is(&m[i].0, key) {
                    assert(rest.len() > 0 && rest[0].0@ == key@);
                    assert(pick(rest, key@) == rest[0].1);
                    return Some(&m[i].1);
                }
                i = i + 1;
            }
            None
        },
        _ => None,
    }
}

/// `j[i]` (`serde_json`'s `Index<usize>`).
pub fn element<'a>(j: Option<&'a Json>, i: usize) -> (r: Option<&'a Json>)
    ensures
        value(r) == value(j).nth(i as int),
{
    match j {
        Some(Json::Array(v)) => if i < v.len() {
            Some(&v[i])
        } else {
            None
        },
        _ => None,
    }
}

/// `as_str`.
pub fn text<'a>(j: Option<&'a Json>) -> (r: Option<&'a String>)
    ensures
        r matches Some(s) ==> value(j).str_of() == Some(s@),
        r is None ==> value(j).str_of() is None,
{
    match j {
        Some(Json::Str(s)) => Some(s),
        _ => None,
    }
}

/// `as_u64`.
pub fn number(j: Option<&Json>) -> (r: Option<u64>)
    ensures
        r == value(j).u64_of(),
{
    match j {
        Some(Json::Num(n)) => *n,
        _ => None,
    }
}

/// `as_bool`.
pub fn flag(j: Option<&Json>) -> (r: Option<bool>)
    ensures
        r == value(j).bool_of(),
{
    match j {
        Some(Json::Bool(b)) => Some(*b),
        _ => None,
    }
}

/// `as_array`.
pub fn list<'a>(j: Option<&'a Json>) -> (r: Option<&'a Vec<Json>>)
    ensures
        r matches Some(v) ==> value(j).array_of() == Some(v@),
        r is None ==> value(j).array_of() is None,
{
    match j {
        Some(Json::Array(v)) => Some(v),
        _ => None,
    }
}

/// Whether `j` is `Null`.
pub fn is_null(j: Option<&Json>) -> (r: bool)
    ensures
        r == (value(j) is Null),
{
    match j {
        Some(Json::Null) => true,
        None => true,
        _ => false,
    }
}

} // verus!
