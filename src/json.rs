//! A JSON document as a tree of plain values, and the lookups the extractor
//! makes on it.
use vstd::prelude::*;

verus! {

/// A JSON value. Numbers keep their decimal text; an object keeps its members
/// in order, and a lookup finds the first member of a name.
#[derive(Debug)]
pub enum Json {
    Null,
    Bool(bool),
    Number(String),
    Str(String),
    Array(Vec<Json>),
    Object(Vec<(String, Json)>),
}

/// The value of the first member of `m` named `key`.
pub open spec fn lookup(m: Seq<(String, Json)>, key: Seq<char>) -> Option<Json>
    decreases m.len(),
{
    if m.len() == 0 {
        None
    } else if m[0].0@ == key {
        Some(m[0].1)
    } else {
        lookup(m.drop_first(), key)
    }
}

impl Json {
    /// The member `key` of an object; `None` for a missing member or for a
    /// value that is not an object.
    pub open spec fn field(self, key: Seq<char>) -> Option<Json> {
        match self {
            Json::Object(m) => lookup(m@, key),
            _ => None,
        }
    }

    /// The characters of a string value; empty for any other value.
    pub open spec fn text(self) -> Seq<char> {
        match self {
            Json::Str(s) => s@,
            _ => Seq::empty(),
        }
    }

    /// The member `key` of an object.
    pub fn get(&self, key: &str) -> (r: Option<&Json>)
        ensures
            match self.field(key@) {
                Some(v) => r is Some && *r->0 == v,
                None => r is None,
            },
    {
        match self {
            Json::Object(m) => {
                let k = String::from_str(key);
                let mut i: usize = 0;
                assert(m@.skip(0) =~= m@);
                while i < m.len()
                    invariant
                        i <= m@.len(),
                        k@ == key@,
                        self.field(key@) == lookup(m@.skip(i as int), key@),
                    decreases m@.len() - i,
                {
                    assert(m@.skip(i as int).drop_first() =~= m@.skip(i as int + 1));
                    assert(m@.skip(i as int)[0] == m@[i as int]);
                    if m[i].0 == k {
                        return Some(&m[i].1);
                    }
                    i = i + 1;
                }
                assert(m@.skip(i as int).len() == 0);
                None
            },
            _ => None,
        }
    }

    /// The elements of an array.
    pub fn as_array(&self) -> (r: Option<&Vec<Json>>)
        ensures
            match *self {
                Json::Array(a) => r is Some && *r->0 == a,
                _ => r is None,
            },
    {
        match self {
            Json::Array(a) => Some(a),
            _ => None,
        }
    }
}

/// The text of the member `field_name` of `value`, which must be there: a
/// member that is not a string reads as empty text.
pub fn get_field_as_string(value: &Json, field_name: &str) -> (r: String)
    requires
        value.field(field_name@) is Some,
    ensures
        r@ == value.field(field_name@)->0.text(),
{
    match value.get(field_name) {
        Some(Json::Str(s)) => s.clone(),
        _ => String::new(),
    }
}

} // verus!
