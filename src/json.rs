use vstd::prelude::*;

verus! {

/// A decoded JSON document, holding what the schema checks read.
pub enum Json {
    Null,
    Bool(bool),
    /// An integer (JSON numbers without fraction or exponent).
    Int(i128),
    /// Any other number; its value is never read here.
    Fractional,
    Str(String),
    Array(Vec<Json>),
    /// The members of an object, in document order.
    Object(Vec<(String, Json)>),
}

/// The value of the first member named `key`, if any.
pub open spec fn member(fields: Seq<(String, Json)>, key: Seq<char>) -> Option<Json>
    decreases fields.len(),
{
    if fields.len() == 0 {
        None
    } else if fields[0].0@ == key {
        Some(fields[0].1)
    } else {
        member(fields.drop_first(), key)
    }
}

/// The member `key` of `v`, where `v` is an object that has one.
pub open spec fn get(v: Json, key: Seq<char>) -> Option<Json> {
    match v {
        Json::Object(fields) => member(fields@, key),
        _ => None,
    }
}

/// The value of an integer that fits in the range `lo..=hi`.
pub open spec fn int_in(v: Json, lo: int, hi: int) -> Option<int> {
    match v {
        Json::Int(n) => if lo <= n <= hi { Some(n as int) } else { None },
        _ => None,
    }
}

/// Finds the first member of an object named `key`.
pub fn find_member<'a>(fields: &'a Vec<(String, Json)>, key: &str) -> (r: Option<&'a Json>)
    ensures
        match r {
            Some(v) => member(fields@, key@) == Some(*v),
            None => member(fields@, key@) is None,
        },
{
    let k = key.to_owned();
    let mut i: usize = 0;
    assert(fields@.skip(0) =~= fields@);
    while i < fields.len()
        invariant
            0 <= i <= fields.len(),
            k@ == key@,
            member(fields@, key@) == member(fields@.skip(i as int), key@),
        decreases fields.len() - i,
    {
        if fields[i].0 == k {
            return Some(&fields[i].1);
        }
        assert(fields@.skip(i as int).drop_first() =~= fields@.skip(i + 1));
        i = i + 1;
    }
    assert(fields@.skip(i as int).len() == 0);
    None
}

impl Json {
    /// The member `key` of this value, where it is an object that has one.
    pub fn get_member(&self, key: &str) -> (r: Option<&Json>)
        ensures
            match r {
                Some(v) => get(*self, key@) == Some(*v),
                None => get(*self, key@) is None,
            },
    {
        match self {
            Json::Object(fields) => find_member(fields, key),
            _ => None,
        }
    }
}

} // verus!
