//! The library's model of a decoded JSON document.
//!
//! Bridge responses arrive as JSON; the transport layer turns the raw
//! body into this tree of plain values before the protocol logic reads
//! it.  Numbers are fixed-point values with seven decimal places
//! (`fixed::SCALE` stands for 1.0); objects keep their members in
//! document order, and a lookup takes the first binding of a key.

use vstd::prelude::*;

verus! {

/// A decoded JSON value.
#[derive(Debug)]
pub enum JsonValue {
    Null,
    Bool(bool),
    /// A number, in fixed point (`fixed::SCALE` stands for 1.0).
    Num(i64),
    Str(String),
    Arr(Vec<JsonValue>),
    Obj(Vec<(String, JsonValue)>),
}

/// First value bound to `key` among an object's members, if any.
pub open spec fn spec_lookup(members: Seq<(String, JsonValue)>, key: Seq<char>) -> Option<
    JsonValue,
>
    decreases members.len(),
{
    if members.len() == 0 {
        None
    } else if members[0].0@ == key {
        Some(members[0].1)
    } else {
        spec_lookup(members.skip(1), key)
    }
}

/// Member of `v` under `key`: `None` when `v` is not an object or has
/// no such member.
pub open spec fn spec_get(v: JsonValue, key: Seq<char>) -> Option<JsonValue> {
    match v {
        JsonValue::Obj(members) => spec_lookup(members@, key),
        _ => None,
    }
}

impl JsonValue {
    /// Look up a member of an object by key; `None` for a missing key
    /// or for a value that is not an object.
    pub fn get<'a>(&'a self, key: &str) -> (res: Option<&'a JsonValue>)
        ensures
            match res {
                Some(m) => spec_get(*self, key@) == Some(*m),
                None => spec_get(*self, key@) is None,
            },
    {
        match self {
            JsonValue::Obj(members) => {
                let needle: String = String::from_str(key);
                let n: usize = members.len();
                let mut i: usize = 0;
                proof {
                    assert(members@.skip(0) =~= members@);
                }
                while i < n
                    invariant
                        *self is Obj,
                        self->Obj_0 == *members,
                        i <= n,
                        n == members@.len(),
                        needle@ == key@,
                        spec_lookup(members@, key@) == spec_lookup(
                            members@.skip(i as int),
                            key@,
                        ),
                    decreases n - i,
                {
                    if members[i].0 == needle {
                        proof {
                            assert(members@.skip(i as int)[0] == members@[i as int]);
                            assert(spec_lookup(members@.skip(i as int), key@) == Some(
                                members@[i as int].1,
                            ));
                            assert(spec_get(*self, key@) == spec_lookup(members@, key@));
                        }
                        return Some(&members[i].1);
                    }
                    proof {
                        assert(members@.skip(i as int).skip(1) =~= members@.skip(i as int + 1));
                    }
                    i += 1;
                }
                None
            },
            _ => None,
        }
    }
}

} // verus!
