//! JSON documents as the registry answers with them.

use vstd::prelude::*;

verus! {

/// A JSON value. A number is kept as the text that denotes it; the members
/// of an object are kept in the order in which they were handed over.
#[derive(Debug, PartialEq, Eq)]
pub enum JsonValue {
    Null,
    Bool(bool),
    Number(String),
    String(String),
    Array(Vec<JsonValue>),
    Object(Vec<(String, JsonValue)>),
}

/// The members of an object; a value that is no object has none.
pub open spec fn members_of(value: JsonValue) -> Seq<(String, JsonValue)> {
    match value {
        JsonValue::Object(members) => members@,
        _ => Seq::empty(),
    }
}

/// The value of the first of `members` that is called `key`, and `Null`
/// where there is none.
pub open spec fn lookup(members: Seq<(String, JsonValue)>, key: Seq<char>) -> JsonValue
    decreases members.len(),
{
    if members.len() == 0 {
        JsonValue::Null
    } else if members[0].0@ == key {
        members[0].1
    } else {
        lookup(members.drop_first(), key)
    }
}

/// The member `key` of `value`: `Null` where `value` is no object or has no
/// such member.
pub open spec fn member(value: JsonValue, key: Seq<char>) -> JsonValue {
    lookup(members_of(value), key)
}

/// The text of a JSON string, and nothing for any other value.
pub open spec fn text_of(value: JsonValue) -> Option<Seq<char>> {
    match value {
        JsonValue::String(text) => Some(text@),
        _ => None,
    }
}

/// The truth value of a JSON boolean, and nothing for any other value.
pub open spec fn flag_of(value: JsonValue) -> Option<bool> {
    match value {
        JsonValue::Bool(flag) => Some(flag),
        _ => None,
    }
}

impl JsonValue {
    /// The member `key` of an object, if `self` is an object that has one.
    /// An absent result stands for `Null`.
    pub fn get(&self, key: &str) -> (found: Option<&JsonValue>)
        ensures
            match found {
                Some(value) => *value == member(*self, key@),
                None => member(*self, key@) == JsonValue::Null,
            },
    {
        match self {
            JsonValue::Object(members) => {
                let ghost all = members@;
                let wanted = String::from_str(key);
                let mut i: usize = 0;
                assert(all.skip(0) =~= all);
                while i < members.len()
                    invariant
                        i <= members.len(),
                        all == members@,
                        all == members_of(*self),
                        wanted@ == key@,
                        lookup(all, key@) == lookup(all.skip(i as int), key@),
                    decreases members.len() - i,
                {
                    proof {
                        let rest = all.skip(i as int);
                        assert(rest[0] == all[i as int]);
                        assert(rest.drop_first() =~= all.skip(i + 1));
                    }
                    if members[i].0 == wanted {
                        return Some(&members[i].1);
                    }
                    i += 1;
                }
                None
            },
            _ => None,
        }
    }

    /// The members of an object, in order.
    pub fn as_object(&self) -> (found: Option<&Vec<(String, JsonValue)>>)
        ensures
            match found {
                Some(members) => *self == JsonValue::Object(*members),
                None => !(self is Object),
            },
    {
        match self {
            JsonValue::Object(members) => Some(members),
            _ => None,
        }
    }

    /// The text of a string.
    pub fn as_str(&self) -> (found: Option<&String>)
        ensures
            match found {
                Some(text) => text_of(*self) == Some(text@),
                None => text_of(*self) is None,
            },
    {
        match self {
            JsonValue::String(text) => Some(text),
            _ => None,
        }
    }

    /// The truth value of a boolean.
    pub fn as_bool(&self) -> (found: Option<bool>)
        ensures
            found == flag_of(*self),
    {
        match self {
            JsonValue::Bool(flag) => Some(*flag),
            _ => None,
        }
    }
}

} // verus!
