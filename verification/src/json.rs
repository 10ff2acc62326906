//! A JSON value as packet bodies carry it. Numbers keep their textual form,
//! so a value read from the wire comes back out unchanged.

use vstd::prelude::*;

verus! {

broadcast use vstd::string::group_string_axioms;

pub enum JsonValue {
    Null,
    Bool(bool),
    /// A number in its JSON text form.
    Number(String),
    Str(String),
    Array(Vec<JsonValue>),
    /// Members in order; keys are distinct in a value read from the wire.
    Object(Vec<(String, JsonValue)>),
}

/// Index of the first member of `members` whose key is `key`.
pub open spec fn member_index(members: Seq<(String, JsonValue)>, key: Seq<char>) -> Option<int>
    decreases members.len(),
{
    if members.len() == 0 {
        None
    } else if members[0].0@ == key {
        Some(0)
    } else {
        match member_index(members.drop_first(), key) {
            Some(i) => Some(i + 1),
            None => None,
        }
    }
}

pub proof fn lemma_member_index(members: Seq<(String, JsonValue)>, key: Seq<char>)
    ensures
        match member_index(members, key) {
            Some(i) => 0 <= i < members.len() && members[i].0@ == key && forall|j: int|
                0 <= j < i ==> members[j].0@ != key,
            None => forall|j: int| 0 <= j < members.len() ==> members[j].0@ != key,
        },
    decreases members.len(),
{
    if members.len() > 0 && members[0].0@ != key {
        lemma_member_index(members.drop_first(), key);
        let rest = members.drop_first();
        match member_index(rest, key) {
            Some(i) => {
                assert forall|j: int| 0 <= j < i + 1 implies members[j].0@ != key by {
                    if j > 0 {
                        assert(members[j] == rest[j - 1]);
                    }
                }
            },
            None => {
                assert forall|j: int| 0 <= j < members.len() implies members[j].0@ != key by {
                    if j > 0 {
                        assert(members[j] == rest[j - 1]);
                    }
                }
            },
        }
    }
}

proof fn lemma_member_index_unique(members: Seq<(String, JsonValue)>, key: Seq<char>, i: int)
    requires
        0 <= i <= members.len(),
        i < members.len() ==> members[i].0@ == key,
        forall|j: int| 0 <= j < i ==> members[j].0@ != key,
    ensures
        member_index(members, key) == (if i < members.len() {
            Some(i)
        } else {
            None
        }),
{
    lemma_member_index(members, key);
    match member_index(members, key) {
        Some(k) => {
            if k > i {
                assert(members[i].0@ == key);
            }
        },
        None => {
            if i < members.len() {
                assert(members[i].0@ == key);
            }
        },
    }
}

/// The member `key` of an object; `None` for a missing key or a value that
/// is not an object, as `serde_json::Value::get` answers.
pub open spec fn json_get(v: JsonValue, key: Seq<char>) -> Option<JsonValue> {
    match v {
        JsonValue::Object(members) => match member_index(members@, key) {
            Some(i) => Some(members@[i].1),
            None => None,
        },
        _ => None,
    }
}

impl JsonValue {
    /// The member `key` of an object.
    pub fn get(&self, key: &str) -> (r: Option<&JsonValue>)
        ensures
            match r {
                Some(x) => json_get(*self, key@) == Some(*x),
                None => json_get(*self, key@) is None,
            },
    {
        match self {
            JsonValue::Object(members) => {
                let wanted: String = key.to_string();
                let mut i: usize = 0;
                while i < members.len()
                    invariant
                        i <= members@.len(),
                        wanted@ == key@,
                        *self == JsonValue::Object(*members),
                        forall|j: int| 0 <= j < i ==> members@[j].0@ != key@,
                    decreases members.len() - i,
                {
                    if members[i].0 == wanted {
                        proof {
                            lemma_member_index_unique(members@, key@, i as int);
                            assert(json_get(*self, key@) == Some(members@[i as int].1));
                        }
                        let found = &members[i];
                        assert(*found == members@[i as int]);
                        return Some(&found.1);
                    }
                    i += 1;
                }
                proof {
                    lemma_member_index_unique(members@, key@, i as int);
                }
                None
            },
            _ => None,
        }
    }

    /// The items of an array.
    pub fn as_array(&self) -> (r: Option<&Vec<JsonValue>>)
        ensures
            match *self {
                JsonValue::Array(items) => r == Some(&items),
                _ => r is None,
            },
    {
        match self {
            JsonValue::Array(items) => Some(items),
            _ => None,
        }
    }

    /// The text of a string.
    pub fn as_str(&self) -> (r: Option<&str>)
        ensures
            match *self {
                JsonValue::Str(s) => r matches Some(t) && t@ == s@,
                _ => r is None,
            },
    {
        match self {
            JsonValue::Str(s) => Some(s.as_str()),
            _ => None,
        }
    }
}

} // verus!
