//! The members of a JSON object body, as far as the payloads read them.
use vstd::prelude::*;

verus! {

/// The value of a member of a JSON object: a boolean, a string, or anything
/// else, which no payload here reads.
#[derive(Clone, Debug, PartialEq, Eq)]
pub enum JsonValue {
    Bool(bool),
    Text(String),
    Other,
}

/// The mathematical value of a `JsonValue`.
pub enum JsonScalar {
    Bool(bool),
    Text(Seq<char>),
    Other,
}

impl View for JsonValue {
    type V = JsonScalar;

    open spec fn view(&self) -> JsonScalar {
        match self {
            JsonValue::Bool(b) => JsonScalar::Bool(*b),
            JsonValue::Text(t) => JsonScalar::Text(t@),
            JsonValue::Other => JsonScalar::Other,
        }
    }
}

/// The members of a JSON object as keys and values.
pub type Members = Seq<(Seq<char>, JsonScalar)>;

/// The mathematical value of a list of members.
pub open spec fn members_view(m: Seq<(String, JsonValue)>) -> Members {
    m.map_values(|p: (String, JsonValue)| (p.0@, p.1@))
}

/// The members of the JSON object that `body` holds, in the order in which
/// serde_json's map lists them. `None` where `body` is not a JSON object.
pub uninterp spec fn json_object_members(body: Seq<u8>) -> Option<Members>;

/// Relies on serde_json::from_slice into a serde_json::Map, which succeeds
/// exactly where the bytes are one JSON object and lists its members in an
/// order that the keys alone decide.
#[verifier::external_body]
fn object_members(body: &[u8]) -> (r: Option<Vec<(String, JsonValue)>>)
    ensures
        r is None ==> json_object_members(body@) is None,
        r matches Some(m) ==> json_object_members(body@) == Some(members_view(m@)),
{
    let map = serde_json::from_slice::<serde_json::Map<String, serde_json::Value>>(body).ok()?;
    Some(map.into_iter().map(|(k, v)| match v {
        serde_json::Value::Bool(b) => (k, JsonValue::Bool(b)),
        serde_json::Value::String(t) => (k, JsonValue::Text(t)),
        _ => (k, JsonValue::Other),
    }).collect())
}

/// The value of the first member named `key`, if any.
pub open spec fn member(m: Members, key: Seq<char>) -> Option<JsonScalar>
    decreases m.len(),
{
    if m.len() == 0 {
        None
    } else if m[0].0 == key {
        Some(m[0].1)
    } else {
        member(m.drop_first(), key)
    }
}

/// The value of the boolean member named `key`, if there is one.
pub open spec fn bool_member(m: Members, key: Seq<char>) -> Option<bool> {
    match member(m, key) {
        Some(JsonScalar::Bool(b)) => Some(b),
        _ => None,
    }
}

/// The value of the string member named `key`, if there is one.
pub open spec fn text_member(m: Members, key: Seq<char>) -> Option<Seq<char>> {
    match member(m, key) {
        Some(JsonScalar::Text(t)) => Some(t),
        _ => None,
    }
}

/// A JSON object body read into its members.
#[derive(Clone, Debug, PartialEq, Eq)]
pub struct JsonObject {
    pub members: Vec<(String, JsonValue)>,
}

impl JsonObject {
    /// The members of the object.
    pub open spec fn view_members(&self) -> Members {
        members_view(self.members@)
    }

    /// Reads `body` as a JSON object; `None` where it is not one.
    pub fn parse(body: &[u8]) -> (r: Option<JsonObject>)
        ensures
            r is None ==> json_object_members(body@) is None,
            r matches Some(o) ==> json_object_members(body@) == Some(o.view_members()),
    {
        match object_members(body) {
            Some(members) => Some(JsonObject { members }),
            None => None,
        }
    }

    /// The value of the first member named `key`, if any.
    pub fn get(&self, key: &str) -> (r: Option<&JsonValue>)
        ensures
            r matches Some(v) ==> member(self.view_members(), key@) == Some(v@),
            r is None ==> member(self.view_members(), key@) is None,
    {
        let wanted = key.to_owned();
        let ghost m = self.view_members();
        let mut i: usize = 0;
        assert(m.subrange(0, m.len() as int) =~= m);
        while i < self.members.len()
            invariant
                i <= self.members@.len(),
                m == self.view_members(),
                wanted@ == key@,
                member(m, key@) == member(m.subrange(i as int, m.len() as int), key@),
            decreases self.members@.len() - i,
        {
            proof {
                assert(m.subrange(i as int, m.len() as int).drop_first() =~= m.subrange(
                    i + 1,
                    m.len() as int,
                ));
            }
            let (k, v) = &self.members[i];
            assert(m[i as int] == (k@, v@));
            assert(m.subrange(i as int, m.len() as int)[0] == m[i as int]);
            if *k == wanted {
                return Some(v);
            }
            i = i + 1;
        }
        None
    }

    /// The value of the boolean member named `key`, if there is one.
    pub fn get_bool(&self, key: &str) -> (r: Option<bool>)
        ensures
            r == bool_member(self.view_members(), key@),
    {
        match self.get(key) {
            Some(JsonValue::Bool(b)) => Some(*b),
            _ => None,
        }
    }

    /// The value of the string member named `key`, if there is one.
    pub fn get_text(&self, key: &str) -> (r: Option<&String>)
        ensures
            r matches Some(t) ==> text_member(self.view_members(), key@) == Some(t@),
            r is None ==> text_member(self.view_members(), key@) is None,
    {
        match self.get(key) {
            Some(JsonValue::Text(t)) => Some(t),
            _ => None,
        }
    }
}

} // verus!
