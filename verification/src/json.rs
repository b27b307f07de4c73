//! The JSON values that the contracts carry (output schemas and structured
//! output), and the structured-output schema rule.

use vstd::prelude::*;
use vstd::std_specs::cmp::PartialEqSpecImpl;

use vstd::string::StringExecFns;

use crate::text::str_eq;

verus! {

/// A JSON value. Numbers keep their JSON text; object members keep their
/// order and, as parsed from the wire, have distinct keys (see
/// `JsonValue::keys_distinct`). Objects compare as maps, whatever that
/// order (see `JsonValue::same`).
#[derive(Debug)]
pub enum JsonValue {
    Null,
    Bool(bool),
    Number(String),
    String(String),
    Array(Vec<JsonValue>),
    Object(Vec<(String, JsonValue)>),
}

/// The value of the first member named `key`, if any.
pub open spec fn member_value(members: Seq<(String, JsonValue)>, key: Seq<char>) -> Option<JsonValue>
    decreases members.len(),
{
    if members.len() == 0 {
        None
    } else if members[0].0@ == key {
        Some(members[0].1)
    } else {
        member_value(members.drop_first(), key)
    }
}

/// Member `i` is the first with its key, the one a lookup finds.
pub open spec fn first_with_key(members: Seq<(String, JsonValue)>, i: int) -> bool {
    forall|j: int| 0 <= j < i ==> (#[trigger] members[j]).0@ != members[i].0@
}

fn is_first_with_key(members: &Vec<(String, JsonValue)>, i: usize) -> (res: bool)
    requires
        i < members@.len(),
    ensures
        res == first_with_key(members@, i as int),
{
    let mut j: usize = 0;
    while j < i
        invariant
            i < members@.len(),
            j <= i,
            forall|k: int| 0 <= k < j ==> (#[trigger] members@[k]).0@ != members@[i as int].0@,
        decreases i - j,
    {
        if str_eq(members[j].0.as_str(), members[i].0.as_str()) {
            return false;
        }
        j = j + 1;
    }
    true
}

/// The member found under the key of the first member with that key is that
/// member.
pub proof fn lemma_first_member_found(members: Seq<(String, JsonValue)>, i: int)
    requires
        0 <= i < members.len(),
        first_with_key(members, i),
    ensures
        member_value(members, members[i].0@) == Some(members[i].1),
    decreases i,
{
    if i > 0 {
        let rest = members.drop_first();
        assert(members[0].0@ != members[i].0@);
        assert(rest[i - 1] == members[i]);
        assert(first_with_key(rest, i - 1)) by {
            assert forall|j: int| 0 <= j < i - 1 implies (#[trigger] rest[j]).0@ != rest[i - 1].0@ by {
                assert(rest[j] == members[j + 1]);
            }
        }
        lemma_first_member_found(rest, i - 1);
    }
}

impl JsonValue {
    pub open spec fn is_object(&self) -> bool {
        self is Object
    }

    /// Same JSON content. Arrays compare element by element; objects compare
    /// as maps, whatever the order of their members: as many members, every
    /// key of either found in the other, and under each key the same value.
    pub open spec fn same(&self, other: &JsonValue) -> bool
        decreases *self,
    {
        match (*self, *other) {
            (JsonValue::Null, JsonValue::Null) => true,
            (JsonValue::Bool(a), JsonValue::Bool(b)) => a == b,
            (JsonValue::Number(a), JsonValue::Number(b)) => a@ == b@,
            (JsonValue::String(a), JsonValue::String(b)) => a@ == b@,
            (JsonValue::Array(a), JsonValue::Array(b)) => a@.len() == b@.len() && forall|i: int|
                0 <= i < a@.len() ==> (#[trigger] a@[i]).same(&b@[i]),
            (JsonValue::Object(a), JsonValue::Object(b)) => {
                &&& a@.len() == b@.len()
                &&& forall|i: int|
                    0 <= i < a@.len() ==> match member_value(b@, (#[trigger] a@[i]).0@) {
                        Some(w) => first_with_key(a@, i) ==> a@[i].1.same(&w),
                        None => false,
                    }
                &&& forall|j: int| 0 <= j < b@.len() ==> member_value(a@, (#[trigger] b@[j]).0@) is Some
            },
            _ => false,
        }
    }

    pub fn is_same_json(&self, other: &JsonValue) -> (res: bool)
        ensures
            res == self.same(other),
        decreases self,
    {
        match (self, other) {
            (JsonValue::Null, JsonValue::Null) => true,
            (JsonValue::Bool(a), JsonValue::Bool(b)) => *a == *b,
            (JsonValue::Number(a), JsonValue::Number(b)) => str_eq(a.as_str(), b.as_str()),
            (JsonValue::String(a), JsonValue::String(b)) => str_eq(a.as_str(), b.as_str()),
            (JsonValue::Array(a), JsonValue::Array(b)) => {
                if a.len() != b.len() {
                    return false;
                }
                let mut i: usize = 0;
                assert(decreases_to!(*self => *a));
                while i < a.len()
                    invariant
                        decreases_to!(*self => *a),
                        *self == JsonValue::Array(*a),
                        *other == JsonValue::Array(*b),
                        a@.len() == b@.len(),
                        i <= a@.len(),
                        forall|j: int| 0 <= j < i ==> (#[trigger] a@[j]).same(&b@[j]),
                    decreases a@.len() - i,
                {
                    proof {
                        assert(decreases_to!(*a => a@));
                        assert(decreases_to!(a@ => a@[i as int]));
                    }
                    if !a[i].is_same_json(&b[i]) {
                        return false;
                    }
                    i = i + 1;
                }
                true
            },
            (JsonValue::Object(a), JsonValue::Object(b)) => {
                if a.len() != b.len() {
                    return false;
                }
                let mut i: usize = 0;
                assert(decreases_to!(*self => *a));
                while i < a.len()
                    invariant
                        decreases_to!(*self => *a),
                        *self == JsonValue::Object(*a),
                        *other == JsonValue::Object(*b),
                        a@.len() == b@.len(),
                        i <= a@.len(),
                        forall|j: int|
                            0 <= j < i ==> match member_value(b@, (#[trigger] a@[j]).0@) {
                                Some(w) => first_with_key(a@, j) ==> a@[j].1.same(&w),
                                None => false,
                            },
                    decreases a@.len() - i,
                {
                    match get_member(b, a[i].0.as_str()) {
                        None => {
                            return false;
                        },
                        Some(w) => {
                            if is_first_with_key(a, i) {
                                proof {
                                    assert(decreases_to!(*a => a@));
                                    assert(decreases_to!(a@ => a@[i as int]));
                                    assert(decreases_to!(a@[i as int] => a@[i as int].1));
                                }
                                if !a[i].1.is_same_json(w) {
                                    return false;
                                }
                            }
                        },
                    }
                    i = i + 1;
                }
                let mut j: usize = 0;
                while j < b.len()
                    invariant
                        *self == JsonValue::Object(*a),
                        *other == JsonValue::Object(*b),
                        a@.len() == b@.len(),
                        j <= b@.len(),
                        forall|k: int|
                            0 <= k < a@.len() ==> match member_value(b@, (#[trigger] a@[k]).0@) {
                                Some(w) => first_with_key(a@, k) ==> a@[k].1.same(&w),
                                None => false,
                            },
                        forall|k: int| 0 <= k < j ==> member_value(a@, (#[trigger] b@[k]).0@) is Some,
                    decreases b@.len() - j,
                {
                    if get_member(a, b[j].0.as_str()).is_none() {
                        return false;
                    }
                    j = j + 1;
                }
                true
            },
            _ => false,
        }
    }

    /// A copy with the same content.
    pub fn deep_copy(&self) -> (res: JsonValue)
        ensures
            res.same(self),
        decreases self,
    {
        match self {
            JsonValue::Null => JsonValue::Null,
            JsonValue::Bool(b) => JsonValue::Bool(*b),
            JsonValue::Number(n) => JsonValue::Number(n.clone()),
            JsonValue::String(t) => JsonValue::String(t.clone()),
            JsonValue::Array(a) => {
                let mut out: Vec<JsonValue> = Vec::new();
                let mut i: usize = 0;
                assert(decreases_to!(*self => *a));
                while i < a.len()
                    invariant
                        decreases_to!(*self => *a),
                        *self == JsonValue::Array(*a),
                        i <= a@.len(),
                        out@.len() == i,
                        forall|j: int| 0 <= j < i ==> (#[trigger] out@[j]).same(&a@[j]),
                    decreases a@.len() - i,
                {
                    proof {
                        assert(decreases_to!(*a => a@));
                        assert(decreases_to!(a@ => a@[i as int]));
                    }
                    out.push(a[i].deep_copy());
                    i = i + 1;
                }
                JsonValue::Array(out)
            },
            JsonValue::Object(a) => {
                let mut out: Vec<(String, JsonValue)> = Vec::new();
                let mut i: usize = 0;
                assert(decreases_to!(*self => *a));
                while i < a.len()
                    invariant
                        decreases_to!(*self => *a),
                        *self == JsonValue::Object(*a),
                        i <= a@.len(),
                        out@.len() == i,
                        forall|j: int|
                            0 <= j < i ==> (#[trigger] out@[j]).0@ == a@[j].0@ && out@[j].1.same(
                                &a@[j].1,
                            ),
                    decreases a@.len() - i,
                {
                    proof {
                        assert(decreases_to!(*a => a@));
                        assert(decreases_to!(a@ => a@[i as int]));
                        assert(decreases_to!(a@[i as int] => a@[i as int].1));
                    }
                    out.push((a[i].0.clone(), a[i].1.deep_copy()));
                    i = i + 1;
                }
                let res = JsonValue::Object(out);
                proof {
                    lemma_members_compare_alike(res, *self);
                }
                res
            },
        }
    }

    pub fn is_json_object(&self) -> (res: bool)
        ensures
            res == self.is_object(),
    {
        matches!(self, JsonValue::Object(_))
    }
}

/// Every JSON value has the same content as itself.
pub proof fn lemma_same_json_reflexive(v: JsonValue)
    ensures
        v.same(&v),
    decreases v,
{
    match v {
        JsonValue::Array(a) => {
            assert forall|i: int| 0 <= i < a@.len() implies (#[trigger] a@[i]).same(&a@[i]) by {
                assert(decreases_to!(v => a));
                assert(decreases_to!(a => a@));
                assert(decreases_to!(a@ => a@[i]));
                lemma_same_json_reflexive(a@[i]);
            }
        },
        JsonValue::Object(a) => {
            assert forall|i: int| 0 <= i < a@.len() implies a@[i].1.same(&a@[i].1) by {
                assert(decreases_to!(v => a));
                assert(decreases_to!(a => a@));
                assert(decreases_to!(a@ => a@[i]));
                assert(decreases_to!(a@[i] => a@[i].1));
                lemma_same_json_reflexive(a@[i].1);
            }
            lemma_members_compare_alike(v, v);
        },
        _ => {},
    }
}

/// Objects whose members have the same keys in the same places and values
/// with the same content there have the same content.
pub proof fn lemma_members_compare_alike(x: JsonValue, y: JsonValue)
    requires
        x matches JsonValue::Object(a) && y matches JsonValue::Object(b) && a@.len() == b@.len()
            && forall|i: int|
            0 <= i < a@.len() ==> (#[trigger] a@[i]).0@ == b@[i].0@ && a@[i].1.same(&b@[i].1),
    ensures
        x.same(&y),
{
    if let (JsonValue::Object(a), JsonValue::Object(b)) = (x, y) {
        assert forall|i: int| 0 <= i < a@.len() implies match member_value(b@, (#[trigger] a@[i]).0@) {
            Some(w) => first_with_key(a@, i) ==> a@[i].1.same(&w),
            None => false,
        } by {
            lemma_member_absent(b@, a@[i].0@);
            assert(b@[i].0@ == a@[i].0@);
            if first_with_key(a@, i) {
                assert(first_with_key(b@, i)) by {
                    assert forall|j: int| 0 <= j < i implies (#[trigger] b@[j]).0@ != b@[i].0@ by {
                        assert(a@[j].0@ == b@[j].0@);
                    }
                }
                lemma_first_member_found(b@, i);
            }
        }
        assert forall|j: int| 0 <= j < b@.len() implies member_value(a@, (#[trigger] b@[j]).0@) is Some by {
            lemma_member_absent(a@, b@[j].0@);
            assert(a@[j].0@ == b@[j].0@);
        }
    }
}

/// Objects keyed once whose members pair up by key, in any order, with
/// values of the same content have the same content, as maps do.
pub proof fn lemma_objects_same_in_any_order(x: JsonValue, y: JsonValue)
    requires
        x matches JsonValue::Object(a) && y matches JsonValue::Object(b) && a@.len() == b@.len()
            && member_keys_distinct(a@) && member_keys_distinct(b@) && (forall|i: int|
            0 <= i < a@.len() ==> exists|j: int|
                0 <= j < b@.len() && (#[trigger] a@[i]).0@ == (#[trigger] b@[j]).0@ && a@[i].1.same(
                    &b@[j].1,
                )) && (forall|j: int|
            0 <= j < b@.len() ==> exists|i: int|
                0 <= i < a@.len() && (#[trigger] a@[i]).0@ == (#[trigger] b@[j]).0@),
    ensures
        x.same(&y),
{
    if let (JsonValue::Object(a), JsonValue::Object(b)) = (x, y) {
        assert forall|i: int| 0 <= i < a@.len() implies match member_value(b@, (#[trigger] a@[i]).0@) {
            Some(w) => first_with_key(a@, i) ==> a@[i].1.same(&w),
            None => false,
        } by {
            let j = choose|j: int|
                0 <= j < b@.len() && (#[trigger] a@[i]).0@ == (#[trigger] b@[j]).0@ && a@[i].1.same(
                    &b@[j].1,
                );
            lemma_member_lookup(b@, j);
        }
        assert forall|j: int| 0 <= j < b@.len() implies member_value(a@, (#[trigger] b@[j]).0@) is Some by {
            let i = choose|i: int| 0 <= i < a@.len() && (#[trigger] a@[i]).0@ == (#[trigger] b@[j]).0@;
            lemma_member_absent(a@, b@[j].0@);
        }
    }
}

impl Clone for JsonValue {
    fn clone(&self) -> (res: Self)
        ensures
            res.same(self),
    {
        self.deep_copy()
    }
}

/// Each member key of an object is listed at most once.
pub open spec fn member_keys_distinct(members: Seq<(String, JsonValue)>) -> bool {
    forall|i: int, j: int|
        #![trigger members[i], members[j]]
        0 <= i < j < members.len() ==> members[i].0@ != members[j].0@
}

impl JsonValue {
    /// Every object in this value, nested ones included, lists each member
    /// key once, as a parsed JSON object does.
    pub open spec fn keys_distinct(&self) -> bool
        decreases *self,
    {
        match *self {
            JsonValue::Array(a) => forall|i: int| 0 <= i < a@.len() ==> (#[trigger] a@[i]).keys_distinct(),
            JsonValue::Object(m) => member_keys_distinct(m@) && forall|i: int|
                0 <= i < m@.len() ==> (#[trigger] m@[i]).1.keys_distinct(),
            _ => true,
        }
    }
}

/// No member is found under a key that no member has, and one is found under
/// every key that a member has.
pub proof fn lemma_member_absent(members: Seq<(String, JsonValue)>, key: Seq<char>)
    ensures
        member_value(members, key) is None <==> forall|i: int|
            0 <= i < members.len() ==> (#[trigger] members[i]).0@ != key,
    decreases members.len(),
{
    if members.len() > 0 {
        let rest = members.drop_first();
        lemma_member_absent(rest, key);
        if member_value(members, key) is None {
            assert forall|i: int| 0 <= i < members.len() implies (#[trigger] members[i]).0@ != key by {
                if i > 0 {
                    assert(rest[i - 1] == members[i]);
                }
            }
        } else {
            if members[0].0@ != key {
                let k = choose|k: int| 0 <= k < rest.len() && (#[trigger] rest[k]).0@ == key;
                assert(members[k + 1] == rest[k]);
            }
        }
    }
}

/// With each key listed once, the value found under a key is the one of the
/// member with that key, wherever it stands, as in a map.
pub proof fn lemma_member_lookup(members: Seq<(String, JsonValue)>, i: int)
    requires
        member_keys_distinct(members),
        0 <= i < members.len(),
    ensures
        member_value(members, members[i].0@) == Some(members[i].1),
    decreases i,
{
    if i > 0 {
        let rest = members.drop_first();
        assert(members[0].0@ != members[i].0@);
        assert(rest[i - 1] == members[i]);
        assert(member_keys_distinct(rest)) by {
            assert forall|a: int, b: int|
                #![trigger rest[a], rest[b]]
                0 <= a < b < rest.len() implies rest[a].0@ != rest[b].0@ by {
                assert(rest[a] == members[a + 1]);
                assert(rest[b] == members[b + 1]);
            }
        }
        lemma_member_lookup(rest, i - 1);
    }
}

/// The first member named `key`.
pub fn get_member<'a>(members: &'a Vec<(String, JsonValue)>, key: &str) -> (res: Option<
    &'a JsonValue,
>)
    ensures
        match res {
            Some(v) => member_value(members@, key@) == Some(*v),
            None => member_value(members@, key@) is None,
        },
{
    let mut i: usize = 0;
    assert(members@.skip(0) =~= members@);
    while i < members.len()
        invariant
            i <= members@.len(),
            member_value(members@, key@) == member_value(members@.skip(i as int), key@),
        decreases members@.len() - i,
    {
        assert(members@.skip(i as int).drop_first() =~= members@.skip(i + 1));
        if str_eq(members[i].0.as_str(), key) {
            return Some(&members[i].1);
        }
        i = i + 1;
    }
    None
}

/// Version of the structured-output shape rule: a JSON output carries an
/// object, and its schema has an explicit object root.
pub const AGENT_STRUCTURED_OUTPUT_SHAPE_CONTRACT_V1: &'static str =
    "loomex.agent-structured-output-shape/v1";

#[derive(Debug, Clone, Copy, PartialEq, Eq, Structural)]
pub enum AgentStructuredOutputSchemaValidationError {
    SchemaMustBeObject,
    RootTypeMustBeObject,
}

pub const JSON_SCHEMA_TYPE_KEY: &'static str = "type";

pub const JSON_SCHEMA_OBJECT_TYPE: &'static str = "object";

/// A JSON object whose `type` member is the string `"object"`.
pub open spec fn structured_output_schema_result(schema: JsonValue) -> Result<
    (),
    AgentStructuredOutputSchemaValidationError,
> {
    match schema {
        JsonValue::Object(members) => match member_value(members@, JSON_SCHEMA_TYPE_KEY@) {
            Some(JsonValue::String(t)) => if t@ == JSON_SCHEMA_OBJECT_TYPE@ {
                Ok(())
            } else {
                Err(AgentStructuredOutputSchemaValidationError::RootTypeMustBeObject)
            },
            _ => Err(AgentStructuredOutputSchemaValidationError::RootTypeMustBeObject),
        },
        _ => Err(AgentStructuredOutputSchemaValidationError::SchemaMustBeObject),
    }
}

/// The Backend workflow reducer consumes a JSON object. Requiring an explicit
/// root `type: object` prevents permissive `{}` schemas and scalar/array output
/// from crossing the runtime boundary only to fail during reduction.
pub fn validate_agent_structured_output_schema(schema: &JsonValue) -> (res: Result<
    (),
    AgentStructuredOutputSchemaValidationError,
>)
    ensures
        res == structured_output_schema_result(*schema),
{
    match schema {
        JsonValue::Object(members) => match get_member(members, JSON_SCHEMA_TYPE_KEY) {
            Some(JsonValue::String(t)) => {
                if str_eq(t.as_str(), JSON_SCHEMA_OBJECT_TYPE) {
                    Ok(())
                } else {
                    Err(AgentStructuredOutputSchemaValidationError::RootTypeMustBeObject)
                }
            },
            _ => Err(AgentStructuredOutputSchemaValidationError::RootTypeMustBeObject),
        },
        _ => Err(AgentStructuredOutputSchemaValidationError::SchemaMustBeObject),
    }
}

/// `{"type": "object"}`.
pub fn default_agent_structured_output_schema() -> (res: JsonValue)
    ensures
        match res {
            JsonValue::Object(members) => {
                &&& members@.len() == 1
                &&& members@[0].0@ == JSON_SCHEMA_TYPE_KEY@
                &&& members@[0].1 matches JsonValue::String(t) && t@ == JSON_SCHEMA_OBJECT_TYPE@
            },
            _ => false,
        },
        structured_output_schema_result(res) is Ok,
{
    let mut members: Vec<(String, JsonValue)> = Vec::new();
    members.push(
        (
            String::from_str(JSON_SCHEMA_TYPE_KEY),
            JsonValue::String(String::from_str(JSON_SCHEMA_OBJECT_TYPE)),
        ),
    );
    assert(members@.drop_first().len() == 0);
    JsonValue::Object(members)
}


impl PartialEq for JsonValue {
    fn eq(&self, other: &Self) -> (res: bool) {
        self.is_same_json(other)
    }
}

impl PartialEqSpecImpl for JsonValue {
    open spec fn obeys_eq_spec() -> bool {
        true
    }

    open spec fn eq_spec(&self, other: &JsonValue) -> bool {
        self.same(other)
    }
}

} // verus!
