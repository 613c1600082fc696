//! JSON values, as far as the event logic reads them.
//!
//! Values come from serde_json, which also prints them. This module says of
//! each of its functions that is called here what it tells of the value's
//! [`JsonTree`], and holds the same values in a type of its own.
use vstd::prelude::*;

verus! {

/// A JSON value: its structure, and, for an array, an object or a number that
/// is no `i64`, the text that it prints as.
pub enum JsonTree {
    Null,
    Bool(bool),
    /// A number that serde_json holds as an integer and that is an `i64`.
    Int(i64),
    /// Any other number, by the text that it prints as.
    Number(Seq<char>),
    Text(Seq<char>),
    /// The items, and the compact text of the array.
    Array(Seq<JsonTree>, Seq<char>),
    /// The members in the order of their keys, and the compact text of the
    /// object.
    Object(Seq<(Seq<char>, JsonTree)>, Seq<char>),
}

/// A JSON value that the library can hold; its view is a [`JsonTree`].
/// [`JsonValue::from_value`] makes one whose texts are those that serde_json
/// prints.
#[derive(Debug, PartialEq, Eq)]
pub enum JsonValue {
    Null,
    Bool(bool),
    Int(i64),
    Number(String),
    Text(String),
    Array(Vec<JsonValue>, String),
    Object(Vec<(String, JsonValue)>, String),
}

impl View for JsonValue {
    type V = JsonTree;

    open spec fn view(&self) -> JsonTree {
        tree_of(*self)
    }
}

/// The tree of a [`JsonValue`].
pub open spec fn tree_of(value: JsonValue) -> JsonTree
    decreases value,
{
    match value {
        JsonValue::Null => JsonTree::Null,
        JsonValue::Bool(b) => JsonTree::Bool(b),
        JsonValue::Int(i) => JsonTree::Int(i),
        JsonValue::Number(text) => JsonTree::Number(text@),
        JsonValue::Text(text) => JsonTree::Text(text@),
        JsonValue::Array(items, text) => JsonTree::Array(
            Seq::new(
                items@.len(),
                |i: int|
                    if 0 <= i < items@.len() {
                        tree_of(items@[i])
                    } else {
                        JsonTree::Null
                    },
            ),
            text@,
        ),
        JsonValue::Object(members, text) => JsonTree::Object(
            Seq::new(
                members@.len(),
                |i: int|
                    if 0 <= i < members@.len() {
                        (members@[i].0@, tree_of(members@[i].1))
                    } else {
                        (Seq::empty(), JsonTree::Null)
                    },
            ),
            text@,
        ),
    }
}

/// The value of the first member with the given key.
pub open spec fn find_member(members: Seq<(Seq<char>, JsonTree)>, key: Seq<char>) -> Option<
    JsonTree,
>
    decreases members.len(),
{
    if members.len() == 0 {
        None
    } else if members[0].0 == key {
        Some(members[0].1)
    } else {
        find_member(members.drop_first(), key)
    }
}

impl JsonTree {
    /// Whether the value can be read as a record of at most `arity` fields:
    /// an object, or an array with the fields in their order.
    pub open spec fn is_record(self, arity: nat) -> bool {
        match self {
            JsonTree::Object(_, _) => true,
            JsonTree::Array(items, _) => items.len() <= arity,
            _ => false,
        }
    }

    /// The field of a record: by its name in an object, by its position in an
    /// array.
    pub open spec fn field(self, name: Seq<char>, position: nat) -> Option<JsonTree> {
        match self {
            JsonTree::Object(members, _) => find_member(members, name),
            JsonTree::Array(items, _) => if position < items.len() {
                Some(items[position as int])
            } else {
                None
            },
            _ => None,
        }
    }

    /// The text that the value prints as. Of a string, which prints in quotes
    /// and with escapes, this gives the characters themselves.
    pub open spec fn text(self) -> Seq<char> {
        match self {
            JsonTree::Null => "null"@,
            JsonTree::Bool(b) => if b {
                "true"@
            } else {
                "false"@
            },
            JsonTree::Int(i) => crate::text::decimal(i as int),
            JsonTree::Number(text) => text,
            JsonTree::Text(text) => text,
            JsonTree::Array(_, text) => text,
            JsonTree::Object(_, text) => text,
        }
    }
}

/// The value type of serde_json.
#[verifier::external_type_specification]
#[verifier::external_body]
pub struct ExValue(serde_json::Value);

/// What a value of serde_json holds: its items or members, and what it prints
/// as.
pub uninterp spec fn json_tree(value: serde_json::Value) -> JsonTree;

/// `serde_json::Value::is_null` holds of null alone.
pub assume_specification[ serde_json::Value::is_null ](value: &serde_json::Value) -> (r: bool)
    ensures
        r == (json_tree(*value) is Null),
;

/// `serde_json::Value::as_bool` gives the boolean, and nothing for any other
/// value.
pub assume_specification[ serde_json::Value::as_bool ](value: &serde_json::Value) -> (r: Option<
    bool,
>)
    ensures
        r == match json_tree(*value) {
            JsonTree::Bool(b) => Some(b),
            _ => None,
        },
;

/// `serde_json::Value::as_i64` gives a number that is held as an integer, if
/// it is in the range of `i64`, and nothing for any other value.
pub assume_specification[ serde_json::Value::as_i64 ](value: &serde_json::Value) -> (r: Option<i64>)
    ensures
        r == match json_tree(*value) {
            JsonTree::Int(i) => Some(i),
            _ => None,
        },
;

/// `serde_json::Value::as_str` gives the characters of a string, and nothing
/// for any other value.
pub assume_specification[ serde_json::Value::as_str ](value: &serde_json::Value) -> (r: Option<
    &str,
>)
    ensures
        match r {
            Some(text) => json_tree(*value) == JsonTree::Text(text@),
            None => !(json_tree(*value) is Text),
        },
;

/// `serde_json::Value::as_array` gives the items of an array, and nothing for
/// any other value.
pub assume_specification[ serde_json::Value::as_array ](value: &serde_json::Value) -> (r: Option<
    &Vec<serde_json::Value>,
>)
    ensures
        match r {
            Some(items) => {
                &&& json_tree(*value) is Array
                &&& items@.len() == json_tree(*value)->Array_0.len()
                &&& forall|i: int|
                    0 <= i < items@.len() ==> json_tree(#[trigger] items@[i]) == json_tree(
                        *value,
                    )->Array_0[i]
            },
            None => !(json_tree(*value) is Array),
        },
;

/// `serde_json::Value::as_object` gives the members of an object, here listed
/// in the order in which its map hands them out, and nothing for any other
/// value.
#[verifier::external_body]
fn as_members(value: &serde_json::Value) -> (r: Option<Vec<(&String, &serde_json::Value)>>)
    ensures
        match r {
            Some(members) => {
                &&& json_tree(*value) is Object
                &&& members@.len() == json_tree(*value)->Object_0.len()
                &&& forall|i: int|
                    0 <= i < members@.len() ==> {
                        &&& (#[trigger] members@[i]).0@ == json_tree(*value)->Object_0[i].0
                        &&& json_tree(*members@[i].1) == json_tree(*value)->Object_0[i].1
                    }
            },
            None => !(json_tree(*value) is Object),
        },
{
    value.as_object().map(|members| members.iter().collect())
}

/// `to_string` on a value of serde_json gives its compact text. It is not
/// called on strings, which print in quotes.
#[verifier::external_body]
fn print(value: &serde_json::Value) -> (text: String)
    requires
        !(json_tree(*value) is Text),
    ensures
        text@ == json_tree(*value).text(),
{
    value.to_string()
}

impl JsonValue {
    /// Takes a value over from serde_json.
    pub fn from_value(value: &serde_json::Value) -> (r: JsonValue)
        ensures
            r@ == json_tree(*value),
        decreases json_tree(*value),
    {
        if let Some(i) = value.as_i64() {
            JsonValue::Int(i)
        } else if let Some(text) = value.as_str() {
            JsonValue::Text(text.to_owned())
        } else if value.is_null() {
            JsonValue::Null
        } else if let Some(b) = value.as_bool() {
            JsonValue::Bool(b)
        } else if let Some(items) = value.as_array() {
            let mut out: Vec<JsonValue> = Vec::new();
            let ghost trees = json_tree(*value)->Array_0;
            for k in 0..items.len()
                invariant
                    json_tree(*value) is Array,
                    trees == json_tree(*value)->Array_0,
                    items@.len() == trees.len(),
                    forall|i: int|
                        0 <= i < items@.len() ==> json_tree(#[trigger] items@[i]) == trees[i],
                    out@.len() == k,
                    forall|i: int| 0 <= i < k ==> tree_of(#[trigger] out@[i]) == trees[i],
            {
                assert(decreases_to!(json_tree(*value) => trees[k as int]));
                out.push(JsonValue::from_value(&items[k]));
            }
            let r = JsonValue::Array(out, print(value));
            assert(r@->Array_0 == trees);
            r
        } else if let Some(members) = as_members(value) {
            let mut out: Vec<(String, JsonValue)> = Vec::new();
            let ghost trees = json_tree(*value)->Object_0;
            for k in 0..members.len()
                invariant
                    json_tree(*value) is Object,
                    trees == json_tree(*value)->Object_0,
                    members@.len() == trees.len(),
                    forall|i: int|
                        0 <= i < members@.len() ==> {
                            &&& (#[trigger] members@[i]).0@ == trees[i].0
                            &&& json_tree(*members@[i].1) == trees[i].1
                        },
                    out@.len() == k,
                    forall|i: int|
                        0 <= i < k ==> {
                            &&& (#[trigger] out@[i]).0@ == trees[i].0
                            &&& tree_of(out@[i].1) == trees[i].1
                        },
            {
                let (key, member) = members[k];
                assert(decreases_to!(json_tree(*value) => trees[k as int].1));
                out.push((key.clone(), JsonValue::from_value(member)));
            }
            let r = JsonValue::Object(out, print(value));
            assert(r@->Object_0 == trees);
            r
        } else {
            JsonValue::Number(print(value))
        }
    }

    /// Whether the value can be read as a record of at most `arity` fields.
    pub fn is_record(&self, arity: usize) -> (r: bool)
        ensures
            r == self@.is_record(arity as nat),
    {
        match self {
            JsonValue::Object(_, _) => true,
            JsonValue::Array(items, _) => items.len() <= arity,
            _ => false,
        }
    }

    /// The field of a record, by its name or its position.
    pub fn field(&self, name: &str, position: usize) -> (r: Option<&JsonValue>)
        ensures
            match r {
                Some(value) => self@.field(name@, position as nat) == Some(value@),
                None => self@.field(name@, position as nat) is None,
            },
    {
        match self {
            JsonValue::Object(members, _) => {
                let ghost trees = self@->Object_0;
                assert(trees.skip(0) == trees);
                for k in 0..members.len()
                    invariant
                        members@.len() == trees.len(),
                        forall|i: int|
                            0 <= i < members@.len() ==> {
                                &&& (#[trigger] members@[i]).0@ == trees[i].0
                                &&& members@[i].1@ == trees[i].1
                            },
                        self@ is Object,
                        trees == self@->Object_0,
                        find_member(trees, name@) == find_member(trees.skip(k as int), name@),
                {
                    assert(trees.skip(k as int).drop_first() == trees.skip(k + 1));
                    if *members[k].0.as_str() == *name {
                        return Some(&members[k].1);
                    }
                }
                None
            },
            JsonValue::Array(items, _) => {
                if position < items.len() {
                    Some(&items[position])
                } else {
                    None
                }
            },
            _ => None,
        }
    }
}

impl Clone for JsonValue {
    fn clone(&self) -> (r: Self)
        ensures
            r@ == self@,
        decreases self,
    {
        match self {
            JsonValue::Null => JsonValue::Null,
            JsonValue::Bool(b) => JsonValue::Bool(*b),
            JsonValue::Int(i) => JsonValue::Int(*i),
            JsonValue::Number(text) => JsonValue::Number(text.clone()),
            JsonValue::Text(text) => JsonValue::Text(text.clone()),
            JsonValue::Array(items, text) => {
                let mut out: Vec<JsonValue> = Vec::new();
                for k in 0..items.len()
                    invariant
                        self matches JsonValue::Array(own, _) && own == items,
                        out@.len() == k,
                        forall|i: int| 0 <= i < k ==> tree_of(#[trigger] out@[i]) == tree_of(items@[i]),
                {
                    out.push(items[k].clone());
                }
                let r = JsonValue::Array(out, text.clone());
                assert(r@->Array_0 == self@->Array_0);
                r
            },
            JsonValue::Object(members, text) => {
                let mut out: Vec<(String, JsonValue)> = Vec::new();
                for k in 0..members.len()
                    invariant
                        self matches JsonValue::Object(own, _) && own == members,
                        out@.len() == k,
                        forall|i: int|
                            0 <= i < k ==> {
                                &&& (#[trigger] out@[i]).0@ == members@[i].0@
                                &&& tree_of(out@[i].1) == tree_of(members@[i].1)
                            },
                {
                    out.push((members[k].0.clone(), members[k].1.clone()));
                }
                let r = JsonValue::Object(out, text.clone());
                assert(r@->Object_0 == self@->Object_0);
                r
            },
        }
    }
}

/// A value that the library holds shows all of its parts, in their order.
pub proof fn values_show_their_parts(value: JsonValue)
    ensures
        match value {
            JsonValue::Null => value@ is Null,
            JsonValue::Bool(b) => value@ == JsonTree::Bool(b),
            JsonValue::Int(i) => value@ == JsonTree::Int(i),
            JsonValue::Number(text) => value@ == JsonTree::Number(text@),
            JsonValue::Text(text) => value@ == JsonTree::Text(text@),
            JsonValue::Array(items, text) => {
                &&& value@ is Array && value@->Array_1 == text@
                &&& value@->Array_0.len() == items@.len()
                &&& forall|i: int|
                    0 <= i < items@.len() ==> value@->Array_0[i] == (#[trigger] items@[i])@
            },
            JsonValue::Object(members, text) => {
                &&& value@ is Object && value@->Object_1 == text@
                &&& value@->Object_0.len() == members@.len()
                &&& forall|i: int|
                    0 <= i < members@.len() ==> {
                        &&& value@->Object_0[i].0 == (#[trigger] members@[i]).0@
                        &&& value@->Object_0[i].1 == members@[i].1@
                    }
            },
        },
{
}

/// The member with the given key is the first one with it, and there is none
/// only where no member has the key.
pub proof fn first_member_counts(members: Seq<(Seq<char>, JsonTree)>, key: Seq<char>)
    ensures
        match find_member(members, key) {
            Some(value) => exists|i: int|
                {
                    &&& 0 <= i < members.len()
                    &&& (#[trigger] members[i]).0 == key
                    &&& members[i].1 == value
                    &&& forall|j: int| 0 <= j < i ==> (#[trigger] members[j]).0 != key
                },
            None => forall|i: int| 0 <= i < members.len() ==> (#[trigger] members[i]).0 != key,
        },
    decreases members.len(),
{
    if members.len() > 0 && members[0].0 != key {
        let rest = members.drop_first();
        first_member_counts(rest, key);
        match find_member(members, key) {
            Some(value) => {
                let i = choose|i: int|
                    {
                        &&& 0 <= i < rest.len()
                        &&& (#[trigger] rest[i]).0 == key
                        &&& rest[i].1 == value
                        &&& forall|j: int| 0 <= j < i ==> (#[trigger] rest[j]).0 != key
                    };
                assert(members[i + 1] == rest[i]);
                assert forall|j: int| 0 <= j < i + 1 implies (#[trigger] members[j]).0 != key by {
                    if j > 0 {
                        assert(rest[j - 1] == members[j]);
                    }
                }
            },
            None => {
                assert forall|i: int| 0 <= i < members.len() implies (#[trigger] members[i]).0
                    != key by {
                    if i > 0 {
                        assert(rest[i - 1] == members[i]);
                    }
                }
            },
        }
    }
}

/// A record is an object, with its fields under their names, or an array that
/// is not too long, with its fields at their places. Nothing else is one.
pub proof fn records_are_objects_or_arrays(
    value: JsonTree,
    arity: nat,
    name: Seq<char>,
    position: nat,
)
    ensures
        value is Object ==> value.is_record(arity) && value.field(name, position) == find_member(
            value->Object_0,
            name,
        ),
        value is Array ==> (value.is_record(arity) <==> value->Array_0.len() <= arity),
        value is Array && position < value->Array_0.len() ==> value.field(name, position) == Some(
            value->Array_0[position as int],
        ),
        value is Array && position >= value->Array_0.len() ==> value.field(name, position) is None,
        !(value is Object || value is Array) ==> !value.is_record(arity) && value.field(
            name,
            position,
        ) is None,
{
}

/// A string, whatever it holds, has its own characters as its text; a number
/// has the digits that it prints as, and the other values print as JSON.
pub proof fn texts_of_values(
    text: Seq<char>,
    i: i64,
    items: Seq<JsonTree>,
    members: Seq<(Seq<char>, JsonTree)>,
)
    ensures
        JsonTree::Text(text).text() == text,
        JsonTree::Number(text).text() == text,
        JsonTree::Array(items, text).text() == text,
        JsonTree::Object(members, text).text() == text,
        JsonTree::Int(i).text() == crate::text::decimal(i as int),
        JsonTree::Null.text() == "null"@,
        JsonTree::Bool(true).text() == "true"@,
        JsonTree::Bool(false).text() == "false"@,
{
}

} // verus!
