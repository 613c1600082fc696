//! One event as the Govee platform writes it: as an option in the metadata of
//! a capability, and as an entry in the state of an incoming message.
use crate::json::{JsonTree, JsonValue};
use vstd::prelude::*;

verus! {

/// An event with the value that identifies it and the texts that describe it.
#[derive(Debug, Clone, PartialEq, Eq)]
pub struct EventEntry {
    pub name: String,
    pub value: JsonValue,
    pub message: Option<String>,
}

/// The view of an [`EventEntry`].
#[verifier::ext_equal]
pub struct EntryView {
    pub name: Seq<char>,
    pub value: JsonTree,
    pub message: Option<Seq<char>>,
}

/// The view of an optional text.
pub open spec fn optional_view(text: Option<String>) -> Option<Seq<char>> {
    match text {
        Some(text) => Some(text@),
        None => None,
    }
}

impl View for EventEntry {
    type V = EntryView;

    open spec fn view(&self) -> EntryView {
        EntryView { name: self.name@, value: self.value@, message: optional_view(self.message) }
    }
}

/// The views of a list of entries.
pub open spec fn entry_views(entries: Seq<EventEntry>) -> Seq<EntryView> {
    Seq::new(entries.len(), |i: int| entries[i]@)
}

/// A text field: empty where it is missing; nothing where it is no string.
pub open spec fn text_field(field: Option<JsonTree>) -> Option<Seq<char>> {
    match field {
        None => Some(Seq::empty()),
        Some(JsonTree::Text(text)) => Some(text),
        Some(_) => None,
    }
}

/// An optional text field: absent where it is missing or null; nothing where
/// it is neither null nor a string.
pub open spec fn optional_text_field(field: Option<JsonTree>) -> Option<Option<Seq<char>>> {
    match field {
        None => Some(None),
        Some(JsonTree::Null) => Some(None),
        Some(JsonTree::Text(text)) => Some(Some(text)),
        Some(_) => None,
    }
}

/// The entry that a JSON value describes, if it describes one: a record whose
/// `name` and `message`, where they are there, are texts. All three fields may
/// be missing, and a missing `value` is null.
pub open spec fn entry_of(value: JsonTree) -> Option<EntryView> {
    let name = text_field(value.field("name"@, 0));
    let message = optional_text_field(value.field("message"@, 2));
    if value.is_record(3) && name is Some && message is Some {
        Some(
            EntryView {
                name: name->0,
                value: match value.field("value"@, 1) {
                    Some(value) => value,
                    None => JsonTree::Null,
                },
                message: message->0,
            },
        )
    } else {
        None
    }
}

/// The entries that a JSON value lists: nothing where it is no array, or
/// where one of its items is no entry.
pub open spec fn entries_of(value: JsonTree) -> Option<Seq<EntryView>> {
    match value {
        JsonTree::Array(items, _) => if forall|i: int|
            0 <= i < items.len() ==> entry_of(#[trigger] items[i]) is Some {
            Some(Seq::new(items.len(), |i: int| entry_of(items[i])->0))
        } else {
            None
        },
        _ => None,
    }
}

/// Reads a text field.
pub fn read_text(field: Option<&JsonValue>) -> (r: Option<String>)
    ensures
        optional_view(r) == text_field(field_view(field)),
{
    match field {
        None => Some(String::new()),
        Some(JsonValue::Text(text)) => Some(text.clone()),
        Some(_) => None,
    }
}

/// The view of a field that may be missing.
pub open spec fn field_view(field: Option<&JsonValue>) -> Option<JsonTree> {
    match field {
        Some(value) => Some(value@),
        None => None,
    }
}

/// Reads an optional text field.
pub fn read_optional_text(field: Option<&JsonValue>) -> (r: Option<Option<String>>)
    ensures
        match r {
            Some(text) => optional_text_field(field_view(field)) == Some(optional_view(text)),
            None => optional_text_field(field_view(field)) is None,
        },
{
    match field {
        None => Some(None),
        Some(JsonValue::Null) => Some(None),
        Some(JsonValue::Text(text)) => Some(Some(text.clone())),
        Some(_) => None,
    }
}

impl EventEntry {
    /// Reads an entry from a JSON value.
    pub fn from_value(value: &JsonValue) -> (r: Option<EventEntry>)
        ensures
            match r {
                Some(entry) => entry_of(value@) == Some(entry@),
                None => entry_of(value@) is None,
            },
    {
        if !value.is_record(3) {
            return None;
        }
        let name = match read_text(value.field("name", 0)) {
            Some(name) => name,
            None => {
                return None;
            },
        };
        let message = match read_optional_text(value.field("message", 2)) {
            Some(message) => message,
            None => {
                return None;
            },
        };
        let value = match value.field("value", 1) {
            Some(value) => value.clone(),
            None => JsonValue::Null,
        };
        Some(EventEntry { name, value, message })
    }

    /// Reads a list of entries from a JSON value.
    pub fn list_from_value(value: &JsonValue) -> (r: Option<Vec<EventEntry>>)
        ensures
            match r {
                Some(entries) => entries_of(value@) == Some(entry_views(entries@)),
                None => entries_of(value@) is None,
            },
    {
        match value {
            JsonValue::Array(items, _) => {
                let ghost trees = value@->Array_0;
                let mut entries: Vec<EventEntry> = Vec::new();
                for k in 0..items.len()
                    invariant
                        value@ is Array,
                        trees == value@->Array_0,
                        items@.len() == trees.len(),
                        forall|i: int| 0 <= i < items@.len() ==> (#[trigger] items@[i])@ == trees[i],
                        entries@.len() == k,
                        forall|i: int|
                            0 <= i < k ==> entry_of(trees[i]) == Some((#[trigger] entries@[i])@),
                {
                    match EventEntry::from_value(&items[k]) {
                        Some(entry) => {
                            entries.push(entry);
                        },
                        None => {
                            assert(entry_of(trees[k as int]) is None);
                            return None;
                        },
                    }
                }
                proof {
                    assert forall|i: int| 0 <= i < trees.len() implies entry_of(
                        #[trigger] trees[i],
                    ) is Some by {
                        assert(entry_of(trees[i]) == Some(entries@[i]@));
                    }
                    assert(entries_of(value@)->0 =~= entry_views(entries@));
                }
                Some(entries)
            },
            _ => None,
        }
    }
}

/// An entry shows the texts and the value that it holds, and a list of entries
/// shows each of them at its place.
pub proof fn entries_show_their_fields(entries: Seq<EventEntry>, i: int)
    requires
        0 <= i < entries.len(),
    ensures
        entry_views(entries).len() == entries.len(),
        entry_views(entries)[i].name == entries[i].name@,
        entry_views(entries)[i].value == entries[i].value@,
        entry_views(entries)[i].message is Some <==> entries[i].message is Some,
        entries[i].message matches Some(message) ==> entry_views(entries)[i].message == Some(
            message@,
        ),
{
}

/// A value reads as an entry exactly if it is a record of up to three fields
/// that say what the entry says: `name` is its name, or missing if that is
/// empty; `value` is its value, or missing if that is null; `message` is its
/// message, or missing or null if there is none.
pub proof fn entries_are_read_field_by_field(value: JsonTree, entry: EntryView)
    ensures
        entry_of(value) == Some(entry) <==> {
            &&& value is Object || (value is Array && value->Array_0.len() <= 3)
            &&& match value.field("name"@, 0) {
                Some(name) => name == JsonTree::Text(entry.name),
                None => entry.name.len() == 0,
            }
            &&& match value.field("value"@, 1) {
                Some(value) => value == entry.value,
                None => entry.value is Null,
            }
            &&& match (value.field("message"@, 2), entry.message) {
                (Some(field), Some(message)) => field == JsonTree::Text(message),
                (Some(field), None) => field is Null,
                (None, message) => message is None,
            }
        },
{
    if value.field("name"@, 0) is None && entry.name.len() == 0 {
        assert(entry.name == Seq::<char>::empty());
    }
}

/// A value reads as a list of entries exactly if it is an array whose items
/// read as these entries, one by one.
pub proof fn lists_are_read_item_by_item(value: JsonTree, entries: Seq<EntryView>)
    ensures
        entries_of(value) == Some(entries) <==> {
            &&& value is Array
            &&& value->Array_0.len() == entries.len()
            &&& forall|i: int|
                0 <= i < entries.len() ==> entry_of(value->Array_0[i]) == Some(
                    #[trigger] entries[i],
                )
        },
{
    if value is Array {
        let items = value->Array_0;
        if items.len() == entries.len() && forall|i: int|
            0 <= i < entries.len() ==> entry_of(items[i]) == Some(#[trigger] entries[i]) {
            assert forall|i: int| 0 <= i < items.len() implies entry_of(#[trigger] items[i])
                is Some by {
                assert(entry_of(items[i]) == Some(entries[i]));
            }
            assert(entries_of(value)->0 == entries);
        }
        if entries_of(value) == Some(entries) {
            assert forall|i: int| 0 <= i < entries.len() implies entry_of(items[i]) == Some(
                #[trigger] entries[i],
            ) by {
                assert(entry_of(items[i]) is Some);
            }
        }
    }
}

} // verus!
