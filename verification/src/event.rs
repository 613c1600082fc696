//! Event capabilities: which events a device can report, what they are called,
//! and how Home Assistant learns of them.
use crate::device::{CapabilityView, Device, DeviceCapability, DeviceView};
use crate::entity::{EntityConfig, EntityView, Origin};
use crate::entry::{EntryView, EventEntry};
use crate::json::{JsonTree, JsonValue};
use vstd::hash_map::StringHashMap;
use vstd::prelude::*;

verus! {

/// The events that a capability can report, as its metadata declares them.
pub struct EventCapabilityInfo {
    /// The labels of the events, each once. Home Assistant wants them declared
    /// when the entity is configured.
    pub event_types: Vec<String>,
    /// The label of each value that the metadata gives an event, so that an
    /// incoming value finds its declared event whatever texts come with it.
    pub label_by_value: StringHashMap<String>,
}

/// The view of an [`EventCapabilityInfo`].
#[verifier::ext_equal]
pub struct InfoView {
    pub event_types: Seq<Seq<char>>,
    pub label_by_value: Map<Seq<char>, Seq<char>>,
}

/// The views of a list of texts.
pub open spec fn texts(list: Seq<String>) -> Seq<Seq<char>> {
    Seq::new(list.len(), |i: int| list[i]@)
}

impl View for EventCapabilityInfo {
    type V = InfoView;

    open spec fn view(&self) -> InfoView {
        InfoView {
            event_types: texts(self.event_types@),
            label_by_value: self.label_by_value@.map_values(|label: String| label@),
        }
    }
}

/// The label of an event: its message, unless that is missing or empty; then
/// its name.
pub open spec fn label_of(name: Seq<char>, message: Option<Seq<char>>) -> Seq<char> {
    match message {
        Some(message) => if message.len() > 0 {
            message
        } else {
            name
        },
        None => name,
    }
}

/// The options that event metadata lists: nothing where it is no record, or
/// where its `options`, if any, are no list of entries.
pub open spec fn options_of(metadata: JsonTree) -> Option<Seq<EntryView>> {
    if metadata.is_record(1) {
        match metadata.field("options"@, 0) {
            Some(list) => crate::entry::entries_of(list),
            None => Some(Seq::empty()),
        }
    } else {
        None
    }
}

/// The labels of the options in the order in which they first come, without
/// the empty label.
pub open spec fn types_of(options: Seq<EntryView>) -> Seq<Seq<char>>
    decreases options.len(),
{
    if options.len() == 0 {
        Seq::empty()
    } else {
        let before = types_of(options.drop_last());
        let label = label_of(options.last().name, options.last().message);
        if label.len() == 0 || before.contains(label) {
            before
        } else {
            before.push(label)
        }
    }
}

/// The label of each value that an option with a label has. Where two options
/// have the same key, the later one counts.
pub open spec fn labels_of(options: Seq<EntryView>) -> Map<Seq<char>, Seq<char>>
    decreases options.len(),
{
    if options.len() == 0 {
        Map::empty()
    } else {
        let before = labels_of(options.drop_last());
        let label = label_of(options.last().name, options.last().message);
        if label.len() == 0 || options.last().value is Null {
            before
        } else {
            before.insert(options.last().value.text(), label)
        }
    }
}

/// What the metadata of a capability declares: nothing where there is no
/// metadata, where it cannot be read, or where it declares no event.
pub open spec fn info_of(event_state: Option<JsonTree>) -> Option<InfoView> {
    match event_state {
        Some(metadata) => match options_of(metadata) {
            Some(options) => if types_of(options).len() > 0 {
                Some(
                    InfoView {
                        event_types: types_of(options),
                        label_by_value: labels_of(options),
                    },
                )
            } else {
                None
            },
            None => None,
        },
        None => None,
    }
}

/// The key under which a value is looked up: the text that it prints as, and
/// of a string its characters. So the integer `1` and the string `"1"` have
/// the same key.
pub fn value_key(value: &JsonValue) -> (key: String)
    ensures
        key@ == value@.text(),
{
    match value {
        JsonValue::Int(i) => crate::text::decimal_text(*i),
        JsonValue::Text(text) => text.clone(),
        JsonValue::Null => "null".to_owned(),
        JsonValue::Bool(b) => if *b {
            "true".to_owned()
        } else {
            "false".to_owned()
        },
        JsonValue::Number(text) => text.clone(),
        JsonValue::Array(_, text) => text.clone(),
        JsonValue::Object(_, text) => text.clone(),
    }
}

/// The label of an event: its message, if that is there and not empty, and
/// its name otherwise.
pub fn event_type_label(name: &str, message: Option<&str>) -> (label: String)
    ensures
        label@ == label_of(
            name@,
            match message {
                Some(message) => Some(message@),
                None => None,
            },
        ),
{
    match message {
        Some(message) => if !message.is_empty() {
            message.to_owned()
        } else {
            name.to_owned()
        },
        None => name.to_owned(),
    }
}

/// The label of an entry.
pub fn entry_label(entry: &EventEntry) -> (label: String)
    ensures
        label@ == label_of(entry@.name, entry@.message),
{
    match &entry.message {
        Some(message) => event_type_label(entry.name.as_str(), Some(message.as_str())),
        None => event_type_label(entry.name.as_str(), None),
    }
}

/// Whether a text is in a list.
pub fn contains_text(list: &Vec<String>, text: &str) -> (r: bool)
    ensures
        r == texts(list@).contains(text@),
{
    for k in 0..list.len()
        invariant
            forall|i: int| 0 <= i < k ==> (#[trigger] texts(list@)[i]) != text@,
    {
        assert(texts(list@)[k as int] == list@[k as int]@);
        if *list[k].as_str() == *text {
            return true;
        }
    }
    false
}

/// Reads the metadata of an event capability.
pub fn parse_event_capability(cap: &DeviceCapability) -> (r: Option<EventCapabilityInfo>)
    ensures
        match r {
            Some(info) => info_of(cap@.event_state) == Some(info@),
            None => info_of(cap@.event_state) is None,
        },
{
    let metadata = match &cap.event_state {
        Some(metadata) => metadata,
        None => {
            return None;
        },
    };
    if !metadata.is_record(1) {
        return None;
    }
    let options = match metadata.field("options", 0) {
        Some(list) => match EventEntry::list_from_value(list) {
            Some(options) => options,
            None => {
                return None;
            },
        },
        None => Vec::new(),
    };
    let ghost all = crate::entry::entry_views(options@);
    assert(options_of(metadata@)->0 =~= all);
    let mut event_types: Vec<String> = Vec::new();
    let mut label_by_value: StringHashMap<String> = StringHashMap::new();
    let ghost label_view = |label: String| label@;
    assert(label_by_value@.map_values(label_view) =~= Map::empty());
    for k in 0..options.len()
        invariant
            all == crate::entry::entry_views(options@),
            label_view == (|label: String| label@),
            texts(event_types@) == types_of(all.take(k as int)),
            label_by_value@.map_values(label_view) == labels_of(all.take(k as int)),
    {
        let option = &options[k];
        let ghost seen = all.take(k + 1);
        assert(seen.drop_last() == all.take(k as int));
        assert(seen.last() == option@);
        let label = entry_label(option);
        if !label.as_str().is_empty() {
            if !contains_text(&event_types, label.as_str()) {
                let ghost before = event_types@;
                event_types.push(label.clone());
                assert(texts(event_types@) =~= texts(before).push(label@));
            }
            match option.value {
                JsonValue::Null => {},
                _ => {
                    let ghost before = label_by_value@;
                    let key = value_key(&option.value);
                    label_by_value.insert(key, label);
                    assert(label_by_value@.map_values(label_view) =~= before.map_values(
                        label_view,
                    ).insert(key@, label@));
                },
            }
        }
    }
    assert(all.take(all.len() as int) == all);
    if event_types.len() == 0 {
        return None;
    }
    Some(EventCapabilityInfo { event_types, label_by_value })
}

/// The configuration of an event entity.
#[derive(Debug, Clone)]
pub struct EventConfig {
    pub base: EntityConfig,
    pub state_topic: String,
    pub event_types: Vec<String>,
}

/// The view of an [`EventConfig`].
#[verifier::ext_equal]
pub struct ConfigView {
    pub base: EntityView,
    pub state_topic: Seq<char>,
    pub event_types: Seq<Seq<char>>,
}

impl View for EventConfig {
    type V = ConfigView;

    open spec fn view(&self) -> ConfigView {
        ConfigView {
            base: self.base@,
            state_topic: self.state_topic@,
            event_types: texts(self.event_types@),
        }
    }
}

/// The name and the icon of an event capability. Of the instances that are not
/// known by name, the instance without a trailing `Event` is put into words,
/// and there is no icon.
pub open spec fn presentation(instance: Seq<char>) -> (Seq<char>, Option<Seq<char>>) {
    if instance == "iceFull"@ {
        ("Ice Maker Full"@, Some("mdi:bucket"@))
    } else if instance == "lackWaterEvent"@ {
        ("Lack of Water"@, Some("mdi:water-alert-outline"@))
    } else {
        (crate::text::words(crate::text::without_suffix(instance, "Event"@)), None)
    }
}

/// The configuration of the event entity of a capability: nothing where its
/// metadata declares no event.
pub open spec fn config_of(device: DeviceView, cap: CapabilityView) -> Option<ConfigView> {
    match info_of(cap.event_state) {
        Some(info) => Some(
            ConfigView {
                base: EntityView {
                    availability_topic: "gv2mqtt/availability"@,
                    name: Some(presentation(cap.instance).0),
                    entity_category: None,
                    origin: crate::entity::origin(),
                    device: crate::entity::device_block(device),
                    unique_id: crate::topic::event_unique_id(device.id, cap.instance),
                    device_class: None,
                    icon: presentation(cap.instance).1,
                },
                state_topic: crate::topic::event_topic(device.id, cap.instance),
                event_types: info.event_types,
            },
        ),
        None => None,
    }
}

/// The name and the icon of an event capability.
pub fn event_presentation(instance: &str) -> (r: (String, Option<&'static str>))
    ensures
        r.0@ == presentation(instance@).0,
        match r.1 {
            Some(icon) => presentation(instance@).1 == Some(icon@),
            None => presentation(instance@).1 is None,
        },
{
    if *instance == *"iceFull" {
        ("Ice Maker Full".to_owned(), Some("mdi:bucket"))
    } else if *instance == *"lackWaterEvent" {
        ("Lack of Water".to_owned(), Some("mdi:water-alert-outline"))
    } else {
        let label = crate::text::strip_suffix(instance, "Event");
        (crate::text::camel_case_to_space_separated(label), None)
    }
}

impl EventConfig {
    /// The event entity of a capability, if its metadata declares an event:
    /// Home Assistant rejects an event entity without event types.
    pub fn new(device: &Device, cap: &DeviceCapability) -> (r: Option<EventConfig>)
        ensures
            match r {
                Some(config) => config_of(device@, cap@) == Some(config@),
                None => config_of(device@, cap@) is None,
            },
    {
        let info = match parse_event_capability(cap) {
            Some(info) => info,
            None => {
                return None;
            },
        };
        let (name, icon) = event_presentation(cap.instance.as_str());
        Some(
            EventConfig {
                base: EntityConfig {
                    availability_topic: crate::topic::availability_topic(),
                    name: Some(name),
                    entity_category: None,
                    origin: Origin::default(),
                    device: crate::entity::Device::for_device(device),
                    unique_id: crate::topic::event_entity_id(device, cap.instance.as_str()),
                    device_class: None,
                    icon: match icon {
                        Some(icon) => Some(icon.to_owned()),
                        None => None,
                    },
                },
                state_topic: crate::topic::event_state_topic(device, cap.instance.as_str()),
                event_types: info.event_types,
            },
        )
    }
}

/// An integer and the string of its decimal form have the same key.
pub proof fn integer_and_string_share_a_key(i: i64)
    ensures
        JsonTree::Int(i).text() == JsonTree::Text(crate::text::decimal(i as int)).text(),
{
}

/// Different integers have different keys.
pub proof fn integer_keys_differ(a: i64, b: i64)
    requires
        a != b,
    ensures
        JsonTree::Int(a).text() != JsonTree::Int(b).text(),
{
    if JsonTree::Int(a).text() == JsonTree::Int(b).text() {
        crate::text::decimal_is_injective(a as int, b as int);
    }
}

/// The event types are exactly the labels of the options, but for the empty
/// one.
pub proof fn event_types_are_the_labels(options: Seq<EntryView>, label: Seq<char>)
    ensures
        types_of(options).contains(label) <==> label.len() > 0 && exists|i: int|
            0 <= i < options.len() && label_of(
                (#[trigger] options[i]).name,
                options[i].message,
            ) == label,
    decreases options.len(),
{
    if options.len() > 0 {
        let before = options.drop_last();
        let last = label_of(options.last().name, options.last().message);
        event_types_are_the_labels(before, label);
        event_types_are_the_labels(before, last);
        if types_of(options).contains(label) {
            if types_of(before).contains(label) {
                let i = choose|i: int|
                    0 <= i < before.len() && label_of(
                        (#[trigger] before[i]).name,
                        before[i].message,
                    ) == label;
                assert(options[i] == before[i]);
            } else {
                assert(label == last);
                assert(options[options.len() - 1] == options.last());
            }
        }
        if label.len() > 0 && exists|i: int|
            0 <= i < options.len() && label_of(
                (#[trigger] options[i]).name,
                options[i].message,
            ) == label {
            let i = choose|i: int|
                0 <= i < options.len() && label_of(
                    (#[trigger] options[i]).name,
                    options[i].message,
                ) == label;
            let types = types_of(options);
            if i < options.len() - 1 {
                assert(before[i] == options[i]);
                let k = types_of(before).index_of(label);
                assert(types[k] == label);
            } else if !types_of(before).contains(last) {
                assert(types[types.len() - 1] == label);
            }
        }
    }
}

/// No event type is declared twice.
pub proof fn event_types_are_distinct(options: Seq<EntryView>)
    ensures
        types_of(options).no_duplicates(),
    decreases options.len(),
{
    if options.len() > 0 {
        event_types_are_distinct(options.drop_last());
    }
}

/// Event types keep the order in which the options first name them: what the
/// first options declare comes first.
pub proof fn event_types_keep_their_order(options: Seq<EntryView>, n: int)
    requires
        0 <= n <= options.len(),
    ensures
        types_of(options.take(n)).is_prefix_of(types_of(options)),
    decreases options.len(),
{
    if n < options.len() {
        event_types_keep_their_order(options.drop_last(), n);
        assert(options.drop_last().take(n) == options.take(n));
    } else {
        assert(options.take(n) == options);
    }
}

/// Every label that a value can find is a declared event type.
pub proof fn labels_of_values_are_declared(options: Seq<EntryView>, key: Seq<char>)
    requires
        labels_of(options).contains_key(key),
    ensures
        types_of(options).contains(labels_of(options)[key]),
    decreases options.len(),
{
    let last = options.last();
    let label = label_of(last.name, last.message);
    if label.len() > 0 && !(last.value is Null) && last.value.text() == key {
        assert(options[options.len() - 1] == last);
        event_types_are_the_labels(options, label);
    } else {
        let before = options.drop_last();
        labels_of_values_are_declared(before, key);
        event_types_are_the_labels(before, labels_of(options)[key]);
        event_types_are_the_labels(options, labels_of(options)[key]);
        let i = choose|i: int|
            0 <= i < before.len() && label_of(
                (#[trigger] before[i]).name,
                before[i].message,
            ) == labels_of(options)[key];
        assert(options[i] == before[i]);
    }
}

/// Whether an option gives a label to the values with the given key.
pub open spec fn declares(option: EntryView, key: Seq<char>) -> bool {
    &&& label_of(option.name, option.message).len() > 0
    &&& !(option.value is Null)
    &&& option.value.text() == key
}

/// The label of a value is that of the last option that declares the value.
pub proof fn last_declaration_counts(options: Seq<EntryView>, key: Seq<char>, i: int)
    requires
        0 <= i < options.len(),
        declares(options[i], key),
        forall|j: int| i < j < options.len() ==> !declares(#[trigger] options[j], key),
    ensures
        labels_of(options).contains_key(key),
        labels_of(options)[key] == label_of(options[i].name, options[i].message),
    decreases options.len(),
{
    if i < options.len() - 1 {
        let before = options.drop_last();
        assert forall|j: int| i < j < before.len() implies !declares(#[trigger] before[j], key) by {
            assert(before[j] == options[j]);
        }
        last_declaration_counts(before, key, i);
        assert(!declares(options[options.len() - 1], key));
    }
}

/// A value that no option declares has no label.
pub proof fn undeclared_values_have_no_label(options: Seq<EntryView>, key: Seq<char>)
    requires
        forall|i: int| 0 <= i < options.len() ==> !declares(#[trigger] options[i], key),
    ensures
        !labels_of(options).contains_key(key),
    decreases options.len(),
{
    if options.len() > 0 {
        let before = options.drop_last();
        assert forall|i: int| 0 <= i < before.len() implies !declares(#[trigger] before[i], key) by {
            assert(before[i] == options[i]);
        }
        undeclared_values_have_no_label(before, key);
        assert(!declares(options[options.len() - 1], key));
    }
}

/// Metadata that can be used declares at least one event type, none of them
/// empty and none of them twice, and every label that a value can find is one
/// of them.
pub proof fn usable_metadata_is_sound(event_state: Option<JsonTree>)
    requires
        info_of(event_state) is Some,
    ensures
        ({
            let info = info_of(event_state)->0;
            &&& info.event_types.len() > 0
            &&& info.event_types.no_duplicates()
            &&& !info.event_types.contains(Seq::<char>::empty())
            &&& forall|key: Seq<char>|
                #[trigger] info.label_by_value.contains_key(key) ==> info.event_types.contains(
                    info.label_by_value[key],
                )
        }),
{
    let options = options_of(event_state->0)->0;
    event_types_are_distinct(options);
    event_types_are_the_labels(options, Seq::<char>::empty());
    assert forall|key: Seq<char>| #[trigger]
        labels_of(options).contains_key(key) implies types_of(options).contains(
        labels_of(options)[key],
    ) by {
        labels_of_values_are_declared(options, key);
    }
}

/// There is an event entity exactly for the capabilities whose metadata can be
/// used, and it declares exactly the events of the metadata.
pub proof fn entity_declares_the_metadata(device: DeviceView, cap: CapabilityView)
    ensures
        config_of(device, cap) is Some <==> info_of(cap.event_state) is Some,
        config_of(device, cap) is Some ==> config_of(device, cap)->0.event_types == info_of(
            cap.event_state,
        )->0.event_types,
{
}

/// A message that is not empty is the label, whatever the name is and however
/// long either of them is; without one, the name is.
pub proof fn labels_prefer_the_message(name: Seq<char>, message: Seq<char>)
    ensures
        message.len() > 0 ==> label_of(name, Some(message)) == message,
        message.len() == 0 ==> label_of(name, Some(message)) == name,
        label_of(name, None) == name,
{
}

/// [`event_type_label`] gives the message back, character by character, unless
/// it is missing or empty; then it gives the name back.
pub proof fn labels_are_given_texts(name: &str, message: Option<&str>, label: String)
    requires
        call_ensures(event_type_label, (name, message), label),
    ensures
        message is Some && message->0@.len() > 0 ==> label@ == message->0@,
        message is None || message->0@.len() == 0 ==> label@ == name@,
{
}

/// A string is its own key, and any other value has the key of the string that
/// it prints as.
pub proof fn strings_are_their_own_keys(
    value: &JsonValue,
    key: String,
    text: &JsonValue,
    text_key: String,
)
    requires
        call_ensures(value_key, (value,), key),
        call_ensures(value_key, (text,), text_key),
    ensures
        value matches JsonValue::Text(own) ==> key@ == own@,
        value matches JsonValue::Int(i) ==> key@ == crate::text::decimal(i as int),
        value matches JsonValue::Number(printed) ==> key@ == printed@,
        value matches JsonValue::Array(_, printed) ==> key@ == printed@,
        value matches JsonValue::Object(_, printed) ==> key@ == printed@,
        value is Null ==> key@ == "null"@,
        value is Bool ==> key@ == if value->Bool_0 {
            "true"@
        } else {
            "false"@
        },
        text matches JsonValue::Text(own) && own@ == key@ ==> text_key@ == key@,
{
}

/// Metadata lists options in its field `options`, the only one that it may
/// have as a list of fields. Without that field it lists none, and any other
/// value lists nothing.
pub proof fn options_are_read_from_their_field(metadata: JsonTree)
    ensures
        match metadata {
            JsonTree::Object(members, _) => match crate::json::find_member(members, "options"@) {
                Some(list) => options_of(metadata) == crate::entry::entries_of(list),
                None => options_of(metadata) == Some(Seq::<EntryView>::empty()),
            },
            JsonTree::Array(items, _) => if items.len() == 0 {
                options_of(metadata) == Some(Seq::<EntryView>::empty())
            } else if items.len() == 1 {
                options_of(metadata) == crate::entry::entries_of(items[0])
            } else {
                options_of(metadata) is None
            },
            _ => options_of(metadata) is None,
        },
{
}

/// A value that is not null finds a label exactly if an option with that key
/// and with a label that is not empty declares it, and it finds the label of
/// the last such option.
pub proof fn values_find_the_last_label(options: Seq<EntryView>, key: Seq<char>, label: Seq<char>)
    ensures
        labels_of(options).contains_key(key) && labels_of(options)[key] == label <==> exists|i: int|
            {
                &&& 0 <= i < options.len()
                &&& !((#[trigger] options[i]).value is Null)
                &&& options[i].value.text() == key
                &&& label.len() > 0
                &&& label_of(options[i].name, options[i].message) == label
                &&& forall|j: int|
                    i < j < options.len() && !((#[trigger] options[j]).value is Null)
                        && options[j].value.text() == key ==> label_of(
                        options[j].name,
                        options[j].message,
                    ).len() == 0
            },
    decreases options.len(),
{
    if options.len() > 0 {
        let before = options.drop_last();
        let last = options.last();
        let n = options.len() - 1;
        let last_label = label_of(last.name, last.message);
        let declared = !(last.value is Null) && last.value.text() == key && last_label.len() > 0;
        values_find_the_last_label(before, key, label);
        assert(options[n] == last);
        assert forall|i: int| 0 <= i < n implies before[i] == #[trigger] options[i] by {}
        if labels_of(options).contains_key(key) && labels_of(options)[key] == label {
            if declared {
                assert(label_of(options[n].name, options[n].message) == label);
            } else {
                let i = choose|i: int|
                    {
                        &&& 0 <= i < before.len()
                        &&& !((#[trigger] before[i]).value is Null)
                        &&& before[i].value.text() == key
                        &&& label.len() > 0
                        &&& label_of(before[i].name, before[i].message) == label
                        &&& forall|j: int|
                            i < j < before.len() && !((#[trigger] before[j]).value is Null)
                                && before[j].value.text() == key ==> label_of(
                                before[j].name,
                                before[j].message,
                            ).len() == 0
                    };
                assert(options[i] == before[i]);
                assert forall|j: int|
                    i < j < options.len() && !((#[trigger] options[j]).value is Null)
                        && options[j].value.text() == key implies label_of(
                    options[j].name,
                    options[j].message,
                ).len() == 0 by {
                    if j < n {
                        assert(before[j] == options[j]);
                    }
                }
            }
        }
        if exists|i: int|
            {
                &&& 0 <= i < options.len()
                &&& !((#[trigger] options[i]).value is Null)
                &&& options[i].value.text() == key
                &&& label.len() > 0
                &&& label_of(options[i].name, options[i].message) == label
                &&& forall|j: int|
                    i < j < options.len() && !((#[trigger] options[j]).value is Null)
                        && options[j].value.text() == key ==> label_of(
                        options[j].name,
                        options[j].message,
                    ).len() == 0
            } {
            let i = choose|i: int|
                {
                    &&& 0 <= i < options.len()
                    &&& !((#[trigger] options[i]).value is Null)
                    &&& options[i].value.text() == key
                    &&& label.len() > 0
                    &&& label_of(options[i].name, options[i].message) == label
                    &&& forall|j: int|
                        i < j < options.len() && !((#[trigger] options[j]).value is Null)
                            && options[j].value.text() == key ==> label_of(
                            options[j].name,
                            options[j].message,
                        ).len() == 0
                };
            if i < n {
                assert(before[i] == options[i]);
                assert forall|j: int|
                    i < j < before.len() && !((#[trigger] before[j]).value is Null)
                        && before[j].value.text() == key implies label_of(
                    before[j].name,
                    before[j].message,
                ).len() == 0 by {
                    assert(before[j] == options[j]);
                }
                assert(!declared);
            }
        }
    }
}

/// Metadata can be used exactly if it lists an option with a name or a message
/// that is not empty. What is then known of the events are the labels and the
/// values of the options that it lists.
pub proof fn metadata_with_a_label_can_be_used(
    cap: &DeviceCapability,
    r: Option<EventCapabilityInfo>,
)
    requires
        call_ensures(parse_event_capability, (cap,), r),
    ensures
        r is Some <==> {
            &&& cap.event_state is Some
            &&& options_of(cap.event_state->0@) is Some
            &&& exists|i: int|
                0 <= i < options_of(cap.event_state->0@)->0.len() && {
                    let option = #[trigger] options_of(cap.event_state->0@)->0[i];
                    option.name.len() > 0 || (option.message is Some && option.message->0.len() > 0)
                }
        },
        r matches Some(info) ==> {
            let options = options_of(cap.event_state->0@)->0;
            &&& info.event_types@.len() == types_of(options).len()
            &&& forall|i: int|
                0 <= i < info.event_types@.len() ==> (#[trigger] info.event_types@[i])@ == types_of(
                    options,
                )[i]
            &&& forall|key: Seq<char>|
                info.label_by_value@.contains_key(key) <==> #[trigger] labels_of(
                    options,
                ).contains_key(key)
            &&& forall|key: Seq<char>|
                info.label_by_value@.contains_key(key) ==> #[trigger] info.label_by_value@[key]@
                    == labels_of(options)[key]
        },
{
    if cap.event_state is Some && options_of(cap.event_state->0@) is Some {
        let options = options_of(cap.event_state->0@)->0;
        let types = types_of(options);
        if types.len() > 0 {
            event_types_are_the_labels(options, types[0]);
            let i = choose|i: int|
                0 <= i < options.len() && label_of(
                    (#[trigger] options[i]).name,
                    options[i].message,
                ) == types[0];
            assert(types.contains(types[0]));
            labels_prefer_the_message(options[i].name, types[0]);
        }
        if exists|i: int|
            0 <= i < options.len() && {
                let option = #[trigger] options[i];
                option.name.len() > 0 || (option.message is Some && option.message->0.len() > 0)
            } {
            let i = choose|i: int|
                0 <= i < options.len() && {
                    let option = #[trigger] options[i];
                    option.name.len() > 0 || (option.message is Some && option.message->0.len() > 0)
                };
            event_types_are_the_labels(options, label_of(options[i].name, options[i].message));
        }
        if let Some(info) = r {
            let types_view = info@.event_types;
            assert(types_view.len() == info.event_types@.len());
            assert(types_view == types);
            assert forall|i: int| 0 <= i < info.event_types@.len() implies (
            #[trigger] info.event_types@[i])@ == types[i] by {
                assert(types_view[i] == info.event_types@[i]@);
            }
            let labels_view = info@.label_by_value;
            assert(labels_view == labels_of(options));
            assert forall|key: Seq<char>|
                info.label_by_value@.contains_key(key) <==> #[trigger] labels_of(
                    options,
                ).contains_key(key) by {
                assert(labels_view.contains_key(key) == info.label_by_value@.contains_key(key));
            }
            assert forall|key: Seq<char>| info.label_by_value@.contains_key(key) implies
                #[trigger] info.label_by_value@[key]@ == labels_of(options)[key] by {
                assert(labels_view[key] == info.label_by_value@[key]@);
            }
        }
    }
}

/// Every option with a message declares that message as an event type, every
/// option with only a name declares its name, and the value of an option finds
/// its label unless a later option has the same value.
pub proof fn options_declare_their_events(
    cap: &DeviceCapability,
    info: EventCapabilityInfo,
    i: int,
    label: Seq<char>,
)
    requires
        call_ensures(parse_event_capability, (cap,), Some(info)),
        0 <= i < options_of(cap.event_state->0@)->0.len(),
        ({
            let option = options_of(cap.event_state->0@)->0[i];
            ||| option.message == Some(label)
            ||| option.name == label && (option.message is None || option.message->0.len() == 0)
        }),
        label.len() > 0,
    ensures
        exists|k: int| 0 <= k < info.event_types@.len() && (#[trigger] info.event_types@[k])@ == label,
        ({
            let options = options_of(cap.event_state->0@)->0;
            !(options[i].value is Null) && (forall|j: int|
                i < j < options.len() ==> (#[trigger] options[j]).value.text()
                    != options[i].value.text()) ==> {
                &&& info.label_by_value@.contains_key(options[i].value.text())
                &&& info.label_by_value@[options[i].value.text()]@ == label
            }
        }),
{
    let options = options_of(cap.event_state->0@)->0;
    let option = options[i];
    labels_prefer_the_message(option.name, label);
    assert(label_of(option.name, option.message) == label);
    metadata_with_a_label_can_be_used(cap, Some(info));
    event_types_are_the_labels(options, label);
    let k = types_of(options).index_of(label);
    assert(info.event_types@[k]@ == label);
    if !(option.value is Null) && (forall|j: int|
        i < j < options.len() ==> (#[trigger] options[j]).value.text() != option.value.text()) {
        values_find_the_last_label(options, option.value.text(), label);
        assert(labels_of(options).contains_key(option.value.text()));
        assert(info.label_by_value@[option.value.text()]@ == labels_of(
            options,
        )[option.value.text()]);
    }
}

/// The name and the icon of an instance: two instances have theirs by name.
/// Any other is put into words without an `Event` at its end, and has no icon.
pub proof fn instances_are_presented_by_name(
    instance: &str,
    stem: Seq<char>,
    r: (String, Option<&'static str>),
)
    requires
        call_ensures(event_presentation, (instance,), r),
    ensures
        instance@ == "iceFull"@ ==> r.0@ == "Ice Maker Full"@ && r.1 is Some && r.1->0@
            == "mdi:bucket"@,
        instance@ == "lackWaterEvent"@ ==> r.0@ == "Lack of Water"@ && r.1 is Some && r.1->0@
            == "mdi:water-alert-outline"@,
        instance@ != "iceFull"@ && instance@ != "lackWaterEvent"@ ==> {
            &&& r.1 is None
            &&& instance@ == stem + "Event"@ ==> r.0@ == crate::text::words(stem)
            &&& (forall|s: Seq<char>| instance@ != #[trigger] (s + "Event"@)) ==> r.0@
                == crate::text::words(instance@)
        },
{
    lemma_presentation(instance@, stem);
}

proof fn lemma_presentation(instance: Seq<char>, stem: Seq<char>)
    ensures
        instance == "iceFull"@ ==> presentation(instance) == (
            "Ice Maker Full"@,
            Some("mdi:bucket"@),
        ),
        instance == "lackWaterEvent"@ ==> presentation(instance) == (
            "Lack of Water"@,
            Some("mdi:water-alert-outline"@),
        ),
        instance != "iceFull"@ && instance != "lackWaterEvent"@ ==> {
            &&& presentation(instance).1 is None
            &&& instance == stem + "Event"@ ==> presentation(instance).0 == crate::text::words(stem)
            &&& (forall|s: Seq<char>| instance != #[trigger] (s + "Event"@)) ==> presentation(
                instance,
            ).0 == crate::text::words(instance)
        },
{
    reveal_strlit("iceFull");
    reveal_strlit("lackWaterEvent");
    assert("iceFull"@.len() == 7);
    assert("lackWaterEvent"@.len() == 14);
    crate::text::trailing_suffix_is_dropped(stem, "Event"@);
    if forall|s: Seq<char>| instance != #[trigger] (s + "Event"@) {
        crate::text::other_texts_keep_their_end(instance, "Event"@);
    }
}

/// An event entity is presented by the instance of its own capability, and has
/// no icon where that instance has none.
pub proof fn entities_are_presented_by_their_instance(
    device: &Device,
    cap: &DeviceCapability,
    stem: Seq<char>,
    config: EventConfig,
)
    requires
        call_ensures(EventConfig::new, (device, cap), Some(config)),
    ensures
        config.base.name is Some,
        cap.instance@ == "iceFull"@ ==> config.base.name->0@ == "Ice Maker Full"@
            && config.base.icon is Some && config.base.icon->0@ == "mdi:bucket"@,
        cap.instance@ == "lackWaterEvent"@ ==> config.base.name->0@ == "Lack of Water"@
            && config.base.icon is Some && config.base.icon->0@ == "mdi:water-alert-outline"@,
        cap.instance@ != "iceFull"@ && cap.instance@ != "lackWaterEvent"@ ==> {
            &&& config.base.icon is None
            &&& cap.instance@ == stem + "Event"@ ==> config.base.name->0@ == crate::text::words(
                stem,
            )
            &&& (forall|s: Seq<char>| cap.instance@ != #[trigger] (s + "Event"@))
                ==> config.base.name->0@ == crate::text::words(cap.instance@)
        },
{
    lemma_presentation(cap.instance@, stem);
    assert(config@.base.name == Some(presentation(cap@.instance).0));
    assert(config@.base.icon == presentation(cap@.instance).1);
}

/// An event entity belongs to the given device: its topic and its id are those
/// of that device's id and of the capability's instance, and it says what
/// Home Assistant is told of that device. It has no category and no class.
pub proof fn entities_belong_to_their_device(
    device: &Device,
    cap: &DeviceCapability,
    config: EventConfig,
)
    requires
        call_ensures(EventConfig::new, (device, cap), Some(config)),
    ensures
        config.state_topic@ == crate::topic::event_topic(device.id@, cap.instance@),
        config.base.unique_id@ == crate::topic::event_unique_id(device.id@, cap.instance@),
        config.base.device.model@ == device.sku@,
        config.base.device.manufacturer@ == "Govee"@,
        config.base.device.name@ == crate::entity::device_name(device.sku@, device.id@),
        config.base.device.via_device is Some && config.base.device.via_device->0@ == "gv2mqtt"@,
        config.base.device.identifiers@.len() == 1,
        config.base.device.identifiers@[0]@ == "gv2mqtt-"@ + crate::topic::safe_id(device.id@),
        config.base.availability_topic@ == "gv2mqtt/availability"@,
        config.base.origin.name@ == "gv2mqtt"@,
        config.base.origin.url@ == "https://github.com/wez/govee2mqtt"@,
        config.base.entity_category is None,
        config.base.device_class is None,
{
    let shown = config@;
    assert(shown.base.device == crate::entity::device_block(device@));
    assert(shown.base.device.identifiers[0] == "gv2mqtt-"@ + crate::topic::safe_id(device.id@));
    assert(shown.base.device.identifiers.len() == config.base.device.identifiers@.len());
    assert(shown.base.entity_category is None);
    assert(shown.base.device_class is None);
}

/// An event entity is there exactly for metadata that can be used, and it
/// declares the same event types, in the same order.
pub proof fn entities_declare_what_is_parsed(
    device: &Device,
    cap: &DeviceCapability,
    config: Option<EventConfig>,
    info: Option<EventCapabilityInfo>,
)
    requires
        call_ensures(EventConfig::new, (device, cap), config),
        call_ensures(parse_event_capability, (cap,), info),
    ensures
        config is Some <==> info is Some,
        config is Some ==> {
            &&& config->0.event_types@.len() == info->0.event_types@.len()
            &&& forall|i: int|
                0 <= i < config->0.event_types@.len() ==> (#[trigger] config->0.event_types@[i])@
                    == info->0.event_types@[i]@
        },
{
    if config is Some && info is Some {
        let declared = config->0@.event_types;
        let parsed = info->0@.event_types;
        assert(declared == parsed);
        assert(declared.len() == config->0.event_types@.len());
        assert(parsed.len() == info->0.event_types@.len());
        assert forall|i: int| 0 <= i < config->0.event_types@.len() implies (
        #[trigger] config->0.event_types@[i])@ == info->0.event_types@[i]@ by {
            assert(declared[i] == config->0.event_types@[i]@);
            assert(parsed[i] == info->0.event_types@[i]@);
        }
    }
}

} // verus!
