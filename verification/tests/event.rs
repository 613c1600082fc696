use govee_events::device::{Device, DeviceCapability, DeviceCapabilityKind};
use govee_events::event::{
    event_presentation, event_type_label, parse_event_capability, value_key, EventConfig,
};
use govee_events::json::JsonValue;

fn from_json(json: &str) -> JsonValue {
    JsonValue::from_value(&serde_json::from_str::<serde_json::Value>(json).unwrap())
}

fn cap(json: &str) -> DeviceCapability {
    let value = from_json(json);
    let text = |name: &str| match value.field(name, 0) {
        Some(JsonValue::Text(text)) => text.clone(),
        other => panic!("unexpected {name}: {other:?}"),
    };
    DeviceCapability {
        kind: DeviceCapabilityKind::from_name(&text("type")),
        instance: text("instance"),
        event_state: value.field("eventState", 0).cloned(),
    }
}

fn key_of_json(json: &str) -> String {
    value_key(&from_json(json))
}

fn event_cap(event_state: &str) -> DeviceCapability {
    cap(&format!(
        r#"{{"type": "devices.capabilities.event", "instance": "someEvent", "eventState": {event_state}}}"#
    ))
}

#[test]
fn parse_lack_water_event() {
    let cap = cap(
        r#"{
                "type": "devices.capabilities.event",
                "instance": "lackWaterEvent",
                "alarmType": 51,
                "eventState": {
                    "options": [
                        {"name": "lack", "value": 1, "message": "Lack of Water"}
                    ]
                }
            }"#,
    );
    let info = parse_event_capability(&cap).expect("usable metadata");
    assert_eq!(info.event_types, vec!["Lack of Water".to_string()]);
    assert_eq!(
        info.label_by_value.get("1"),
        Some(&"Lack of Water".to_string())
    );
}

#[test]
fn parse_presence_event_without_message() {
    let cap = cap(
        r#"{
                "type": "devices.capabilities.event",
                "instance": "bodyAppearedEvent",
                "eventState": {
                    "options": [
                        {"name": "Presence", "value": 1},
                        {"name": "Absence", "value": 2}
                    ]
                }
            }"#,
    );
    let info = parse_event_capability(&cap).expect("usable metadata");
    assert_eq!(
        info.event_types,
        vec!["Presence".to_string(), "Absence".to_string()]
    );
    assert_eq!(info.label_by_value.get("1"), Some(&"Presence".to_string()));
    assert_eq!(info.label_by_value.get("2"), Some(&"Absence".to_string()));
}

#[test]
fn parse_event_without_options_is_none() {
    let cap = cap(
        r#"{
                "type": "devices.capabilities.event",
                "instance": "someEvent",
                "eventState": {"options": []}
            }"#,
    );
    assert!(parse_event_capability(&cap).is_none());
}

#[test]
fn value_key_normalizes() {
    let one = JsonValue::from_value(&serde_json::Value::from(1));
    let abc = JsonValue::from_value(&serde_json::Value::from("abc"));
    let one_text = JsonValue::from_value(&serde_json::Value::from("1"));
    assert_eq!(value_key(&one), "1");
    assert_eq!(value_key(&abc), "abc");
    // An integer and its string form normalize to the same key.
    assert_eq!(value_key(&one), value_key(&one_text));
}

#[test]
fn label_prefers_message() {
    assert_eq!(
        event_type_label("lack", Some("Lack of Water")),
        "Lack of Water"
    );
    assert_eq!(event_type_label("Presence", None), "Presence");
    assert_eq!(event_type_label("Presence", Some("")), "Presence");
}

#[test]
fn presentation_known_and_fallback() {
    assert_eq!(
        event_presentation("iceFull"),
        ("Ice Maker Full".to_string(), Some("mdi:bucket"))
    );
    assert_eq!(
        event_presentation("lackWaterEvent"),
        ("Lack of Water".to_string(), Some("mdi:water-alert-outline"))
    );
    // Unknown instance: humanized name, trailing "Event" dropped, no icon.
    assert_eq!(
        event_presentation("bodyAppearedEvent"),
        ("Body Appeared".to_string(), None)
    );
}

#[test]
fn event_config_uses_friendly_name_and_icon() {
    let device = Device::new("H7172", "9A:52:60:74:F4:48:A5:DE");
    let cap = cap(
        r#"{
                "type": "devices.capabilities.event",
                "instance": "iceFull",
                "eventState": {
                    "options": [
                        {"name": "iceFull", "value": 1, "message": "ice maker full"}
                    ]
                }
            }"#,
    );
    let ev = EventConfig::new(&device, &cap).expect("entity");
    assert_eq!(ev.base.name.as_deref(), Some("Ice Maker Full"));
    assert_eq!(ev.base.icon.as_deref(), Some("mdi:bucket"));
    assert_eq!(ev.event_types, vec!["ice maker full".to_string()]);
}

#[test]
fn event_config_identifies_the_entity() {
    let device = Device::new("H7172", "9A:52:60:74:F4:48:A5:DE");
    let mut cap = event_cap(r#"{"options": [{"name": "x"}]}"#);
    cap.instance = "some/thing new".to_string();
    let ev = EventConfig::new(&device, &cap).expect("entity");
    assert_eq!(
        ev.base.unique_id,
        "gv2mqtt-9A526074F448A5DE-event-some_thing_new"
    );
    assert_eq!(
        ev.state_topic,
        "gv2mqtt/event/9A526074F448A5DE/some_thing_new/state"
    );
    assert_eq!(ev.base.availability_topic, "gv2mqtt/availability");
    assert_eq!(ev.base.entity_category, None);
    assert_eq!(ev.base.device_class, None);
    assert_eq!(ev.base.origin.name, "gv2mqtt");
    assert_eq!(ev.base.device.name, "H7172_A5DE");
    assert_eq!(ev.base.device.model, "H7172");
    assert_eq!(
        ev.base.device.identifiers,
        vec!["gv2mqtt-9A526074F448A5DE".to_string()]
    );
}

#[test]
fn no_entity_without_usable_metadata() {
    let device = Device::new("H7172", "AA:BB");
    assert!(EventConfig::new(&device, &event_cap(r#"{"options": []}"#)).is_none());
    let mut bare = event_cap("{}");
    bare.event_state = None;
    assert!(EventConfig::new(&device, &bare).is_none());
}

#[test]
fn fallback_names() {
    assert_eq!(event_presentation("doorOpened").0, "Door Opened");
    assert_eq!(event_presentation("Event").0, "");
    assert_eq!(event_presentation("").0, "");
    assert_eq!(event_presentation("eventLog").0, "Event Log");
    assert_eq!(event_presentation("x2Event").0, "X2");
    assert_eq!(event_presentation("\u{e9}teEvent").0, "\u{e9}te");
}

#[test]
fn keys_of_every_kind_of_value() {
    assert_eq!(key_of_json("0"), "0");
    assert_eq!(key_of_json("-17"), "-17");
    assert_eq!(key_of_json("9223372036854775807"), "9223372036854775807");
    assert_eq!(key_of_json("-9223372036854775808"), "-9223372036854775808");
    assert_eq!(key_of_json("18446744073709551615"), "18446744073709551615");
    assert_eq!(key_of_json("1.50"), "1.5");
    assert_eq!(key_of_json("null"), "null");
    assert_eq!(key_of_json("true"), "true");
    assert_eq!(key_of_json("false"), "false");
    assert_eq!(key_of_json(r#""a\"b""#), "a\"b");
    assert_eq!(key_of_json(r#"[1, "a" , null]"#), r#"[1,"a",null]"#);
    assert_eq!(
        key_of_json(r#"{ "b": [true], "a": {} }"#),
        r#"{"a":{},"b":[true]}"#
    );
}

#[test]
fn integer_keys_are_distinct() {
    let keys: Vec<String> = [-10i64, -1, 0, 1, 10, 11, 101]
        .iter()
        .map(|i| value_key(&JsonValue::Int(*i)))
        .collect();
    assert_eq!(keys, ["-10", "-1", "0", "1", "10", "11", "101"]);
}

#[test]
fn labels_are_declared_once_in_order() {
    let cap = event_cap(
        r#"{"options": [
            {"name": "b", "value": 1},
            {"name": "a", "value": 2},
            {"name": "", "value": 3},
            {"name": "x", "message": "b", "value": "4"},
            {"name": "c"}
        ]}"#,
    );
    let info = parse_event_capability(&cap).expect("usable metadata");
    assert_eq!(info.event_types, ["b", "a", "c"]);
    assert_eq!(info.label_by_value.len(), 3);
    assert_eq!(info.label_by_value.get("1"), Some(&"b".to_string()));
    assert_eq!(info.label_by_value.get("2"), Some(&"a".to_string()));
    assert_eq!(info.label_by_value.get("3"), None);
    assert_eq!(info.label_by_value.get("4"), Some(&"b".to_string()));
}

#[test]
fn later_option_with_the_same_value_counts() {
    let cap = event_cap(
        r#"{"options": [{"name": "a", "value": 1}, {"name": "b", "value": "1"}]}"#,
    );
    let info = parse_event_capability(&cap).expect("usable metadata");
    assert_eq!(info.event_types, ["a", "b"]);
    assert_eq!(info.label_by_value.get("1"), Some(&"b".to_string()));
}

#[test]
fn metadata_of_another_shape_is_none() {
    for state in [
        "null",
        "1",
        r#""options""#,
        "{}",
        "[]",
        r#"{"options": null}"#,
        r#"{"options": {}}"#,
        r#"{"options": [1]}"#,
        r#"{"options": [{"name": "a"}, {"name": null}]}"#,
        r#"{"options": [{"name": "a", "message": 1}]}"#,
        r#"[[{"name": "a"}], 1]"#,
    ] {
        assert!(parse_event_capability(&event_cap(state)).is_none(), "{state}");
    }
}

#[test]
fn metadata_as_a_list_of_fields() {
    let info = parse_event_capability(&event_cap(r#"[[["a", 7, "A"], ["b"]]]"#)).unwrap();
    assert_eq!(info.event_types, ["A", "b"]);
    assert_eq!(info.label_by_value.get("7"), Some(&"A".to_string()));
    assert_eq!(info.label_by_value.len(), 1);
}
