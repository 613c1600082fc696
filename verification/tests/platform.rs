use govee_events::device::{Device, DeviceCapability, DeviceCapabilityKind};
use govee_events::event::EventConfig;
use govee_events::json::JsonValue;
use govee_events::message::{CapabilityFields, MessageFields, PlatformMessage};
use govee_events::platform::{handle_platform_message, EventPublication, MessageOutcome};
use serde_json::Value;

fn from_json(json: &str) -> JsonValue {
    JsonValue::from_value(&serde_json::from_str::<Value>(json).unwrap())
}

/// The fields of a payload that is an object, with reports that are objects.
fn fields(payload: &str) -> MessageFields {
    let payload: Value = serde_json::from_str(payload).unwrap();
    let reports = match payload.get("capabilities") {
        Some(reports) => reports.as_array().unwrap().clone(),
        None => Vec::new(),
    };
    MessageFields {
        device: payload.get("device").map(JsonValue::from_value),
        capabilities: reports
            .iter()
            .map(|report| CapabilityFields {
                kind: JsonValue::from_value(&report["type"]),
                instance: JsonValue::from_value(&report["instance"]),
                state: report.get("state").map(JsonValue::from_value),
            })
            .collect(),
    }
}

fn sensor() -> Device {
    let mut device = Device::new("H5127", "06:30:60:74:F4:45:B9:DA");
    device.capabilities.push(DeviceCapability {
        kind: DeviceCapabilityKind::Event,
        instance: "bodyAppearedEvent".to_string(),
        event_state: Some(
            from_json(
                r#"{"options": [{"name": "Presence", "value": 1}, {"name": "Absence", "value": 2}]}"#,
            ),
        ),
    });
    device.capabilities.push(DeviceCapability {
        kind: DeviceCapabilityKind::Other("devices.capabilities.toggle".to_string()),
        instance: "nightlightToggle".to_string(),
        event_state: Some(from_json(r#"{"options": [{"name": "on", "value": 1}]}"#)),
    });
    device
}

fn message(capabilities: &str) -> PlatformMessage {
    PlatformMessage::from_fields(&fields(&format!(
        r#"{{"device": "06:30:60:74:F4:45:B9:DA", "capabilities": {capabilities}}}"#
    )))
    .unwrap()
}

fn handled(capabilities: &str, hass_ready: bool) -> (Vec<EventPublication>, bool) {
    match handle_platform_message(&message(capabilities), Some(&sensor()), hass_ready) {
        MessageOutcome::Handled { publications, poll } => (publications, poll),
        other => panic!("unexpected {other:?}"),
    }
}

fn types(publications: &[EventPublication]) -> Vec<&str> {
    publications.iter().map(|p| p.event_type.as_str()).collect()
}

const EVENT: &str = r#"{"type": "devices.capabilities.event", "instance": "bodyAppearedEvent", "#;

#[test]
fn parse_ice_maker_out_of_water() {
    let payload = r#"{
            "sku": "H7172",
            "device": "41:DA:D4:AD:FC:46:00:64",
            "deviceName": "H7172",
            "capabilities": [
                {
                    "type": "devices.capabilities.event",
                    "instance": "lackWaterEvent",
                    "state": [
                        {"name": "lack", "value": 1, "message": "Lack of Water"}
                    ]
                }
            ]
        }"#;

    let message = PlatformMessage::from_fields(&fields(payload)).unwrap();
    assert_eq!(message.device.as_deref(), Some("41:DA:D4:AD:FC:46:00:64"));
    assert_eq!(message.capabilities.len(), 1);
    let cap = &message.capabilities[0];
    assert_eq!(cap.kind, DeviceCapabilityKind::Event);
    assert_eq!(cap.instance, "lackWaterEvent");

    let entries = cap.entries();
    assert_eq!(entries.len(), 1);
    assert_eq!(entries[0].name, "lack");
    assert_eq!(entries[0].value, JsonValue::Int(1));
    assert_eq!(entries[0].message.as_deref(), Some("Lack of Water"));
}

#[test]
fn non_array_state_does_not_fail_message_parse() {
    // A hypothetical state-style push where `state` is an object rather
    // than an array must still parse at the message level.
    let payload = r#"{
            "sku": "H7172",
            "device": "AA:BB",
            "capabilities": [
                {
                    "type": "devices.capabilities.online",
                    "instance": "online",
                    "state": {"value": true}
                }
            ]
        }"#;

    let message = PlatformMessage::from_fields(&fields(payload)).unwrap();
    assert_eq!(message.capabilities.len(), 1);
    // And interpreting the object state as event entries yields nothing,
    // rather than panicking.
    let entries = message.capabilities[0].entries();
    assert!(entries.is_empty());
}

#[test]
fn presence_event_parses() {
    let payload = r#"{
            "sku": "H5127",
            "device": "06:30:60:74:F4:45:B9:DA",
            "deviceName": "Presence Sensor",
            "capabilities": [
                {
                    "type": "devices.capabilities.event",
                    "instance": "bodyAppearedEvent",
                    "state": [ {"name": "Presence", "value": 1} ]
                }
            ]
        }"#;

    let message = PlatformMessage::from_fields(&fields(payload)).unwrap();
    let entries = message.capabilities[0].entries();
    assert_eq!(entries[0].name, "Presence");
    assert_eq!(entries[0].message, None);
}

#[test]
fn fields_of_another_kind() {
    for payload in [
        r#"{"device": 1}"#,
        r#"{"device": ["AA"]}"#,
        r#"{"capabilities": [{"instance": "x"}]}"#,
        r#"{"capabilities": [{"type": "y"}]}"#,
        r#"{"capabilities": [{"type": 1, "instance": "x"}]}"#,
        r#"{"capabilities": [{"type": "y", "instance": "x"}, {"type": "y", "instance": null}]}"#,
    ] {
        assert!(
            PlatformMessage::from_fields(&fields(payload)).is_none(),
            "{payload}"
        );
    }
}

#[test]
fn fields_may_be_missing() {
    let empty = PlatformMessage::from_fields(&fields("{}")).unwrap();
    assert_eq!(empty.device, None);
    assert!(empty.capabilities.is_empty());
    let null = PlatformMessage::from_fields(&fields(r#"{"device": null}"#)).unwrap();
    assert_eq!(null.device, None);
    let stateless = message(r#"[{"type": "k", "instance": "i"}]"#);
    assert_eq!(
        stateless.capabilities[0].kind,
        DeviceCapabilityKind::Other("k".to_string())
    );
    assert_eq!(stateless.capabilities[0].instance, "i");
    assert_eq!(stateless.capabilities[0].state, JsonValue::Null);
}

#[test]
fn state_of_any_shape_is_kept() {
    for state in ["null", "true", "1", "2.5", r#""s""#, "[]", r#"[{"name": 1}]"#, "{}"] {
        let message = message(&format!(
            r#"[{{"type": "devices.capabilities.event", "instance": "i", "state": {state}}}]"#
        ));
        assert_eq!(message.capabilities[0].kind, DeviceCapabilityKind::Event);
        assert_eq!(message.capabilities[0].state, from_json(state));
        assert!(message.capabilities[0].entries().is_empty());
    }
}

#[test]
fn entries_with_missing_fields() {
    let message = message(r#"[{"type": "t", "instance": "i", "state": [{}, [], ["n", 2]]}]"#);
    let entries = message.capabilities[0].entries();
    assert_eq!(entries.len(), 3);
    assert_eq!(entries[0].name, "");
    assert_eq!(entries[0].value, JsonValue::Null);
    assert_eq!(entries[0].message, None);
    assert_eq!(entries[1], entries[0]);
    assert_eq!(entries[2].name, "n");
    assert_eq!(entries[2].value, JsonValue::Int(2));
}

#[test]
fn one_bad_entry_spoils_the_list() {
    let message =
        message(r#"[{"type": "t", "instance": "i", "state": [{"name": "a"}, {"name": 1}]}]"#);
    assert!(message.capabilities[0].entries().is_empty());
}

#[test]
fn message_without_device_is_ignored() {
    let message = PlatformMessage::from_fields(&fields("{}")).unwrap();
    assert_eq!(
        handle_platform_message(&message, Some(&sensor()), true),
        MessageOutcome::NoDevice
    );
}

#[test]
fn message_for_unknown_device_is_ignored() {
    assert_eq!(
        handle_platform_message(&message("[]"), None, true),
        MessageOutcome::UnknownDevice
    );
}

#[test]
fn events_are_published_in_order() {
    let (publications, poll) = handled(
        &format!(
            r#"[{EVENT}"state": [{{"name": "Presence", "value": 1}}, {{"name": "Absence", "value": 2}}]}},
                {EVENT}"state": [{{"name": "Presence", "value": 1}}]}}]"#
        ),
        true,
    );
    assert_eq!(types(&publications), ["Presence", "Absence", "Presence"]);
    assert!(publications.iter().all(|p| p.advertised));
    assert!(!poll);
}

#[test]
fn declared_label_wins_over_texts() {
    let (publications, _) = handled(
        &format!(r#"[{EVENT}"state": [{{"name": "x", "value": "1", "message": "y"}}]}}]"#),
        true,
    );
    let event = &publications[0];
    assert_eq!(event.event_type, "Presence");
    assert!(event.advertised);
    assert_eq!(event.name, "x");
    assert_eq!(event.value, JsonValue::Text("1".to_string()));
    assert_eq!(event.message.as_deref(), Some("y"));
}

#[test]
fn undeclared_value_takes_its_own_label() {
    let (publications, poll) = handled(
        &format!(
            r#"[{EVENT}"state": [{{"name": "x", "value": 9, "message": "y"}}, {{"name": "Absence"}}]}}]"#
        ),
        true,
    );
    assert_eq!(types(&publications), ["y", "Absence"]);
    assert!(!publications[0].advertised);
    assert!(publications[1].advertised);
    assert!(!poll);
}

#[test]
fn events_go_to_the_topic_of_their_entity() {
    let device = sensor();
    let config = EventConfig::new(&device, &device.capabilities[0]).unwrap();
    let (publications, _) = handled(
        &format!(r#"[{EVENT}"state": [{{"name": "Presence", "value": 1}}]}}]"#),
        true,
    );
    assert_eq!(publications[0].topic, config.state_topic);
    assert!(config.event_types.contains(&publications[0].event_type));
}

#[test]
fn state_update_polls() {
    let (publications, poll) = handled(
        r#"[{"type": "devices.capabilities.online", "instance": "online", "state": {"value": true}}]"#,
        true,
    );
    assert!(publications.is_empty());
    assert!(poll);
}

#[test]
fn unmapped_event_polls() {
    for instance in ["otherEvent", "nightlightToggle"] {
        let (publications, poll) = handled(
            &format!(
                r#"[{{"type": "devices.capabilities.event", "instance": "{instance}", "state": [{{"name": "a", "value": 1}}]}}]"#
            ),
            true,
        );
        assert!(publications.is_empty());
        assert!(poll);
    }
}

#[test]
fn without_home_assistant_events_poll() {
    let (publications, poll) = handled(
        &format!(r#"[{EVENT}"state": [{{"name": "Presence", "value": 1}}]}}]"#),
        false,
    );
    assert!(publications.is_empty());
    assert!(poll);
    assert_eq!(handled("[]", false), (Vec::new(), false));
}

#[test]
fn one_unmapped_report_does_not_stop_the_others() {
    let (publications, poll) = handled(
        &format!(
            r#"[{{"type": "t", "instance": "i"}}, {EVENT}"state": [{{"name": "Presence", "value": 1}}]}}]"#
        ),
        true,
    );
    assert_eq!(types(&publications), ["Presence"]);
    assert!(poll);
}

#[test]
fn event_without_readable_entries_publishes_nothing() {
    let (publications, poll) = handled(&format!(r#"[{EVENT}"state": {{"value": 1}}}}]"#), true);
    assert!(publications.is_empty());
    assert!(!poll);
}

#[test]
fn first_capability_of_an_instance_counts() {
    let mut device = sensor();
    let second = DeviceCapability {
        kind: DeviceCapabilityKind::Other("x".to_string()),
        instance: "bodyAppearedEvent".to_string(),
        event_state: None,
    };
    device.capabilities.push(second);
    let found = device.get_capability_by_instance("bodyAppearedEvent").unwrap();
    assert_eq!(found.kind, DeviceCapabilityKind::Event);
    assert!(device.get_capability_by_instance("none").is_none());
}

#[test]
fn payload_names_its_members() {
    let (publications, _) = handled(
        &format!(r#"[{EVENT}"state": [{{"name": "Presence", "value": 1}}, {{"message": "m"}}]}}]"#),
        true,
    );
    let text = |s: &str| JsonValue::Text(s.to_string());
    assert_eq!(
        publications[0].payload(),
        vec![
            ("event_type", text("Presence")),
            ("name", text("Presence")),
            ("value", JsonValue::Int(1)),
            ("message", JsonValue::Null),
        ]
    );
    assert_eq!(
        publications[1].payload(),
        vec![
            ("event_type", text("m")),
            ("name", text("")),
            ("value", JsonValue::Null),
            ("message", text("m")),
        ]
    );
}

#[test]
fn json_values_are_taken_over_whole() {
    let value = from_json(r#"{"b": [1, {"c": "d"}], "a": 2.5, "b": [null, false]}"#);
    let text = |s: &str| s.to_string();
    assert_eq!(
        value,
        JsonValue::Object(
            vec![
                (text("a"), JsonValue::Number(text("2.5"))),
                (
                    text("b"),
                    JsonValue::Array(
                        vec![JsonValue::Null, JsonValue::Bool(false)],
                        text("[null,false]")
                    )
                ),
            ],
            text(r#"{"a":2.5,"b":[null,false]}"#)
        )
    );
    assert_eq!(value.clone(), value);
}
