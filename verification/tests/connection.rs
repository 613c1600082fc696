use govee_events::broker::{
    client_id, connect_settings, new_client_id, next_action, subscriptions, BrokerEvent, QoS,
    SubscriberAction,
};
use govee_events::ca::{
    classify_ca, resolve_ca_location, system_ca_files, CaError, CaLocation, ProbedPath,
    SYSTEM_CA_DIR,
};
use govee_events::device::Device;
use govee_events::poll::{maybe_poll_device, PollCooldown, PollDecision, Timestamp};
use govee_events::supervisor::{RunOutcome, Supervisor};
use std::path::{Path, PathBuf};

const SECOND: u64 = 1_000_000_000;

fn probed(path: &str, is_dir: bool, exists: bool) -> ProbedPath {
    ProbedPath {
        path: PathBuf::from(path),
        is_dir,
        exists,
    }
}

fn files(existing: &[usize]) -> Vec<ProbedPath> {
    system_ca_files()
        .into_iter()
        .enumerate()
        .map(|(i, file)| probed(file, false, existing.contains(&i)))
        .collect()
}

fn dir(is_dir: bool) -> ProbedPath {
    probed(SYSTEM_CA_DIR, is_dir, is_dir)
}

fn at(seconds: i64) -> Timestamp {
    Timestamp { seconds, nanos: 0 }
}

#[test]
fn override_is_taken_first() {
    let r = resolve_ca_location(
        Some(probed("/own.pem", false, true)),
        Ok(Some(probed("/env.pem", false, true))),
        files(&[0]),
        dir(true),
    );
    assert!(matches!(r, Ok(CaLocation::File(path)) if path == Path::new("/own.pem")));
    let r = resolve_ca_location(
        Some(probed("/own", true, true)),
        Err("unreadable".to_string()),
        files(&[]),
        dir(false),
    );
    assert!(matches!(r, Ok(CaLocation::Path(path)) if path == Path::new("/own")));
}

#[test]
fn environment_comes_second() {
    let r = resolve_ca_location(
        None,
        Ok(Some(probed("/env", true, true))),
        files(&[0]),
        dir(true),
    );
    assert!(matches!(r, Ok(CaLocation::Path(path)) if path == Path::new("/env")));
    let r = resolve_ca_location(None, Err("bad".to_string()), files(&[0]), dir(true));
    assert!(matches!(r, Err(CaError::Environment(reason)) if reason == "bad"));
}

#[test]
fn configured_location_must_exist() {
    let r = classify_ca(probed("/gone", false, false));
    assert!(matches!(r, Err(CaError::Missing(path)) if path == Path::new("/gone")));
    let r = resolve_ca_location(
        None,
        Ok(Some(probed("/gone", false, false))),
        files(&[0]),
        dir(true),
    );
    assert!(matches!(r, Err(CaError::Missing(_))));
}

#[test]
fn system_bundle_is_found_in_order() {
    let r = resolve_ca_location(None, Ok(None), files(&[1, 2]), dir(true));
    assert!(matches!(r, Ok(CaLocation::File(path))
        if path == Path::new("/etc/pki/tls/certs/ca-bundle.crt")));
    let r = resolve_ca_location(None, Ok(None), files(&[0, 2]), dir(true));
    assert!(matches!(r, Ok(CaLocation::File(path))
        if path == Path::new("/etc/ssl/certs/ca-certificates.crt")));
    let r = resolve_ca_location(None, Ok(None), files(&[2]), dir(false));
    assert!(matches!(r, Ok(CaLocation::File(path)) if path == Path::new("/etc/ssl/cert.pem")));
    let r = resolve_ca_location(None, Ok(None), files(&[]), dir(true));
    assert!(matches!(r, Ok(CaLocation::Path(path)) if path == Path::new("/etc/ssl/certs")));
    let r = resolve_ca_location(None, Ok(None), files(&[]), dir(false));
    assert!(matches!(r, Err(CaError::NoSystemBundle)));
}

#[test]
fn location_goes_in_as_file_or_directory() {
    let file = CaLocation::File(PathBuf::from("/f"));
    let roots = file.configure();
    assert_eq!(roots.ca_file.map(|p| p.as_path()), Some(Path::new("/f")));
    assert_eq!(roots.ca_path, None);
    let dir = CaLocation::Path(PathBuf::from("/d")).clone();
    let roots = dir.configure();
    assert_eq!(roots.ca_file, None);
    assert_eq!(roots.ca_path.map(|p| p.as_path()), Some(Path::new("/d")));
}

#[test]
fn backoff_doubles_up_to_the_longest() {
    let mut supervisor = Supervisor::new();
    let delays: Vec<u64> = (0..10)
        .map(|_| supervisor.connection_ended(RunOutcome::Failed))
        .collect();
    assert_eq!(delays, [2, 4, 8, 16, 32, 64, 128, 256, 300, 300]);
}

#[test]
fn healthy_connection_starts_anew() {
    let mut supervisor = Supervisor::new();
    for _ in 0..5 {
        supervisor.connection_ended(RunOutcome::Failed);
    }
    let minute = u128::from(60 * SECOND);
    assert_eq!(supervisor.connection_ended(RunOutcome::Closed(minute - 1)), 64);
    assert_eq!(supervisor.connection_ended(RunOutcome::Closed(minute)), 2);
    assert_eq!(supervisor.connection_ended(RunOutcome::Failed), 4);
}

#[test]
fn polls_of_one_device_are_a_minute_apart() {
    let device = Device::new("H7172", "AA");
    let other = Device::new("H7172", "BB");
    let mut cooldown = PollCooldown::new();
    let mut poll = |device: &Device, now: u64| {
        maybe_poll_device(&mut cooldown, device, None, at(0), 0, now)
    };
    assert_eq!(poll(&device, 5 * SECOND), PollDecision::Poll);
    assert_eq!(poll(&device, 65 * SECOND - 1), PollDecision::CoolingDown);
    assert_eq!(poll(&other, 20 * SECOND), PollDecision::Poll);
    assert_eq!(poll(&device, 65 * SECOND), PollDecision::Poll);
    assert_eq!(poll(&device, 66 * SECOND), PollDecision::CoolingDown);
    // A reading that goes back counts as no time at all.
    assert_eq!(poll(&device, 0), PollDecision::CoolingDown);
}

#[test]
fn fresh_state_is_not_polled() {
    let device = Device::new("H7172", "AA");
    let mut cooldown = PollCooldown::new();
    let interval = i128::from(900 * SECOND);
    let mut poll = |updated: Option<Timestamp>, wall: Timestamp| {
        maybe_poll_device(&mut cooldown, &device, updated, wall, interval, 0)
    };
    assert_eq!(poll(Some(at(100)), at(999)), PollDecision::StillFresh);
    assert_eq!(poll(Some(at(2000)), at(999)), PollDecision::StillFresh);
    assert_eq!(
        poll(Some(Timestamp { seconds: 100, nanos: 1 }), at(1000)),
        PollDecision::StillFresh
    );
    // A wish that was not granted starts no cooldown.
    assert_eq!(poll(Some(at(100)), at(1000)), PollDecision::Poll);
    assert_eq!(poll(None, at(0)), PollDecision::CoolingDown);
}

#[test]
fn connection_settings() {
    let settings = connect_settings("key", client_id("tag"));
    assert_eq!(settings.client_id, "gv2mqtt-platform-tag");
    assert!(settings.clean_session);
    assert_eq!(settings.username, "key");
    assert_eq!(settings.password, "key");
    assert_eq!(settings.host, "mqtt.openapi.govee.com");
    assert_eq!(settings.port, 8883);
    assert_eq!(settings.reconnect_delay_min, 1);
    assert_eq!(settings.reconnect_delay_max, 60);
    assert!(settings.reconnect_exponential);
    assert_eq!(settings.connect_timeout, 60);
    assert_eq!(settings.keep_alive, 90);
}

#[test]
fn client_ids_are_random() {
    let a = new_client_id();
    let b = new_client_id();
    assert_ne!(a, b);
    let tag = a.strip_prefix("gv2mqtt-platform-").unwrap();
    assert_eq!(tag.len(), 32);
    assert!(tag.chars().all(|c| matches!(c, '0'..='9' | 'a'..='f')));
    assert_eq!(&tag[12..13], "4");
    assert!(matches!(&tag[16..17], "8" | "9" | "a" | "b"));
}

#[test]
fn subscribes_on_each_connection() {
    let list = subscriptions("key");
    assert_eq!(list.len(), 2);
    assert_eq!(list[0].topic, "GA/key");
    assert!(list[0].required);
    assert_eq!(list[1].topic, "key");
    assert!(!list[1].required);
    assert_eq!(list[0].qos, QoS::AtMostOnce);
    assert_eq!(list[1].qos, QoS::AtMostOnce);
    assert_eq!(
        next_action(BrokerEvent::Connected, "key"),
        SubscriberAction::Subscribe(list)
    );
}

#[test]
fn other_broker_events() {
    assert_eq!(
        next_action(BrokerEvent::Message(vec![1, 2]), "key"),
        SubscriberAction::Handle(vec![1, 2])
    );
    assert_eq!(
        next_action(BrokerEvent::Disconnected { unexpected: true }, "key"),
        SubscriberAction::AwaitReconnect
    );
    assert_eq!(
        next_action(BrokerEvent::Disconnected { unexpected: false }, "key"),
        SubscriberAction::AwaitClose
    );
    assert_eq!(
        next_action(BrokerEvent::ChannelClosed, "key"),
        SubscriberAction::Stop
    );
}

#[test]
fn age_counts_leap_seconds_as_chrono_does() {
    let day = 86_400;
    let mut times = Vec::new();
    for seconds in [
        -day - 1,
        -1,
        0,
        59,
        60,
        119,
        120,
        day - 1,
        day,
        day + 59,
        3 * day - 61,
        i64::from(i32::MAX),
    ] {
        for nanos in [0, 1, 500_000_000, 999_999_999, 1_000_000_000, 1_500_000_000] {
            if let Some(time) = chrono::DateTime::from_timestamp(seconds, nanos) {
                times.push((time, Timestamp { seconds, nanos }));
            }
        }
    }
    assert!(times.iter().any(|(_, time)| time.nanos >= 1_000_000_000));
    for (earlier, from) in &times {
        for (later, to) in &times {
            let age = *later - *earlier;
            let nanos =
                i128::from(age.num_seconds()) * 1_000_000_000 + i128::from(age.subsec_nanos());
            assert_eq!(to.nanos_since(*from), nanos, "{from:?} {to:?}");
        }
    }
}

#[test]
fn leap_second_makes_a_state_older() {
    let device = Device::new("H7172", "AA");
    let mut cooldown = PollCooldown::new();
    let updated = Timestamp { seconds: 59, nanos: 1_500_000_000 };
    let now = Timestamp { seconds: 120, nanos: 500_000_000 };
    let interval = i128::from(61 * SECOND);
    assert_eq!(
        maybe_poll_device(&mut cooldown, &device, Some(updated), now, interval, 0),
        PollDecision::Poll
    );
}

#[test]
fn environment_wins_over_the_system() {
    let r = resolve_ca_location(
        None,
        Ok(Some(probed("/env.pem", false, true))),
        files(&[0, 1, 2]),
        dir(true),
    );
    assert!(matches!(r, Ok(CaLocation::File(path)) if path == Path::new("/env.pem")));
}

#[test]
fn polls_on_a_clock_that_goes_back() {
    let device = Device::new("H7172", "AA");
    let mut cooldown = PollCooldown::new();
    let granted: Vec<u64> = [100, 10, 159, 160, 100, 219, 220]
        .into_iter()
        .map(|second| second * SECOND)
        .filter(|now| {
            maybe_poll_device(&mut cooldown, &device, None, at(0), 0, *now) == PollDecision::Poll
        })
        .collect();
    assert_eq!(granted, [100 * SECOND, 160 * SECOND, 220 * SECOND]);
}
