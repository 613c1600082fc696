//! The connection to the broker of the Govee platform.
use vstd::prelude::*;

verus! {

/// The host of the broker.
pub const PLATFORM_MQTT_HOST: &'static str = "mqtt.openapi.govee.com";

/// The port of the broker, for TLS.
pub const PLATFORM_MQTT_PORT: i32 = 8883;

/// How to connect to the broker.
#[derive(Debug)]
pub struct ConnectSettings {
    pub client_id: String,
    pub clean_session: bool,
    /// The bounds of the client's own delays before it connects again, in
    /// seconds, and whether they grow exponentially.
    pub reconnect_delay_min: u64,
    pub reconnect_delay_max: u64,
    pub reconnect_exponential: bool,
    pub username: String,
    pub password: String,
    pub host: &'static str,
    pub port: i32,
    /// How long to wait for the connection, in seconds.
    pub connect_timeout: u64,
    /// The keep-alive interval, in seconds.
    pub keep_alive: u64,
}

/// How hard the broker tries to deliver a message.
#[derive(Debug, Clone, Copy, PartialEq, Eq)]
pub enum QoS {
    AtMostOnce,
    AtLeastOnce,
    ExactlyOnce,
}

/// A topic to subscribe to.
#[derive(Debug, PartialEq, Eq)]
pub struct Subscription {
    pub topic: String,
    pub qos: QoS,
    /// Whether a failure to subscribe is an error. The other topic is there
    /// as insurance only.
    pub required: bool,
}

/// What the client reports.
#[derive(Debug, PartialEq, Eq)]
pub enum BrokerEvent {
    /// The connection is there, for the first time or again.
    Connected,
    /// A message with this payload has come.
    Message(Vec<u8>),
    /// The connection is gone.
    Disconnected { unexpected: bool },
    /// There will be no further event.
    ChannelClosed,
}

/// What to do about it.
#[derive(Debug, PartialEq, Eq)]
pub enum SubscriberAction {
    /// Subscribe to these topics, in this order.
    Subscribe(Vec<Subscription>),
    /// Handle this payload before the next event.
    Handle(Vec<u8>),
    /// Wait: the client connects again by itself.
    AwaitReconnect,
    /// Wait for the channel to close: the broker has ended the connection.
    AwaitClose,
    /// Stop, so that the client is built anew.
    Stop,
}

/// A lower-case hexadecimal digit.
pub open spec fn is_hex(c: char) -> bool {
    '0' <= c <= '9' || 'a' <= c <= 'f'
}

/// A random UUID in its plain form: 32 hexadecimal digits, with the version
/// and the variant at their places.
pub open spec fn is_random_uuid(s: Seq<char>) -> bool {
    &&& s.len() == 32
    &&& forall|i: int| 0 <= i < 32 ==> is_hex(#[trigger] s[i])
    &&& s[12] == '4'
    &&& s[16] == '8' || s[16] == '9' || s[16] == 'a' || s[16] == 'b'
}

/// `uuid::Uuid::new_v4`, printed by `simple`. Which digits come is left to
/// chance, but for the version and the variant. It panics where the system has
/// no source of random bytes.
#[verifier::external_body]
fn random_uuid() -> (r: String)
    ensures
        is_random_uuid(r@),
{
    uuid::Uuid::new_v4().simple().to_string()
}

/// The id of a client with the given tag.
pub fn client_id(tag: &str) -> (r: String)
    ensures
        r@ == "gv2mqtt-platform-"@ + tag@,
{
    let mut id: String = "gv2mqtt-platform-".to_owned();
    id.append(tag);
    id
}

/// An id for a new client.
pub fn new_client_id() -> (r: String)
    ensures
        exists|tag: Seq<char>| is_random_uuid(tag) && r@ == "gv2mqtt-platform-"@ + tag,
{
    let tag = random_uuid();
    client_id(tag.as_str())
}

/// How to connect with an API key, which is both the user name and the
/// password.
pub fn connect_settings(api_key: &str, client_id: String) -> (r: ConnectSettings)
    ensures
        r.client_id == client_id,
        r.clean_session,
        r.reconnect_delay_min == 1,
        r.reconnect_delay_max == 60,
        r.reconnect_exponential,
        r.username@ == api_key@,
        r.password@ == api_key@,
        r.host@ == "mqtt.openapi.govee.com"@,
        r.port == 8883,
        r.connect_timeout == 60,
        r.keep_alive == 90,
{
    ConnectSettings {
        client_id,
        clean_session: true,
        reconnect_delay_min: 1,
        reconnect_delay_max: 60,
        reconnect_exponential: true,
        username: api_key.to_owned(),
        password: api_key.to_owned(),
        host: PLATFORM_MQTT_HOST,
        port: PLATFORM_MQTT_PORT,
        connect_timeout: 60,
        keep_alive: 90,
    }
}

/// The subscriptions of an API key: to the documented topic, and to the bare
/// key, which some of the documentation gives. Messages come at most once.
pub open spec fn subscribes_to(list: Seq<Subscription>, api_key: Seq<char>) -> bool {
    &&& list.len() == 2
    &&& list[0].topic@ == "GA/"@ + api_key && list[0].required
    &&& list[1].topic@ == api_key && !list[1].required
    &&& list[0].qos == QoS::AtMostOnce && list[1].qos == QoS::AtMostOnce
}

/// The topics to subscribe to with an API key.
pub fn subscriptions(api_key: &str) -> (r: Vec<Subscription>)
    ensures
        subscribes_to(r@, api_key@),
{
    let mut topic: String = "GA/".to_owned();
    topic.append(api_key);
    let mut list: Vec<Subscription> = Vec::new();
    list.push(Subscription { topic, qos: QoS::AtMostOnce, required: true });
    list.push(
        Subscription { topic: api_key.to_owned(), qos: QoS::AtMostOnce, required: false },
    );
    list
}

/// Decides what to do about an event of the client. Each time that the
/// connection is there, the topics are subscribed to anew.
pub fn next_action(event: BrokerEvent, api_key: &str) -> (r: SubscriberAction)
    ensures
        match event {
            BrokerEvent::Connected => r matches SubscriberAction::Subscribe(list) && subscribes_to(
                list@,
                api_key@,
            ),
            BrokerEvent::Message(payload) => r == SubscriberAction::Handle(payload),
            BrokerEvent::Disconnected { unexpected } => r == if unexpected {
                SubscriberAction::AwaitReconnect
            } else {
                SubscriberAction::AwaitClose
            },
            BrokerEvent::ChannelClosed => r == SubscriberAction::Stop,
        },
{
    match event {
        BrokerEvent::Connected => SubscriberAction::Subscribe(subscriptions(api_key)),
        BrokerEvent::Message(payload) => SubscriberAction::Handle(payload),
        BrokerEvent::Disconnected { unexpected } => if unexpected {
            SubscriberAction::AwaitReconnect
        } else {
            SubscriberAction::AwaitClose
        },
        BrokerEvent::ChannelClosed => SubscriberAction::Stop,
    }
}

/// The API key as it is, and nothing else, is both the user name and the
/// password, and the client id is the given one. All the rest is the same for
/// every key.
pub proof fn the_key_is_the_credential(api_key: &str, id: String, r: ConnectSettings)
    requires
        call_ensures(connect_settings, (api_key, id), r),
    ensures
        r.username@ == api_key@,
        r.password@ == api_key@,
        r.client_id@ == id@,
        r.host@ == "mqtt.openapi.govee.com"@,
        r.port == 8883,
        r.clean_session && r.reconnect_exponential,
        r.reconnect_delay_min == 1 && r.reconnect_delay_max == 60,
        r.connect_timeout == 60 && r.keep_alive == 90,
{
}

/// Each time that the connection is there, the client subscribes to the API
/// key under `GA/`, which has to work, and then to the bare key, which may
/// fail; messages of both come at most once.
pub proof fn connections_subscribe_to_both_topics(api_key: &str, r: SubscriberAction)
    requires
        call_ensures(next_action, (BrokerEvent::Connected, api_key), r),
    ensures
        r is Subscribe,
        r->Subscribe_0@.len() == 2,
        r->Subscribe_0@[0].topic@ == "GA/"@ + api_key@,
        r->Subscribe_0@[1].topic@ == api_key@,
        r->Subscribe_0@[0].required && !r->Subscribe_0@[1].required,
        r->Subscribe_0@[0].qos is AtMostOnce && r->Subscribe_0@[1].qos is AtMostOnce,
{
}

/// Whatever the API key is: a payload is handed on as it came, only an
/// unexpected end of the connection is waited out for a new one, and only the
/// end of the channel stops the client.
pub proof fn other_events_do_not_depend_on_the_key(
    event: BrokerEvent,
    api_key: &str,
    r: SubscriberAction,
)
    requires
        call_ensures(next_action, (event, api_key), r),
    ensures
        event matches BrokerEvent::Message(payload) ==> r is Handle && r->Handle_0@ == payload@,
        r is Handle <==> event is Message,
        r is AwaitReconnect <==> event is Disconnected && event->unexpected,
        r is AwaitClose <==> event is Disconnected && !event->unexpected,
        r is Stop <==> event is ChannelClosed,
        r is Subscribe <==> event is Connected,
{
}

/// Clients with different tags have different ids, all with the same prefix.
pub proof fn tags_tell_clients_apart(tag: &str, id: String, other_tag: &str, other_id: String)
    requires
        call_ensures(client_id, (tag,), id),
        call_ensures(client_id, (other_tag,), other_id),
    ensures
        id@ == "gv2mqtt-platform-"@ + tag@,
        id@ == other_id@ ==> tag@ == other_tag@,
{
    let n = "gv2mqtt-platform-"@.len() as int;
    assert(id@.skip(n) == tag@);
    assert(other_id@.skip(n) == other_tag@);
}

/// The id of a new client is the prefix and 32 lower-case hexadecimal digits.
pub proof fn new_clients_have_random_digits(id: String, i: int)
    requires
        call_ensures(new_client_id, (), id),
        0 <= i < 32,
    ensures
        id@.len() == "gv2mqtt-platform-"@.len() + 32,
        id@.take("gv2mqtt-platform-"@.len() as int) == "gv2mqtt-platform-"@,
        "0123456789abcdef"@.contains(id@["gv2mqtt-platform-"@.len() + i]),
{
    let prefix = "gv2mqtt-platform-"@;
    let tag = choose|tag: Seq<char>| is_random_uuid(tag) && id@ == prefix + tag;
    assert(id@.take(prefix.len() as int) == prefix);
    let c = tag[i];
    assert(id@[prefix.len() + i] == c);
    assert(is_hex(c));
    reveal_strlit("0123456789abcdef");
    let digits = "0123456789abcdef"@;
    if '0' <= c <= '9' {
        let k = c as int - '0' as int;
        assert(k == 0 || k == 1 || k == 2 || k == 3 || k == 4 || k == 5 || k == 6 || k == 7 || k
            == 8 || k == 9);
        assert(digits[k] == c);
    } else {
        let k = 10 + (c as int - 'a' as int);
        assert(k == 10 || k == 11 || k == 12 || k == 13 || k == 14 || k == 15);
        assert(digits[k] == c);
    }
}

} // verus!
