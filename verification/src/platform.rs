//! What the service does about a message of the Govee platform.
use crate::device::{CapabilityView, Device, DeviceCapability, DeviceCapabilityKind, DeviceView};
use crate::entry::{EntryView, EventEntry};
use crate::event::{EventCapabilityInfo, EventConfig, InfoView};
use crate::json::{JsonTree, JsonValue};
use crate::message::{PlatformCapability, PlatformMessage, ReportView};
use vstd::prelude::*;

verus! {

/// An event to publish to Home Assistant.
#[derive(Debug, Clone, PartialEq, Eq)]
pub struct EventPublication {
    pub topic: String,
    pub event_type: String,
    pub name: String,
    pub value: JsonValue,
    pub message: Option<String>,
    /// Whether the entity was configured with this event type. Home Assistant
    /// ignores an event that it was not told of.
    pub advertised: bool,
}

/// The view of an [`EventPublication`].
pub struct PublicationView {
    pub topic: Seq<char>,
    pub event_type: Seq<char>,
    pub name: Seq<char>,
    pub value: JsonTree,
    pub message: Option<Seq<char>>,
    pub advertised: bool,
}

impl View for EventPublication {
    type V = PublicationView;

    open spec fn view(&self) -> PublicationView {
        PublicationView {
            topic: self.topic@,
            event_type: self.event_type@,
            name: self.name@,
            value: self.value@,
            message: crate::entry::optional_view(self.message),
            advertised: self.advertised,
        }
    }
}

/// The views of a list of publications.
pub open spec fn publication_views(list: Seq<EventPublication>) -> Seq<PublicationView> {
    Seq::new(list.len(), |i: int| list[i]@)
}

/// The members of the object that is published for an event.
pub open spec fn payload_members(publication: PublicationView) -> Seq<(Seq<char>, JsonTree)> {
    seq![
        ("event_type"@, JsonTree::Text(publication.event_type)),
        ("name"@, JsonTree::Text(publication.name)),
        ("value"@, publication.value),
        (
            "message"@,
            match publication.message {
                Some(message) => JsonTree::Text(message),
                None => JsonTree::Null,
            },
        ),
    ]
}

impl EventPublication {
    /// The members of the object to publish.
    pub fn payload(&self) -> (r: Vec<(&'static str, JsonValue)>)
        ensures
            Seq::new(r@.len(), |i: int| (r@[i].0@, r@[i].1@)) == payload_members(self@),
    {
        let mut members: Vec<(&'static str, JsonValue)> = Vec::new();
        members.push(("event_type", JsonValue::Text(self.event_type.clone())));
        members.push(("name", JsonValue::Text(self.name.clone())));
        members.push(("value", self.value.clone()));
        members.push(
            (
                "message",
                match &self.message {
                    Some(message) => JsonValue::Text(message.clone()),
                    None => JsonValue::Null,
                },
            ),
        );
        members
    }
}

/// What is to be done about a message.
#[derive(Debug, Clone, PartialEq, Eq)]
pub enum MessageOutcome {
    /// The message names no device: ignore it.
    NoDevice,
    /// The message is for a device that is not known: ignore it.
    UnknownDevice,
    /// Publish these events in this order and, if `poll` says so, ask the
    /// platform API for the state of the device.
    Handled { publications: Vec<EventPublication>, poll: bool },
}

/// What is known of the events of one instance of a device: the metadata of
/// its first capability with that instance, if that is an event capability.
pub open spec fn info_for(device: DeviceView, instance: Seq<char>) -> Option<InfoView> {
    match crate::device::find_capability(device.capabilities, instance) {
        Some(cap) => if cap.kind is Event {
            crate::event::info_of(cap.event_state)
        } else {
            None
        },
        None => None,
    }
}

/// The type of an incoming event: the declared label of its value, or, where
/// the value is not declared, the label that its own texts give it.
pub open spec fn event_type_of(info: InfoView, entry: EntryView) -> Seq<char> {
    if info.label_by_value.contains_key(entry.value.text()) {
        info.label_by_value[entry.value.text()]
    } else {
        crate::event::label_of(entry.name, entry.message)
    }
}

/// The publication of an incoming event.
pub open spec fn publication_of(
    device: DeviceView,
    instance: Seq<char>,
    info: InfoView,
    entry: EntryView,
) -> PublicationView {
    PublicationView {
        topic: crate::topic::event_topic(device.id, instance),
        event_type: event_type_of(info, entry),
        name: entry.name,
        value: entry.value,
        message: entry.message,
        advertised: info.event_types.contains(event_type_of(info, entry)),
    }
}

/// Whether the events of a report can be published: it reports on an event
/// capability with known metadata, and Home Assistant is there.
pub open spec fn publishable(device: DeviceView, report: ReportView, hass_ready: bool) -> bool {
    report.kind is Event && hass_ready && info_for(device, report.instance) is Some
}

/// The publications that a report gives rise to, one for each of its entries.
pub open spec fn report_publications(
    device: DeviceView,
    report: ReportView,
    hass_ready: bool,
) -> Seq<PublicationView> {
    if publishable(device, report, hass_ready) {
        let entries = crate::message::entries_in(report.state);
        Seq::new(
            entries.len(),
            |i: int|
                publication_of(
                    device,
                    report.instance,
                    info_for(device, report.instance)->0,
                    entries[i],
                ),
        )
    } else {
        Seq::empty()
    }
}

/// The publications that a list of reports gives rise to, in the order of the
/// reports.
pub open spec fn publications_of(
    device: DeviceView,
    reports: Seq<ReportView>,
    hass_ready: bool,
) -> Seq<PublicationView>
    decreases reports.len(),
{
    if reports.len() == 0 {
        Seq::empty()
    } else {
        publications_of(device, reports.drop_last(), hass_ready) + report_publications(
            device,
            reports.last(),
            hass_ready,
        )
    }
}

/// Whether a list of reports calls for a poll: one of them cannot be
/// published.
pub open spec fn polls(device: DeviceView, reports: Seq<ReportView>, hass_ready: bool) -> bool {
    exists|i: int|
        0 <= i < reports.len() && !publishable(device, #[trigger] reports[i], hass_ready)
}

/// What is known of the events of one instance of a device.
fn event_info(device: &Device, instance: &str) -> (r: Option<EventCapabilityInfo>)
    ensures
        match r {
            Some(info) => info_for(device@, instance@) == Some(info@),
            None => info_for(device@, instance@) is None,
        },
{
    match device.get_capability_by_instance(instance) {
        Some(cap) => match cap.kind {
            DeviceCapabilityKind::Event => crate::event::parse_event_capability(cap),
            _ => None,
        },
        None => None,
    }
}

/// The type of an incoming event.
pub fn event_type(info: &EventCapabilityInfo, entry: &EventEntry) -> (r: String)
    ensures
        r@ == event_type_of(info@, entry@),
{
    let key = crate::event::value_key(&entry.value);
    match info.label_by_value.get(key.as_str()) {
        Some(label) => label.clone(),
        None => crate::event::entry_label(entry),
    }
}

/// The publication of an incoming event.
pub fn publish_event(
    device: &Device,
    instance: &str,
    info: &EventCapabilityInfo,
    entry: &EventEntry,
) -> (r: EventPublication)
    ensures
        r@ == publication_of(device@, instance@, info@, entry@),
{
    let event_type = event_type(info, entry);
    let advertised: bool = crate::event::contains_text(&info.event_types, event_type.as_str());
    EventPublication {
        topic: crate::topic::event_state_topic(device, instance),
        event_type,
        name: entry.name.clone(),
        value: entry.value.clone(),
        message: match &entry.message {
            Some(message) => Some(message.clone()),
            None => None,
        },
        advertised,
    }
}

/// Appends the publications of one report, and says whether it could be
/// published.
fn publish_report(
    device: &Device,
    report: &PlatformCapability,
    hass_ready: bool,
    publications: &mut Vec<EventPublication>,
) -> (published: bool)
    ensures
        published == publishable(device@, report@, hass_ready),
        publication_views(final(publications)@) == publication_views(old(publications)@)
            + report_publications(device@, report@, hass_ready),
{
    match report.kind {
        DeviceCapabilityKind::Event => {},
        _ => {
            assert(publication_views(publications@) + Seq::empty() =~= publication_views(
                publications@,
            ));
            return false;
        },
    }
    let info = event_info(device, report.instance.as_str());
    match (hass_ready, info) {
        (true, Some(info)) => {
            let entries = report.entries();
            let ghost before = publication_views(publications@);
            let ghost all = report_publications(device@, report@, hass_ready);
            assert(crate::entry::entry_views(entries@).len() == entries@.len());
            assert(before + all.take(0) =~= before);
            for k in 0..entries.len()
                invariant
                    publishable(device@, report@, hass_ready),
                    info_for(device@, report@.instance) == Some(info@),
                    crate::entry::entry_views(entries@) == crate::message::entries_in(
                        report@.state,
                    ),
                    all == report_publications(device@, report@, hass_ready),
                    all.len() == entries@.len(),
                    publication_views(publications@) == before + all.take(k as int),
            {
                let publication = publish_event(
                    device,
                    report.instance.as_str(),
                    &info,
                    &entries[k],
                );
                let ghost so_far = publications@;
                assert(crate::entry::entry_views(entries@)[k as int] == entries@[k as int]@);
                assert(publication@ == all[k as int]);
                publications.push(publication);
                assert(publication_views(publications@) =~= publication_views(so_far).push(
                    publication@,
                ));
                assert(before + all.take(k + 1) =~= (before + all.take(k as int)).push(
                    all[k as int],
                ));
            }
            assert(all.take(all.len() as int) == all);
            true
        },
        _ => {
            assert(publication_views(publications@) + Seq::empty() =~= publication_views(
                publications@,
            ));
            false
        },
    }
}

/// Decides what is to be done about a message. `device` is the device with the
/// id that the message names, if there is one, and `hass_ready` says whether
/// Home Assistant is connected. A report that is not of an event, or that
/// cannot be turned into an event of an entity, makes the device be polled.
pub fn handle_platform_message(
    message: &PlatformMessage,
    device: Option<&Device>,
    hass_ready: bool,
) -> (r: MessageOutcome)
    ensures
        match r {
            MessageOutcome::NoDevice => message.device is None,
            MessageOutcome::UnknownDevice => message.device is Some && device is None,
            MessageOutcome::Handled { publications, poll } => {
                &&& message.device is Some
                &&& device matches Some(device) && publication_views(publications@)
                    == publications_of(device@, message@.capabilities, hass_ready) && poll == polls(
                    device@,
                    message@.capabilities,
                    hass_ready,
                )
            },
        },
{
    if message.device.is_none() {
        return MessageOutcome::NoDevice;
    }
    let device = match device {
        Some(device) => device,
        None => {
            return MessageOutcome::UnknownDevice;
        },
    };
    let ghost reports = message@.capabilities;
    let mut publications: Vec<EventPublication> = Vec::new();
    let mut poll: bool = false;
    assert(publication_views(publications@) =~= publications_of(
        device@,
        reports.take(0),
        hass_ready,
    ));
    for k in 0..message.capabilities.len()
        invariant
            reports == message@.capabilities,
            publication_views(publications@) == publications_of(
                device@,
                reports.take(k as int),
                hass_ready,
            ),
            poll == polls(device@, reports.take(k as int), hass_ready),
    {
        let ghost seen = reports.take(k as int);
        let ghost more = reports.take(k + 1);
        assert(more.drop_last() == seen);
        assert(more.last() == message.capabilities@[k as int]@);
        let published = publish_report(
            device,
            &message.capabilities[k],
            hass_ready,
            &mut publications,
        );
        if !published {
            poll = true;
        }
        proof {
            if poll {
                if published {
                    let i = choose|i: int|
                        0 <= i < seen.len() && !publishable(
                            device@,
                            #[trigger] seen[i],
                            hass_ready,
                        );
                    assert(more[i] == seen[i]);
                } else {
                    assert(!publishable(device@, more[k as int], hass_ready));
                }
            } else {
                assert forall|i: int| 0 <= i < more.len() implies publishable(
                    device@,
                    #[trigger] more[i],
                    hass_ready,
                ) by {
                    if i < k {
                        assert(more[i] == seen[i]);
                    }
                }
            }
        }
    }
    assert(reports.take(reports.len() as int) == reports);
    MessageOutcome::Handled { publications, poll }
}

/// An event whose value the metadata declares has a type that Home Assistant
/// was told of, whatever texts come with it.
pub proof fn declared_events_are_advertised(
    device: DeviceView,
    instance: Seq<char>,
    entry: EntryView,
)
    requires
        info_for(device, instance) matches Some(info) && info.label_by_value.contains_key(
            entry.value.text(),
        ),
    ensures
        publication_of(device, instance, info_for(device, instance)->0, entry).advertised,
{
    let cap = crate::device::find_capability(device.capabilities, instance)->0;
    crate::event::usable_metadata_is_sound(cap.event_state);
}

/// An event goes to the topic on which its entity listens, and it is
/// advertised exactly if the entity declares its type.
pub proof fn events_reach_their_entity(device: DeviceView, cap: CapabilityView, entry: EntryView)
    requires
        crate::device::find_capability(device.capabilities, cap.instance) == Some(cap),
        info_for(device, cap.instance) is Some,
    ensures
        crate::event::config_of(device, cap) is Some,
        ({
            let config = crate::event::config_of(device, cap)->0;
            let publication = publication_of(
                device,
                cap.instance,
                info_for(device, cap.instance)->0,
                entry,
            );
            &&& publication.topic == config.state_topic
            &&& publication.advertised == config.event_types.contains(publication.event_type)
        }),
{
}

/// Events are published in the order in which they are reported: those of
/// earlier reports come before those of later ones.
pub proof fn publications_keep_the_order(
    device: DeviceView,
    first: Seq<ReportView>,
    second: Seq<ReportView>,
    hass_ready: bool,
)
    ensures
        publications_of(device, first + second, hass_ready) == publications_of(
            device,
            first,
            hass_ready,
        ) + publications_of(device, second, hass_ready),
    decreases second.len(),
{
    if second.len() == 0 {
        assert(first + second == first);
        assert(publications_of(device, first, hass_ready) + Seq::empty() =~= publications_of(
            device,
            first,
            hass_ready,
        ));
    } else {
        publications_keep_the_order(device, first, second.drop_last(), hass_ready);
        assert((first + second).drop_last() == first + second.drop_last());
        assert(publications_of(device, first + second, hass_ready) =~= publications_of(
            device,
            first,
            hass_ready,
        ) + publications_of(device, second, hass_ready));
    }
}

/// While Home Assistant is not there nothing is published, and any report
/// makes the device be polled.
pub proof fn without_home_assistant_only_polls(device: DeviceView, reports: Seq<ReportView>)
    ensures
        publications_of(device, reports, false).len() == 0,
        polls(device, reports, false) <==> reports.len() > 0,
    decreases reports.len(),
{
    if reports.len() > 0 {
        without_home_assistant_only_polls(device, reports.drop_last());
        assert(!publishable(device, reports[0], false));
    }
}

/// A report that is not of an event publishes nothing and makes the device be
/// polled.
pub proof fn other_reports_poll(device: DeviceView, reports: Seq<ReportView>, i: int, hass_ready: bool)
    requires
        0 <= i < reports.len(),
        !(reports[i].kind is Event),
    ensures
        report_publications(device, reports[i], hass_ready).len() == 0,
        polls(device, reports, hass_ready),
{
    assert(!publishable(device, reports[i], hass_ready));
}

/// What is published for an event holds the event as it came: read as an
/// entry, it gives the same name, value and message.
pub proof fn payload_holds_the_entry(
    device: DeviceView,
    instance: Seq<char>,
    info: InfoView,
    entry: EntryView,
    text: Seq<char>,
)
    ensures
        crate::entry::entry_of(
            JsonTree::Object(
                payload_members(publication_of(device, instance, info, entry)),
                text,
            ),
        ) == Some(entry),
{
    reveal_strlit("event_type");
    reveal_strlit("name");
    reveal_strlit("value");
    reveal_strlit("message");
    let members = payload_members(publication_of(device, instance, info, entry));
    assert("name"@.len() == 4);
    assert("value"@.len() == 5);
    assert("message"@.len() == 7);
    assert("event_type"@.len() == 10);
    let rest = members.drop_first();
    let last = rest.drop_first();
    let end = last.drop_first();
    assert(crate::json::find_member(members, "name"@) == Some(JsonTree::Text(entry.name))) by {
        assert(crate::json::find_member(rest, "name"@) == Some(JsonTree::Text(entry.name)));
    }
    assert(crate::json::find_member(members, "value"@) == Some(entry.value)) by {
        assert(crate::json::find_member(last, "value"@) == Some(entry.value));
        assert(crate::json::find_member(rest, "value"@) == Some(entry.value));
    }
    assert(crate::json::find_member(members, "message"@) == Some(members[3].1)) by {
        assert(crate::json::find_member(end, "message"@) == Some(members[3].1));
        assert(crate::json::find_member(last, "message"@) == Some(members[3].1));
        assert(crate::json::find_member(rest, "message"@) == Some(members[3].1));
    }
}

/// The object that is published for an event has four members, and the first
/// of them is the type of the event as the publication has it. The others are
/// its name, its value and its message, which is null if there is none.
pub proof fn payload_says_what_the_publication_says(
    publication: &EventPublication,
    r: Vec<(&'static str, JsonValue)>,
)
    requires
        call_ensures(EventPublication::payload, (publication,), r),
    ensures
        r@.len() == 4,
        r@[0].0@ == "event_type"@ && r@[0].1@ == JsonTree::Text(publication.event_type@),
        r@[1].0@ == "name"@ && r@[1].1@ == JsonTree::Text(publication.name@),
        r@[2].0@ == "value"@ && r@[2].1@ == publication.value@,
        r@[3].0@ == "message"@,
        publication.message is Some ==> r@[3].1@ == JsonTree::Text(publication.message->0@),
        publication.message is None ==> r@[3].1@ is Null,
{
    let shown = Seq::new(r@.len(), |i: int| (r@[i].0@, r@[i].1@));
    assert(shown == payload_members(publication@));
    assert(shown.len() == 4);
    assert forall|i: int| 0 <= i < 4 implies #[trigger] shown[i] == (r@[i].0@, r@[i].1@) by {}
    assert(shown[0] == ("event_type"@, JsonTree::Text(publication.event_type@)));
    assert(shown[1] == ("name"@, JsonTree::Text(publication.name@)));
    assert(shown[2] == ("value"@, publication.value@));
    assert(shown[3].0 == "message"@);
}

/// An event whose value the metadata of its capability declares is published
/// under one of the event types that the entity of that capability is
/// configured with, so that Home Assistant takes it.
pub proof fn published_types_are_configured(
    device: &Device,
    cap: &DeviceCapability,
    instance: &str,
    info: &EventCapabilityInfo,
    config: EventConfig,
    entry: &EventEntry,
    publication: &EventPublication,
    members: Vec<(&'static str, JsonValue)>,
)
    requires
        call_ensures(crate::event::parse_event_capability, (cap,), Some(*info)),
        call_ensures(EventConfig::new, (device, cap), Some(config)),
        instance@ == cap.instance@,
        call_ensures(publish_event, (device, instance, info, entry), *publication),
        call_ensures(EventPublication::payload, (publication,), members),
        info.label_by_value@.contains_key(entry.value@.text()),
    ensures
        publication.topic@ == config.state_topic@,
        publication.advertised,
        members@[0].0@ == "event_type"@,
        exists|i: int|
            0 <= i < config.event_types@.len() && members@[0].1@ == JsonTree::Text(
                (#[trigger] config.event_types@[i])@,
            ),
{
    payload_says_what_the_publication_says(publication, members);
    let key = entry@.value.text();
    assert(info@.label_by_value.contains_key(key));
    crate::event::usable_metadata_is_sound(cap@.event_state);
    let types = config@.event_types;
    assert(types == info@.event_types);
    assert(publication@.event_type == info@.label_by_value[key]);
    assert(types.contains(publication.event_type@));
    let i = types.index_of(publication.event_type@);
    assert(config.event_types@[i]@ == publication.event_type@);
}

/// An incoming event whose value is declared has the declared label as its
/// type, whatever texts come with it. Any other has its message, or its name
/// if there is no message or an empty one.
pub proof fn declared_labels_come_first(
    info: &EventCapabilityInfo,
    entry: &EventEntry,
    r: String,
)
    requires
        call_ensures(event_type, (info, entry), r),
    ensures
        info.label_by_value@.contains_key(entry.value@.text()) ==> r@
            == info.label_by_value@[entry.value@.text()]@,
        !info.label_by_value@.contains_key(entry.value@.text()) ==> {
            if entry.message is Some && entry.message->0@.len() > 0 {
                r@ == entry.message->0@
            } else {
                r@ == entry.name@
            }
        },
{
    let labels = info@.label_by_value;
    assert(labels.contains_key(entry.value@.text()) == info.label_by_value@.contains_key(
        entry.value@.text(),
    ));
    if entry.message is Some {
        crate::event::labels_prefer_the_message(entry.name@, entry.message->0@);
    } else {
        crate::event::labels_prefer_the_message(entry.name@, Seq::empty());
    }
}

/// The publication of an event goes to the topic of its device and instance,
/// holds the event as it came, has the type that [`event_type`] gives it, and
/// is advertised exactly if that is one of the known event types.
pub proof fn publications_hold_the_event(
    device: &Device,
    instance: &str,
    info: &EventCapabilityInfo,
    entry: &EventEntry,
    r: EventPublication,
    label: String,
)
    requires
        call_ensures(publish_event, (device, instance, info, entry), r),
        call_ensures(event_type, (info, entry), label),
    ensures
        r.topic@ == crate::topic::event_topic(device.id@, instance@),
        r.event_type@ == label@,
        r.name@ == entry.name@,
        r.value@ == entry.value@,
        r.message is Some <==> entry.message is Some,
        r.message is Some ==> r.message->0@ == entry.message->0@,
        r.advertised <==> exists|i: int|
            0 <= i < info.event_types@.len() && (#[trigger] info.event_types@[i])@ == label@,
{
    let types = info@.event_types;
    let shown = r@;
    assert(shown.message == entry@.message);
    if r.advertised {
        let i = types.index_of(label@);
        assert(info.event_types@[i]@ == label@);
    }
    if exists|i: int|
        0 <= i < info.event_types@.len() && (#[trigger] info.event_types@[i])@ == label@ {
        let i = choose|i: int|
            0 <= i < info.event_types@.len() && (#[trigger] info.event_types@[i])@ == label@;
        assert(types[i] == label@);
    }
}

/// The events of an instance are known exactly if the first capability with
/// that instance is an event capability with metadata that can be used.
pub proof fn first_capability_knows_the_events(device: DeviceView, instance: Seq<char>, i: int)
    requires
        0 <= i < device.capabilities.len(),
        device.capabilities[i].instance == instance,
        forall|j: int| 0 <= j < i ==> (#[trigger] device.capabilities[j]).instance != instance,
    ensures
        device.capabilities[i].kind is Event ==> info_for(device, instance)
            == crate::event::info_of(device.capabilities[i].event_state),
        !(device.capabilities[i].kind is Event) ==> info_for(device, instance) is None,
{
    crate::device::first_capability_counts(device.capabilities, instance);
    let found = crate::device::find_capability(device.capabilities, instance);
    assert(found is Some);
    let k = choose|k: int|
        {
            &&& 0 <= k < device.capabilities.len()
            &&& #[trigger] device.capabilities[k] == found->0
            &&& found->0.instance == instance
            &&& forall|j: int|
                0 <= j < k ==> (#[trigger] device.capabilities[j]).instance != instance
        };
    assert(!(k < i));
    assert(!(i < k));
}

/// Of an instance that no capability has, no events are known.
pub proof fn unknown_instances_have_no_events(device: DeviceView, instance: Seq<char>)
    requires
        forall|i: int|
            0 <= i < device.capabilities.len() ==> (#[trigger] device.capabilities[i]).instance
                != instance,
    ensures
        info_for(device, instance) is None,
{
    crate::device::first_capability_counts(device.capabilities, instance);
}

/// A report of an event publishes one event for each of its entries, in their
/// order, if Home Assistant is there and the events of its instance are known.
/// Otherwise, and if it is of anything else, it publishes nothing.
pub proof fn reports_publish_their_entries(
    device: DeviceView,
    report: ReportView,
    hass_ready: bool,
)
    ensures
        ({
            let entries = crate::message::entries_in(report.state);
            let publications = publications_of(device, seq![report], hass_ready);
            match (report.kind, hass_ready, info_for(device, report.instance)) {
                (crate::device::KindView::Event, true, Some(info)) => {
                    &&& publications.len() == entries.len()
                    &&& forall|i: int|
                        0 <= i < publications.len() ==> {
                            &&& (#[trigger] publications[i]).name == entries[i].name
                            &&& publications[i].value == entries[i].value
                            &&& publications[i].message == entries[i].message
                            &&& publications[i].topic == crate::topic::event_topic(
                                device.id,
                                report.instance,
                            )
                            &&& publications[i].event_type == event_type_of(info, entries[i])
                            &&& publications[i].advertised == info.event_types.contains(
                                publications[i].event_type,
                            )
                        }
                },
                _ => publications.len() == 0,
            }
        }),
{
    let one = seq![report];
    assert(one.drop_last() == Seq::<ReportView>::empty());
    assert(one.last() == report);
    assert(publications_of(device, one.drop_last(), hass_ready) == Seq::<PublicationView>::empty());
    assert(publications_of(device, one, hass_ready) == report_publications(
        device,
        report,
        hass_ready,
    ));
}

/// What is done about a message. Without a device in it, or without that
/// device, nothing is. Otherwise the publications are those of its reports,
/// in their order, and the device is polled exactly if a report is not of an
/// event, or Home Assistant is not there, or the events of the reported
/// instance are not known.
pub proof fn messages_are_handled_report_by_report(
    message: &PlatformMessage,
    device: Option<&Device>,
    hass_ready: bool,
    r: MessageOutcome,
)
    requires
        call_ensures(handle_platform_message, (message, device, hass_ready), r),
    ensures
        message.device is None ==> r is NoDevice,
        message.device is Some && device is None ==> r is UnknownDevice,
        message.device is Some && device is Some ==> {
            let expected = publications_of(device->0@, message@.capabilities, hass_ready);
            let reports = message.capabilities@;
            &&& r is Handled
            &&& r->publications@.len() == expected.len()
            &&& forall|i: int|
                0 <= i < expected.len() ==> (#[trigger] r->publications@[i])@ == expected[i]
            &&& r->poll <==> exists|i: int|
                0 <= i < reports.len() && {
                    ||| !((#[trigger] reports[i]).kind is Event)
                    ||| !hass_ready
                    ||| info_for(device->0@, reports[i].instance@) is None
                }
        },
{
    if message.device is Some && device is Some {
        let device = device->0@;
        let shown = message@.capabilities;
        let reports = message.capabilities@;
        let views = publication_views(r->publications@);
        assert(views.len() == r->publications@.len());
        assert forall|i: int| 0 <= i < views.len() implies (#[trigger] r->publications@[i])@
            == views[i] by {}
        assert forall|i: int| 0 <= i < reports.len() implies #[trigger] shown[i] == reports[i]@ by {}
        if r->poll {
            let i = choose|i: int|
                0 <= i < shown.len() && !publishable(device, #[trigger] shown[i], hass_ready);
            assert(shown[i] == reports[i]@);
        }
        if exists|i: int|
            0 <= i < reports.len() && {
                ||| !((#[trigger] reports[i]).kind is Event)
                ||| !hass_ready
                ||| info_for(device, reports[i].instance@) is None
            } {
            let i = choose|i: int|
                0 <= i < reports.len() && {
                    ||| !((#[trigger] reports[i]).kind is Event)
                    ||| !hass_ready
                    ||| info_for(device, reports[i].instance@) is None
                };
            assert(!publishable(device, shown[i], hass_ready));
        }
    }
}

} // verus!
