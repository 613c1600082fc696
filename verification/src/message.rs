//! Messages that the broker of the Govee platform publishes.
use crate::device::{DeviceCapabilityKind, KindView};
use crate::entry::{EntryView, EventEntry};
use crate::json::{JsonTree, JsonValue};
use vstd::prelude::*;

verus! {

/// A device event or state message.
#[derive(Debug)]
pub struct PlatformMessage {
    pub device: Option<String>,
    pub capabilities: Vec<PlatformCapability>,
}

/// One capability that a message reports on.
#[derive(Debug)]
pub struct PlatformCapability {
    pub kind: DeviceCapabilityKind,
    pub instance: String,
    /// A list of entries, for an event capability. It is kept as it came, so
    /// that a message with a state of another shape can still be read.
    pub state: JsonValue,
}

/// The view of a [`PlatformMessage`].
#[verifier::ext_equal]
pub struct MessageView {
    pub device: Option<Seq<char>>,
    pub capabilities: Seq<ReportView>,
}

/// The view of a [`PlatformCapability`].
pub struct ReportView {
    pub kind: KindView,
    pub instance: Seq<char>,
    pub state: JsonTree,
}

impl View for PlatformCapability {
    type V = ReportView;

    open spec fn view(&self) -> ReportView {
        ReportView { kind: self.kind@, instance: self.instance@, state: self.state@ }
    }
}

impl View for PlatformMessage {
    type V = MessageView;

    open spec fn view(&self) -> MessageView {
        MessageView {
            device: crate::entry::optional_view(self.device),
            capabilities: Seq::new(self.capabilities@.len(), |i: int| self.capabilities@[i]@),
        }
    }
}

/// The fields of a message, as its payload gives them: `device` may be
/// missing, and a payload without `capabilities` gives an empty list.
#[derive(Debug)]
pub struct MessageFields {
    pub device: Option<JsonValue>,
    pub capabilities: Vec<CapabilityFields>,
}

/// The fields of a capability report, as the payload gives them: `state` may
/// be missing.
#[derive(Debug)]
pub struct CapabilityFields {
    /// The field `type`.
    pub kind: JsonValue,
    pub instance: JsonValue,
    pub state: Option<JsonValue>,
}

/// The view of a [`MessageFields`].
pub struct MessageFieldsView {
    pub device: Option<JsonTree>,
    pub capabilities: Seq<CapabilityFieldsView>,
}

/// The view of a [`CapabilityFields`].
pub struct CapabilityFieldsView {
    pub kind: JsonTree,
    pub instance: JsonTree,
    pub state: Option<JsonTree>,
}

/// The view of a value that may be missing.
pub open spec fn optional_tree(value: Option<JsonValue>) -> Option<JsonTree> {
    match value {
        Some(value) => Some(value@),
        None => None,
    }
}

impl View for CapabilityFields {
    type V = CapabilityFieldsView;

    open spec fn view(&self) -> CapabilityFieldsView {
        CapabilityFieldsView {
            kind: self.kind@,
            instance: self.instance@,
            state: optional_tree(self.state),
        }
    }
}

impl View for MessageFields {
    type V = MessageFieldsView;

    open spec fn view(&self) -> MessageFieldsView {
        MessageFieldsView {
            device: optional_tree(self.device),
            capabilities: Seq::new(self.capabilities@.len(), |i: int| self.capabilities@[i]@),
        }
    }
}

/// The capability report that the fields make up: nothing where `type` or
/// `instance` is no text. The state may have any shape, and is null where it
/// is missing.
pub open spec fn report_of(fields: CapabilityFieldsView) -> Option<ReportView> {
    match (fields.kind, fields.instance) {
        (JsonTree::Text(kind), JsonTree::Text(instance)) => Some(
            ReportView {
                kind: crate::device::kind_named(kind),
                instance,
                state: match fields.state {
                    Some(state) => state,
                    None => JsonTree::Null,
                },
            },
        ),
        _ => None,
    }
}

/// The message that the fields make up: nothing where `device` is there and
/// is neither null nor a text, or where one of the capabilities is no report.
pub open spec fn message_of(fields: MessageFieldsView) -> Option<MessageView> {
    let device = crate::entry::optional_text_field(fields.device);
    if device is Some && forall|i: int|
        0 <= i < fields.capabilities.len() ==> report_of(#[trigger] fields.capabilities[i])
            is Some {
        Some(
            MessageView {
                device: device->0,
                capabilities: Seq::new(
                    fields.capabilities.len(),
                    |i: int| report_of(fields.capabilities[i])->0,
                ),
            },
        )
    } else {
        None
    }
}

/// The entries in the state of an event report: none where the state is no
/// list of entries.
pub open spec fn entries_in(state: JsonTree) -> Seq<EntryView> {
    match crate::entry::entries_of(state) {
        Some(entries) => entries,
        None => Seq::empty(),
    }
}

impl PlatformCapability {
    /// Makes a capability report of its fields.
    pub fn from_fields(fields: &CapabilityFields) -> (r: Option<PlatformCapability>)
        ensures
            match r {
                Some(report) => report_of(fields@) == Some(report@),
                None => report_of(fields@) is None,
            },
    {
        match (&fields.kind, &fields.instance) {
            (JsonValue::Text(kind), JsonValue::Text(instance)) => {
                let state = match &fields.state {
                    Some(state) => state.clone(),
                    None => JsonValue::Null,
                };
                Some(
                    PlatformCapability {
                        kind: DeviceCapabilityKind::from_name(kind.as_str()),
                        instance: instance.clone(),
                        state,
                    },
                )
            },
            _ => None,
        }
    }

    /// The entries in the state.
    pub fn entries(&self) -> (r: Vec<EventEntry>)
        ensures
            crate::entry::entry_views(r@) == entries_in(self@.state),
    {
        match EventEntry::list_from_value(&self.state) {
            Some(entries) => entries,
            None => Vec::new(),
        }
    }
}

impl PlatformMessage {
    /// Makes a message of its fields.
    pub fn from_fields(fields: &MessageFields) -> (r: Option<PlatformMessage>)
        ensures
            match r {
                Some(message) => message_of(fields@) == Some(message@),
                None => message_of(fields@) is None,
            },
    {
        let device = match crate::entry::read_optional_text(fields.device.as_ref()) {
            Some(device) => device,
            None => {
                return None;
            },
        };
        let ghost all = fields@.capabilities;
        let mut capabilities: Vec<PlatformCapability> = Vec::new();
        for k in 0..fields.capabilities.len()
            invariant
                all == fields@.capabilities,
                capabilities@.len() == k,
                forall|i: int|
                    0 <= i < k ==> report_of(all[i]) == Some((#[trigger] capabilities@[i])@),
        {
            match PlatformCapability::from_fields(&fields.capabilities[k]) {
                Some(report) => {
                    capabilities.push(report);
                },
                None => {
                    assert(report_of(all[k as int]) is None);
                    return None;
                },
            }
        }
        let message = PlatformMessage { device, capabilities };
        proof {
            assert forall|i: int| 0 <= i < all.len() implies report_of(#[trigger] all[i])
                is Some by {
                assert(report_of(all[i]) == Some(capabilities@[i]@));
            }
            assert(message_of(fields@)->0 =~= message@);
        }
        Some(message)
    }
}

/// A state that is no list has no entries.
pub proof fn other_states_have_no_entries(state: JsonTree)
    requires
        !(state is Array),
    ensures
        entries_in(state).len() == 0,
{
}

/// Whether fields make up a capability report does not depend on the state,
/// and neither do its kind and its instance.
pub proof fn state_does_not_fail_a_report(a: CapabilityFieldsView, b: CapabilityFieldsView)
    requires
        a.kind == b.kind,
        a.instance == b.instance,
    ensures
        report_of(a) is Some <==> report_of(b) is Some,
        report_of(a) is Some ==> report_of(a)->0.kind == report_of(b)->0.kind && report_of(
            a,
        )->0.instance == report_of(b)->0.instance,
{
}

/// Fields make up a report exactly if `type` and `instance` are texts. The
/// report then has that instance, is of an event exactly if its type is that
/// of events, and has the state that came, or null if none did.
pub proof fn reports_are_read_field_by_field(
    fields: &CapabilityFields,
    r: Option<PlatformCapability>,
)
    requires
        call_ensures(PlatformCapability::from_fields, (fields,), r),
    ensures
        r is Some <==> fields.kind is Text && fields.instance is Text,
        r matches Some(report) ==> {
            &&& report.instance@ == fields.instance->Text_0@
            &&& match report.kind {
                DeviceCapabilityKind::Event => fields.kind->Text_0@
                    == "devices.capabilities.event"@,
                DeviceCapabilityKind::Other(name) => name@ == fields.kind->Text_0@ && name@
                    != "devices.capabilities.event"@,
            }
            &&& match fields.state {
                Some(state) => report.state@ == state@,
                None => report.state is Null,
            }
        },
{
    if let Some(report) = r {
        crate::json::values_show_their_parts(report.state);
    }
}

/// Fields make up a message exactly if `device` is a text, null or missing,
/// and all of the listed capabilities are reports. The message then names that
/// device, and holds these reports in their order.
pub proof fn messages_are_read_field_by_field(fields: &MessageFields, r: Option<PlatformMessage>)
    requires
        call_ensures(PlatformMessage::from_fields, (fields,), r),
    ensures
        r is Some <==> {
            &&& match fields.device {
                Some(device) => device is Text || device is Null,
                None => true,
            }
            &&& forall|i: int|
                0 <= i < fields.capabilities@.len() ==> {
                    &&& (#[trigger] fields.capabilities@[i]).kind is Text
                    &&& fields.capabilities@[i].instance is Text
                }
        },
        r matches Some(message) ==> {
            &&& match (fields.device, message.device) {
                (Some(JsonValue::Text(text)), Some(device)) => device@ == text@,
                (field, device) => device is None && (field is None || field->0 is Null),
            }
            &&& message.capabilities@.len() == fields.capabilities@.len()
            &&& forall|i: int|
                0 <= i < message.capabilities@.len() ==> report_of(fields.capabilities@[i]@)
                    == Some((#[trigger] message.capabilities@[i])@)
        },
{
    let given = fields@.capabilities;
    assert forall|i: int| 0 <= i < given.len() implies (#[trigger] report_of(given[i]) is Some
        <==> fields.capabilities@[i].kind is Text && fields.capabilities@[i].instance is Text) by {
        crate::json::values_show_their_parts(fields.capabilities@[i].kind);
        crate::json::values_show_their_parts(fields.capabilities@[i].instance);
    }
    if let Some(message) = r {
        let reports = message@.capabilities;
        assert(reports.len() == message.capabilities@.len());
        assert(reports.len() == given.len());
        assert forall|i: int| 0 <= i < message.capabilities@.len() implies report_of(
            fields.capabilities@[i]@,
        ) == Some((#[trigger] message.capabilities@[i])@) by {
            assert(report_of(given[i]) is Some);
            assert(reports[i] == report_of(given[i])->0);
        }
        assert forall|i: int| 0 <= i < fields.capabilities@.len() implies (
        #[trigger] fields.capabilities@[i]).kind is Text && fields.capabilities@[i].instance
            is Text by {
            assert(report_of(given[i]) is Some);
        }
    }
}

/// A message shows its reports in their order, each with the kind, the
/// instance and the state that it holds.
pub proof fn messages_show_their_reports(message: PlatformMessage, i: int)
    requires
        0 <= i < message.capabilities@.len(),
    ensures
        message@.device is Some <==> message.device is Some,
        message@.capabilities.len() == message.capabilities@.len(),
        message@.capabilities[i].instance == message.capabilities@[i].instance@,
        message@.capabilities[i].state == message.capabilities@[i].state@,
        message@.capabilities[i].kind is Event <==> message.capabilities@[i].kind is Event,
{
}

/// The entries in a state are those of the list that it is, one by one and in
/// their order; one item that is no entry leaves none.
pub proof fn states_list_their_entries(report: &PlatformCapability, r: Vec<EventEntry>)
    requires
        call_ensures(PlatformCapability::entries, (report,), r),
    ensures
        entries_in(report.state@) == crate::entry::entry_views(r@),
        match report.state@ {
            JsonTree::Array(items, _) => if exists|i: int|
                0 <= i < items.len() && crate::entry::entry_of(#[trigger] items[i]) is None {
                r@.len() == 0
            } else {
                &&& r@.len() == items.len()
                &&& forall|i: int|
                    0 <= i < r@.len() ==> crate::entry::entry_of(items[i]) == Some(
                        (#[trigger] r@[i])@,
                    )
            },
            _ => r@.len() == 0,
        },
{
    let views = crate::entry::entry_views(r@);
    assert(views.len() == r@.len());
    match report.state@ {
        JsonTree::Array(items, _) => {
            if exists|i: int|
                0 <= i < items.len() && crate::entry::entry_of(#[trigger] items[i]) is None {
                assert(crate::entry::entries_of(report.state@) is None);
            } else {
                assert(crate::entry::entries_of(report.state@) == Some(views));
                assert forall|i: int| 0 <= i < r@.len() implies crate::entry::entry_of(items[i])
                    == Some((#[trigger] r@[i])@) by {
                    assert(crate::entry::entry_of(items[i]) is Some);
                    assert(views[i] == r@[i]@);
                }
            }
        },
        _ => {},
    }
}

} // verus!
