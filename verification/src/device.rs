//! Devices and their capabilities, as far as the event logic reads them.
use crate::json::{JsonTree, JsonValue};
use vstd::prelude::*;

verus! {

/// The kind of a capability.
#[derive(Debug, Clone, PartialEq, Eq)]
pub enum DeviceCapabilityKind {
    /// The capability reports momentary events.
    Event,
    /// Any other kind, by its name on the wire.
    Other(String),
}

/// The view of a [`DeviceCapabilityKind`].
pub enum KindView {
    Event,
    Other(Seq<char>),
}

impl View for DeviceCapabilityKind {
    type V = KindView;

    open spec fn view(&self) -> KindView {
        match self {
            DeviceCapabilityKind::Event => KindView::Event,
            DeviceCapabilityKind::Other(name) => KindView::Other(name@),
        }
    }
}

/// The kind with the given name on the wire.
pub open spec fn kind_named(name: Seq<char>) -> KindView {
    if name == "devices.capabilities.event"@ {
        KindView::Event
    } else {
        KindView::Other(name)
    }
}

impl DeviceCapabilityKind {
    /// The kind with the given name on the wire.
    pub fn from_name(name: &str) -> (r: DeviceCapabilityKind)
        ensures
            r@ == kind_named(name@),
    {
        if *name == *"devices.capabilities.event" {
            DeviceCapabilityKind::Event
        } else {
            DeviceCapabilityKind::Other(name.to_owned())
        }
    }
}

/// A capability as the platform API describes it.
#[derive(Debug, Clone, PartialEq, Eq)]
pub struct DeviceCapability {
    pub kind: DeviceCapabilityKind,
    pub instance: String,
    /// The metadata of an event capability.
    pub event_state: Option<JsonValue>,
}

/// The view of a [`DeviceCapability`].
pub struct CapabilityView {
    pub kind: KindView,
    pub instance: Seq<char>,
    pub event_state: Option<JsonTree>,
}

impl View for DeviceCapability {
    type V = CapabilityView;

    open spec fn view(&self) -> CapabilityView {
        CapabilityView {
            kind: self.kind@,
            instance: self.instance@,
            event_state: match self.event_state {
                Some(value) => Some(value@),
                None => None,
            },
        }
    }
}

/// A device that the service knows.
#[derive(Debug, Clone, PartialEq, Eq)]
pub struct Device {
    pub sku: String,
    pub id: String,
    pub capabilities: Vec<DeviceCapability>,
}

/// The view of a [`Device`].
pub struct DeviceView {
    pub sku: Seq<char>,
    pub id: Seq<char>,
    pub capabilities: Seq<CapabilityView>,
}

impl View for Device {
    type V = DeviceView;

    open spec fn view(&self) -> DeviceView {
        DeviceView {
            sku: self.sku@,
            id: self.id@,
            capabilities: Seq::new(self.capabilities@.len(), |i: int| self.capabilities@[i]@),
        }
    }
}

/// The first capability with the given instance.
pub open spec fn find_capability(capabilities: Seq<CapabilityView>, instance: Seq<char>) -> Option<
    CapabilityView,
>
    decreases capabilities.len(),
{
    if capabilities.len() == 0 {
        None
    } else if capabilities[0].instance == instance {
        Some(capabilities[0])
    } else {
        find_capability(capabilities.drop_first(), instance)
    }
}

impl Device {
    /// A device of which no capability is known yet.
    pub fn new(sku: &str, id: &str) -> (r: Device)
        ensures
            r.sku@ == sku@,
            r.id@ == id@,
            r.capabilities@.len() == 0,
    {
        Device { sku: sku.to_owned(), id: id.to_owned(), capabilities: Vec::new() }
    }

    /// The first capability with the given instance.
    pub fn get_capability_by_instance(&self, instance: &str) -> (r: Option<&DeviceCapability>)
        ensures
            match r {
                Some(capability) => find_capability(self@.capabilities, instance@) == Some(
                    capability@,
                ),
                None => find_capability(self@.capabilities, instance@) is None,
            },
    {
        let ghost all = self@.capabilities;
        assert(all.skip(0) == all);
        for k in 0..self.capabilities.len()
            invariant
                all == self@.capabilities,
                find_capability(all, instance@) == find_capability(all.skip(k as int), instance@),
        {
            assert(all.skip(k as int).drop_first() == all.skip(k + 1));
            if *self.capabilities[k].instance.as_str() == *instance {
                return Some(&self.capabilities[k]);
            }
        }
        None
    }
}

/// Just one name is that of event capabilities, and every other kind keeps the
/// name that it came with.
pub proof fn one_name_is_that_of_events(name: Seq<char>)
    ensures
        kind_named(name) is Event <==> name == "devices.capabilities.event"@,
        !(kind_named(name) is Event) ==> kind_named(name) == KindView::Other(name),
{
}

/// The capability of an instance is the first one with exactly that instance,
/// and there is none only where no capability has it.
pub proof fn first_capability_counts(capabilities: Seq<CapabilityView>, instance: Seq<char>)
    ensures
        match find_capability(capabilities, instance) {
            Some(found) => exists|i: int|
                {
                    &&& 0 <= i < capabilities.len()
                    &&& #[trigger] capabilities[i] == found
                    &&& found.instance == instance
                    &&& forall|j: int|
                        0 <= j < i ==> (#[trigger] capabilities[j]).instance != instance
                },
            None => forall|i: int|
                0 <= i < capabilities.len() ==> (#[trigger] capabilities[i]).instance != instance,
        },
    decreases capabilities.len(),
{
    if capabilities.len() > 0 && capabilities[0].instance != instance {
        let rest = capabilities.drop_first();
        first_capability_counts(rest, instance);
        match find_capability(capabilities, instance) {
            Some(found) => {
                let i = choose|i: int|
                    {
                        &&& 0 <= i < rest.len()
                        &&& #[trigger] rest[i] == found
                        &&& found.instance == instance
                        &&& forall|j: int| 0 <= j < i ==> (#[trigger] rest[j]).instance != instance
                    };
                assert(capabilities[i + 1] == rest[i]);
                assert forall|j: int| 0 <= j < i + 1 implies (#[trigger] capabilities[j]).instance
                    != instance by {
                    if j > 0 {
                        assert(rest[j - 1] == capabilities[j]);
                    }
                }
            },
            None => {
                assert forall|i: int| 0 <= i < capabilities.len() implies (
                #[trigger] capabilities[i]).instance != instance by {
                    if i > 0 {
                        assert(rest[i - 1] == capabilities[i]);
                    }
                }
            },
        }
    }
}

/// A device shows its own id and model, and each of its capabilities at its
/// place, with its kind, its instance and its metadata.
pub proof fn devices_show_their_capabilities(device: Device, i: int)
    requires
        0 <= i < device.capabilities@.len(),
    ensures
        device@.id == device.id@,
        device@.sku == device.sku@,
        device@.capabilities.len() == device.capabilities@.len(),
        device@.capabilities[i].instance == device.capabilities@[i].instance@,
        device@.capabilities[i].kind is Event <==> device.capabilities@[i].kind is Event,
        device@.capabilities[i].event_state is Some
            <==> device.capabilities@[i].event_state is Some,
        device.capabilities@[i].event_state matches Some(metadata)
            ==> device@.capabilities[i].event_state == Some(metadata@),
{
}

/// A new device has the given model and id as they are, and no capability.
pub proof fn new_devices_are_bare(sku: &str, id: &str, device: Device, instance: Seq<char>)
    requires
        call_ensures(Device::new, (sku, id), device),
    ensures
        device@.sku == sku@,
        device@.id == id@,
        find_capability(device@.capabilities, instance) is None,
{
}

} // verus!
