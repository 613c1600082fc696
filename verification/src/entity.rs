//! What every entity tells Home Assistant of itself.
use vstd::prelude::*;

verus! {

/// The part of an entity's configuration that does not depend on its kind.
#[derive(Debug, Clone)]
pub struct EntityConfig {
    pub availability_topic: String,
    pub name: Option<String>,
    pub entity_category: Option<String>,
    pub origin: Origin,
    pub device: Device,
    pub unique_id: String,
    pub device_class: Option<&'static str>,
    pub icon: Option<String>,
}

/// The software that an entity comes from.
#[derive(Debug, Clone)]
pub struct Origin {
    pub name: &'static str,
    pub url: &'static str,
}

/// The device that an entity belongs to.
#[derive(Debug, Clone)]
pub struct Device {
    pub name: String,
    pub manufacturer: String,
    pub model: String,
    pub via_device: Option<String>,
    pub identifiers: Vec<String>,
}

/// The view of an [`EntityConfig`].
#[verifier::ext_equal]
pub struct EntityView {
    pub availability_topic: Seq<char>,
    pub name: Option<Seq<char>>,
    pub entity_category: Option<Seq<char>>,
    pub origin: OriginView,
    pub device: DeviceBlockView,
    pub unique_id: Seq<char>,
    pub device_class: Option<Seq<char>>,
    pub icon: Option<Seq<char>>,
}

/// The view of an [`Origin`].
pub struct OriginView {
    pub name: Seq<char>,
    pub url: Seq<char>,
}

/// The view of a [`Device`].
#[verifier::ext_equal]
pub struct DeviceBlockView {
    pub name: Seq<char>,
    pub manufacturer: Seq<char>,
    pub model: Seq<char>,
    pub via_device: Option<Seq<char>>,
    pub identifiers: Seq<Seq<char>>,
}

impl View for Origin {
    type V = OriginView;

    open spec fn view(&self) -> OriginView {
        OriginView { name: self.name@, url: self.url@ }
    }
}

impl View for Device {
    type V = DeviceBlockView;

    open spec fn view(&self) -> DeviceBlockView {
        DeviceBlockView {
            name: self.name@,
            manufacturer: self.manufacturer@,
            model: self.model@,
            via_device: crate::entry::optional_view(self.via_device),
            identifiers: crate::event::texts(self.identifiers@),
        }
    }
}

impl View for EntityConfig {
    type V = EntityView;

    open spec fn view(&self) -> EntityView {
        EntityView {
            availability_topic: self.availability_topic@,
            name: crate::entry::optional_view(self.name),
            entity_category: crate::entry::optional_view(self.entity_category),
            origin: self.origin@,
            device: self.device@,
            unique_id: self.unique_id@,
            device_class: match self.device_class {
                Some(class) => Some(class@),
                None => None,
            },
            icon: crate::entry::optional_view(self.icon),
        }
    }
}

/// The origin of all entities.
pub open spec fn origin() -> OriginView {
    OriginView { name: "gv2mqtt"@, url: "https://github.com/wez/govee2mqtt"@ }
}

impl Default for Origin {
    fn default() -> (r: Self)
        ensures
            r@ == origin(),
    {
        Origin { name: "gv2mqtt", url: "https://github.com/wez/govee2mqtt" }
    }
}

/// The name of a device: its model, and the last four characters of its id.
pub open spec fn device_name(sku: Seq<char>, id: Seq<char>) -> Seq<char> {
    let id = crate::topic::safe_id(id);
    sku + "_"@ + id.skip(
        if id.len() > 4 {
            id.len() - 4
        } else {
            0
        },
    )
}

/// What Home Assistant is told of a device.
pub open spec fn device_block(device: crate::device::DeviceView) -> DeviceBlockView {
    DeviceBlockView {
        name: device_name(device.sku, device.id),
        manufacturer: "Govee"@,
        model: device.sku,
        via_device: Some("gv2mqtt"@),
        identifiers: seq!["gv2mqtt-"@ + crate::topic::safe_id(device.id)],
    }
}

impl Device {
    /// What Home Assistant is told of a device.
    pub fn for_device(device: &crate::device::Device) -> (r: Device)
        ensures
            r@ == device_block(device@),
    {
        let id = crate::topic::topic_safe_id(device);
        let n: usize = id.as_str().unicode_len();
        let mut name: String = device.sku.clone();
        name.append("_");
        name.append(
            id.as_str().substring_char(
                if n > 4 {
                    n - 4
                } else {
                    0
                },
                n,
            ),
        );
        let mut identifier: String = "gv2mqtt-".to_owned();
        identifier.append(id.as_str());
        let mut identifiers: Vec<String> = Vec::new();
        identifiers.push(identifier);
        let r = Device {
            name,
            manufacturer: "Govee".to_owned(),
            model: device.sku.clone(),
            via_device: Some("gv2mqtt".to_owned()),
            identifiers,
        };
        assert(r@.identifiers =~= device_block(device@).identifiers);
        assert(r@ =~= device_block(device@));
        r
    }
}

/// The name of a device ends in the last four characters of its safe id, or
/// in all of them if there are fewer. The model comes first.
pub proof fn device_names_end_in_the_id(
    sku: Seq<char>,
    id: Seq<char>,
    head: Seq<char>,
    tail: Seq<char>,
)
    requires
        crate::topic::safe_id(id) == head + tail,
        tail.len() == 4 || (tail.len() < 4 && head.len() == 0),
    ensures
        device_name(sku, id) == sku + "_"@ + tail,
{
    assert((head + tail).skip(head.len() as int) == tail);
}

} // verus!
