//! Resource types of the Garmin ecosystem, the keys they are filed under, and
//! the resources that the README lists.

use vstd::prelude::*;
use crate::order::Timestamp;
use crate::text::chars_of;

verus! {

/// The type a resource has in the Garmin ecosystem, with a few extra types
/// for projects that are not device apps.
#[derive(Clone, Copy, Debug, PartialEq, Eq, Structural)]
pub enum ResourceType {
    WatchFace,
    DataField,
    Widget,
    DeviceApp,
    AudioContentProvider,
    Barrel,
    Tool,
    CompanionApp,
    Miscellaneous,
}

/// Whether a resource is listed among the active ones or put away under the
/// older resources.
#[derive(Clone, Copy, Debug, PartialEq, Eq, Structural)]
pub enum ResourceStatus {
    Active,
    Inactive,
}

/// A Connect IQ type id that names no resource type.
#[derive(Debug)]
pub struct InvalidTypeId {
    pub id: String,
}

/// The resource type that a Connect IQ type id stands for.
pub open spec fn type_of_id(id: Seq<char>) -> Option<ResourceType> {
    if id == seq!['1'] {
        Some(ResourceType::WatchFace)
    } else if id == seq!['2'] {
        Some(ResourceType::DeviceApp)
    } else if id == seq!['3'] {
        Some(ResourceType::Widget)
    } else if id == seq!['4'] {
        Some(ResourceType::DataField)
    } else if id == seq!['5'] {
        Some(ResourceType::AudioContentProvider)
    } else {
        None
    }
}

/// The types that are always shown as active, however old they are.
pub open spec fn always_active(t: ResourceType) -> bool {
    match t {
        ResourceType::AudioContentProvider | ResourceType::Barrel | ResourceType::Tool
        | ResourceType::CompanionApp | ResourceType::Miscellaneous => true,
        _ => false,
    }
}

/// The status a resource of type `t` gets.
pub open spec fn status_of(t: ResourceType, is_old: bool) -> ResourceStatus {
    if is_old && !always_active(t) {
        ResourceStatus::Inactive
    } else {
        ResourceStatus::Active
    }
}

/// The key under which a status is filed.
pub open spec fn status_text(s: ResourceStatus) -> Seq<char> {
    match s {
        ResourceStatus::Active => "active"@,
        ResourceStatus::Inactive => "inactive"@,
    }
}

/// The name of a resource type as the README template knows it.
pub open spec fn kind_name(t: ResourceType) -> Seq<char> {
    match t {
        ResourceType::WatchFace => "watch_face"@,
        ResourceType::DataField => "data_field"@,
        ResourceType::Widget => "widget"@,
        ResourceType::DeviceApp => "device_app"@,
        ResourceType::AudioContentProvider => "audio_content_provider"@,
        ResourceType::Barrel => "barrel"@,
        ResourceType::Tool => "tool"@,
        ResourceType::CompanionApp => "companion_app"@,
        ResourceType::Miscellaneous => "miscellaneous"@,
    }
}

/// The key of the flat layout, where the first four types are split into an
/// active and an inactive list and the others have one list.
pub open spec fn flat_key(t: ResourceType, is_old: bool) -> Seq<char> {
    match t {
        ResourceType::WatchFace | ResourceType::DataField | ResourceType::Widget
        | ResourceType::DeviceApp => kind_name(t) + (if is_old {
            "_inactive"@
        } else {
            "_active"@
        }),
        _ => kind_name(t),
    }
}

/// The nine types, in the order the TOML file lists them.
pub open spec fn all_kinds() -> Seq<ResourceType> {
    seq![
        ResourceType::WatchFace,
        ResourceType::DataField,
        ResourceType::Widget,
        ResourceType::DeviceApp,
        ResourceType::AudioContentProvider,
        ResourceType::Barrel,
        ResourceType::Tool,
        ResourceType::CompanionApp,
        ResourceType::Miscellaneous,
    ]
}

impl ResourceType {
    /// All resource types, in the order the TOML file lists them.
    pub fn all() -> (r: Vec<ResourceType>)
        ensures
            r@ == all_kinds(),
    {
        let r = vec![
            ResourceType::WatchFace,
            ResourceType::DataField,
            ResourceType::Widget,
            ResourceType::DeviceApp,
            ResourceType::AudioContentProvider,
            ResourceType::Barrel,
            ResourceType::Tool,
            ResourceType::CompanionApp,
            ResourceType::Miscellaneous,
        ];
        assert(r@ =~= all_kinds());
        r
    }

    /// Maps a Connect IQ type id ("1" to "5") to its resource type.
    pub fn try_from(value: String) -> (r: Result<ResourceType, InvalidTypeId>)
        ensures
            r matches Ok(t) ==> type_of_id(value@) == Some(t),
            r matches Err(e) ==> type_of_id(value@) is None && e.id@ == value@,
            r is Ok <==> type_of_id(value@) is Some,
    {
        let v = chars_of(value.as_str());
        if v.len() == 1 {
            let c = v[0];
            proof {
                assert(value@ =~= seq![c]);
            }
            if c == '1' {
                return Ok(ResourceType::WatchFace);
            } else if c == '2' {
                return Ok(ResourceType::DeviceApp);
            } else if c == '3' {
                return Ok(ResourceType::Widget);
            } else if c == '4' {
                return Ok(ResourceType::DataField);
            } else if c == '5' {
                return Ok(ResourceType::AudioContentProvider);
            }
        }
        proof {
            if v@.len() != 1 {
                assert(value@.len() != seq!['1'].len());
            }
        }
        Err(InvalidTypeId { id: value })
    }

    /// The status for a resource of this type: old resources are inactive,
    /// except for the types that are always shown.
    pub fn status(&self, is_old: bool) -> (s: ResourceStatus)
        ensures
            s == status_of(*self, is_old),
    {
        let inactive = match self {
            ResourceType::AudioContentProvider | ResourceType::Barrel | ResourceType::Tool
            | ResourceType::CompanionApp | ResourceType::Miscellaneous => false,
            _ => is_old,
        };
        if inactive {
            ResourceStatus::Inactive
        } else {
            ResourceStatus::Active
        }
    }

    /// The status key, `"active"` or `"inactive"`, that a resource of this
    /// type is filed under.
    pub fn status_key(&self, is_old: bool) -> (s: String)
        ensures
            s@ == status_text(status_of(*self, is_old)),
    {
        self.status(is_old).key()
    }

    /// The type's name, as `Display` writes it.
    pub fn name(&self) -> (s: String)
        ensures
            s@ == kind_name(*self),
    {
        match self {
            ResourceType::WatchFace => "watch_face".to_owned(),
            ResourceType::DataField => "data_field".to_owned(),
            ResourceType::Widget => "widget".to_owned(),
            ResourceType::DeviceApp => "device_app".to_owned(),
            ResourceType::AudioContentProvider => "audio_content_provider".to_owned(),
            ResourceType::Barrel => "barrel".to_owned(),
            ResourceType::Tool => "tool".to_owned(),
            ResourceType::CompanionApp => "companion_app".to_owned(),
            ResourceType::Miscellaneous => "miscellaneous".to_owned(),
        }
    }

    /// The key of the flat layout: `<name>_active` or `<name>_inactive` for
    /// watch faces, data fields, widgets and device apps, the bare name for
    /// the other types.
    pub fn map_key(&self, is_old: bool) -> (s: String)
        ensures
            s@ == flat_key(*self, is_old),
    {
        match self {
            ResourceType::WatchFace | ResourceType::DataField | ResourceType::Widget
            | ResourceType::DeviceApp => {
                let mut key = self.name();
                if is_old {
                    key.append("_inactive");
                } else {
                    key.append("_active");
                }
                key
            },
            _ => self.name(),
        }
    }
}

impl ResourceStatus {
    /// The key this status is filed under.
    pub fn key(&self) -> (s: String)
        ensures
            s@ == status_text(*self),
    {
        match self {
            ResourceStatus::Active => "active".to_owned(),
            ResourceStatus::Inactive => "inactive".to_owned(),
        }
    }
}

} // verus!

verus! {

/// A resource once the TOML entry is resolved and the hosting API has been
/// asked: everything a README row shows.
#[derive(Debug)]
pub struct GarminResource {
    pub name: String,
    pub description: Option<String>,
    pub url: String,
    pub last_updated: Option<Timestamp>,
    pub is_archived: bool,
    pub star_count: Option<u32>,
}

/// One entry of `awesome.toml`: an optional custom name and description
/// (an empty string in the file reads as no value).
#[derive(Debug)]
pub struct TomlFileItem {
    pub name: Option<String>,
    pub description: Option<String>,
}

} // verus!

verus! {

/// Different resource types have different names, so the README's lists
/// never share a key.
pub proof fn lemma_kind_names_distinct(a: ResourceType, b: ResourceType)
    requires
        a != b,
    ensures
        kind_name(a) != kind_name(b),
{
    reveal_strlit("watch_face");
    reveal_strlit("data_field");
    reveal_strlit("widget");
    reveal_strlit("device_app");
    reveal_strlit("audio_content_provider");
    reveal_strlit("barrel");
    reveal_strlit("tool");
    reveal_strlit("companion_app");
    reveal_strlit("miscellaneous");
    if kind_name(a) == kind_name(b) {
        assert(kind_name(a).len() == kind_name(b).len());
        assert(kind_name(a)[0] == kind_name(b)[0]);
        assert(kind_name(a)[1] == kind_name(b)[1]);
    }
}

/// The two status keys differ.
pub proof fn lemma_status_texts_distinct()
    ensures
        status_text(ResourceStatus::Active) != status_text(ResourceStatus::Inactive),
{
    reveal_strlit("active");
    reveal_strlit("inactive");
    assert(status_text(ResourceStatus::Active).len() != status_text(ResourceStatus::Inactive).len());
}

/// In the flat layout the key of a list depends only on the type and the
/// status its age gives it, and different (type, status) pairs get different
/// keys: the flat layout files resources as the grouped one does.
pub proof fn lemma_flat_keys_follow_status(t1: ResourceType, old1: bool, t2: ResourceType, old2: bool)
    ensures
        flat_key(t1, old1) == flat_key(t2, old2) <==> (t1 == t2 && status_of(t1, old1) == status_of(t2, old2)),
{
    reveal_strlit("watch_face");
    reveal_strlit("data_field");
    reveal_strlit("widget");
    reveal_strlit("device_app");
    reveal_strlit("audio_content_provider");
    reveal_strlit("barrel");
    reveal_strlit("tool");
    reveal_strlit("companion_app");
    reveal_strlit("miscellaneous");
    reveal_strlit("_active");
    reveal_strlit("_inactive");
    let k1 = flat_key(t1, old1);
    let k2 = flat_key(t2, old2);
    if k1 == k2 {
        assert(k1.len() == k2.len());
        assert(k1[0] == k2[0]);
        assert(k1[1] == k2[1]);
        if k1.len() > 11 {
            assert(k1[11] == k2[11]);
        }
        if k1.len() > 7 {
            assert(k1[7] == k2[7]);
        }
    }
}

/// Watch faces, data fields, widgets and device apps are put away as
/// inactive once they are old; every other type is always active. The status
/// key says which, and in the flat layout these four types get a list per
/// status (`<name>_active`, `<name>_inactive`) while the others keep one list
/// under their bare name.
pub proof fn lemma_device_types_go_inactive(t: ResourceType, is_old: bool)
    ensures
        status_of(t, is_old) == ResourceStatus::Inactive <==> (is_old && (t == ResourceType::WatchFace
            || t == ResourceType::DataField || t == ResourceType::Widget || t == ResourceType::DeviceApp)),
        status_text(status_of(t, is_old)) == (if status_of(t, is_old) == ResourceStatus::Inactive {
            "inactive"@
        } else {
            "active"@
        }),
        (t == ResourceType::WatchFace || t == ResourceType::DataField || t == ResourceType::Widget
            || t == ResourceType::DeviceApp) ==> flat_key(t, is_old) == kind_name(t) + "_"@ + status_text(
            status_of(t, is_old),
        ),
        !(t == ResourceType::WatchFace || t == ResourceType::DataField || t == ResourceType::Widget
            || t == ResourceType::DeviceApp) ==> flat_key(t, is_old) == kind_name(t),
{
    reveal_strlit("_");
    reveal_strlit("active");
    reveal_strlit("inactive");
    reveal_strlit("_active");
    reveal_strlit("_inactive");
    assert("_"@ + "active"@ =~= "_active"@);
    assert("_"@ + "inactive"@ =~= "_inactive"@);
    assert(kind_name(t) + "_"@ + "active"@ =~= kind_name(t) + ("_"@ + "active"@));
    assert(kind_name(t) + "_"@ + "inactive"@ =~= kind_name(t) + ("_"@ + "inactive"@));
}

/// Audio content providers, barrels, tools, companion apps and
/// miscellaneous resources are always shown as active, however old; the
/// other types are inactive exactly when they are old.
pub proof fn lemma_status_by_age(t: ResourceType, is_old: bool)
    ensures
        always_active(t) ==> status_of(t, is_old) == ResourceStatus::Active,
        !always_active(t) ==> (status_of(t, is_old) == ResourceStatus::Inactive <==> is_old),
{
}

} // verus!
