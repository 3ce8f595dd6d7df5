use awesome_generator::catalog::GarminResources;
use awesome_generator::resource::{GarminResource, ResourceStatus, ResourceType};

fn resource(name: &str) -> GarminResource {
    GarminResource {
        name: name.to_string(),
        description: None,
        url: format!("https://example.com/{name}"),
        last_updated: None,
        is_archived: false,
        star_count: None,
    }
}

#[test]
fn type_ids_map_to_types() {
    assert_eq!(ResourceType::try_from("1".to_string()).unwrap(), ResourceType::WatchFace);
    assert_eq!(ResourceType::try_from("2".to_string()).unwrap(), ResourceType::DeviceApp);
    assert_eq!(ResourceType::try_from("3".to_string()).unwrap(), ResourceType::Widget);
    assert_eq!(ResourceType::try_from("4".to_string()).unwrap(), ResourceType::DataField);
    assert_eq!(ResourceType::try_from("5".to_string()).unwrap(), ResourceType::AudioContentProvider);
}

#[test]
fn unknown_type_id_is_an_error() {
    let err = ResourceType::try_from("6".to_string()).unwrap_err();
    assert_eq!(err.id, "6");
    assert!(ResourceType::try_from("".to_string()).is_err());
    assert!(ResourceType::try_from("12".to_string()).is_err());
}

#[test]
fn old_resources_are_inactive_unless_always_shown() {
    assert_eq!(ResourceType::WatchFace.status_key(true), "inactive");
    assert_eq!(ResourceType::WatchFace.status_key(false), "active");
    assert_eq!(ResourceType::DeviceApp.status_key(true), "inactive");
    assert_eq!(ResourceType::Barrel.status_key(true), "active");
    assert_eq!(ResourceType::Tool.status_key(true), "active");
    assert_eq!(ResourceType::Miscellaneous.status_key(true), "active");
    assert_eq!(ResourceType::AudioContentProvider.status(true), ResourceStatus::Active);
}

#[test]
fn type_names_are_the_template_keys() {
    let names: Vec<String> = ResourceType::all().iter().map(|t| t.name()).collect();
    assert_eq!(
        names,
        vec![
            "watch_face",
            "data_field",
            "widget",
            "device_app",
            "audio_content_provider",
            "barrel",
            "tool",
            "companion_app",
            "miscellaneous"
        ]
    );
}

#[test]
fn flat_keys_split_only_the_first_four_types() {
    assert_eq!(ResourceType::WatchFace.map_key(true), "watch_face_inactive");
    assert_eq!(ResourceType::Widget.map_key(false), "widget_active");
    assert_eq!(ResourceType::DeviceApp.map_key(true), "device_app_inactive");
    assert_eq!(ResourceType::Barrel.map_key(true), "barrel");
    assert_eq!(ResourceType::CompanionApp.map_key(false), "companion_app");
}

#[test]
fn catalog_files_resources_by_type_and_status() {
    let mut c = GarminResources::new();
    c.add(ResourceType::WatchFace, false, resource("a"));
    c.add(ResourceType::WatchFace, true, resource("b"));
    c.add(ResourceType::WatchFace, false, resource("c"));
    c.add(ResourceType::Barrel, true, resource("d"));
    c.file(ResourceType::Tool, (None, true));

    let active = c.take_list(ResourceType::WatchFace, ResourceStatus::Active).unwrap();
    let names: Vec<String> = active.into_iter().map(|r| r.name).collect();
    assert_eq!(names, vec!["a", "c"]);
    assert_eq!(c.take_list(ResourceType::WatchFace, ResourceStatus::Active).map(|l| l.len()), None);
    assert_eq!(c.take_list(ResourceType::WatchFace, ResourceStatus::Inactive).unwrap().len(), 1);
    assert_eq!(c.take_list(ResourceType::Barrel, ResourceStatus::Active).unwrap()[0].name, "d");
    assert!(c.take_list(ResourceType::Barrel, ResourceStatus::Inactive).is_none());
    assert!(c.take_list(ResourceType::Tool, ResourceStatus::Active).is_none());
}

#[test]
fn catalog_sorts_every_list() {
    let mut c = GarminResources::new();
    c.add(ResourceType::Widget, false, resource("b"));
    c.add(ResourceType::Widget, false, resource("a"));
    c.sort_lists();
    let names: Vec<String> = c
        .take_list(ResourceType::Widget, ResourceStatus::Active)
        .unwrap()
        .into_iter()
        .map(|r| r.name)
        .collect();
    assert_eq!(names, vec!["a", "b"]);
}
