use awesome_generator::order::Timestamp;
use awesome_generator::resource::GarminResource;
use awesome_generator::sorting::{sorted_resources, sorted_resources_by_date};

fn timestamp(d: chrono::DateTime<chrono::Utc>) -> Timestamp {
    Timestamp { secs: d.timestamp(), nanos: d.timestamp_subsec_nanos() }
}

fn resource(name: &str, last_updated: Option<Timestamp>) -> GarminResource {
    GarminResource {
        name: name.to_string(),
        last_updated,
        description: None,
        url: "#".to_string(),
        is_archived: false,
        star_count: None,
    }
}

#[test]
fn same_updated_should_sort_on_name() {
    let t0 = chrono::Utc::now();
    let t1 = t0 - std::time::Duration::from_secs(5);

    let mut r = vec![
        GarminResource {
            name: "Name A".to_string(),
            last_updated: Some(timestamp(t1)),
            description: None,
            url: "#".to_string(),
            is_archived: false,
            star_count: None,
        },
        GarminResource {
            name: "Name C".to_string(),
            last_updated: Some(timestamp(t0)),
            description: None,
            url: "#".to_string(),
            is_archived: false,
            star_count: None,
        },
        GarminResource {
            name: "Name B".to_string(),
            last_updated: Some(timestamp(t0)),
            description: None,
            url: "#".to_string(),
            is_archived: false,
            star_count: None,
        },
    ];

    sorted_resources(&mut r);

    let names = r.into_iter().map(|n| n.name).collect::<Vec<_>>();

    assert_eq!(
        names,
        vec![
            "Name B".to_string(),
            "Name C".to_string(),
            "Name A".to_string()
        ]
    );
}

#[test]
fn dated_resources_come_before_undated_ones() {
    let t = Timestamp { secs: 1_700_000_000, nanos: 0 };
    let mut r = vec![
        resource("zeta", None),
        resource("alpha", None),
        resource("old", Some(Timestamp { secs: 1_600_000_000, nanos: 0 })),
        resource("new", Some(t)),
    ];
    sorted_resources(&mut r);
    let names: Vec<String> = r.into_iter().map(|n| n.name).collect();
    assert_eq!(names, vec!["new", "old", "alpha", "zeta"]);
}

#[test]
fn nanoseconds_break_ties_of_seconds() {
    let mut r = vec![
        resource("a", Some(Timestamp { secs: 10, nanos: 1 })),
        resource("b", Some(Timestamp { secs: 10, nanos: 2 })),
    ];
    sorted_resources(&mut r);
    assert_eq!(r[0].name, "b");
    assert_eq!(r[1].name, "a");
}

#[test]
fn equal_keys_keep_their_order() {
    let mut first = resource("same", None);
    first.url = "first".to_string();
    let mut second = resource("same", None);
    second.url = "second".to_string();
    let mut r = vec![first, resource("aaa", None), second];
    sorted_resources(&mut r);
    let urls: Vec<String> = r.into_iter().map(|n| n.url).collect();
    assert_eq!(urls, vec!["#", "first", "second"]);
}

#[test]
fn names_compare_by_code_point() {
    let mut r = vec![resource("b", None), resource("B", None), resource("ab", None), resource("a", None)];
    sorted_resources(&mut r);
    let names: Vec<String> = r.into_iter().map(|n| n.name).collect();
    assert_eq!(names, vec!["B", "a", "ab", "b"]);
}

#[test]
fn date_order_keeps_order_of_equal_dates() {
    let t = Some(Timestamp { secs: 5, nanos: 0 });
    let mut r = vec![
        resource("undated b", None),
        resource("z", t),
        resource("undated a", None),
        resource("a", t),
        resource("newest", Some(Timestamp { secs: 6, nanos: 0 })),
    ];
    sorted_resources_by_date(&mut r);
    let names: Vec<String> = r.into_iter().map(|n| n.name).collect();
    assert_eq!(names, vec!["newest", "z", "a", "undated a", "undated b"]);
}

#[test]
fn sorting_twice_is_sorting_once() {
    let mut r = vec![
        resource("c", Some(Timestamp { secs: 1, nanos: 0 })),
        resource("a", None),
        resource("b", Some(Timestamp { secs: 2, nanos: 0 })),
    ];
    sorted_resources(&mut r);
    let once: Vec<String> = r.iter().map(|n| n.name.clone()).collect();
    sorted_resources(&mut r);
    let twice: Vec<String> = r.iter().map(|n| n.name.clone()).collect();
    assert_eq!(once, twice);
    assert_eq!(once, vec!["b", "c", "a"]);
}
