use awesome_generator::compare::{CompareError, CompareState};

#[test]
fn new_urls_are_reported_by_type() {
    let mut s = CompareState::new(vec!["https://github.com/listed/repo".to_string()]);
    s.consider("https://github.com/listed/repo/tree/main".to_string(), "1".to_string()).unwrap();
    s.consider("https://github.com/new/face".to_string(), "1".to_string()).unwrap();
    s.consider("https://github.com/new/face".to_string(), "1".to_string()).unwrap();
    s.consider("https://gitlab.com/new/field/".to_string(), "4".to_string()).unwrap();
    s.consider("https://example.com/app".to_string(), "2".to_string()).unwrap();
    s.consider(String::new(), "9".to_string()).unwrap();
    assert_eq!(
        s.report(),
        "Found 2 URLs not in list\n\n[watch_faces]\n\"https://github.com/new/face\" = {}\n\n[data_fields]\n\"https://gitlab.com/new/field/\" = {}\n\n"
    );
}

#[test]
fn nothing_new_reports_zero() {
    let s = CompareState::new(vec![]);
    assert_eq!(s.report(), "Found 0 URLs not in list\n\n");
}

#[test]
fn unknown_type_stops_the_comparison() {
    let mut s = CompareState::new(vec![]);
    match s.consider("https://github.com/a/b".to_string(), "7".to_string()) {
        Err(CompareError::TypeId(e)) => assert_eq!(e.id, "7"),
        other => panic!("unexpected {:?}", other),
    }
}

#[test]
fn bad_url_stops_the_comparison() {
    let mut s = CompareState::new(vec![]);
    assert!(matches!(
        s.consider("https://github.com:99999/a".to_string(), "1".to_string()),
        Err(CompareError::Url(_))
    ));
}
