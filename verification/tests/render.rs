use awesome_generator::render::{resource_count, resource_list, resources_to_str, shows_description, ResourceRow};

fn row(name: Option<&str>) -> ResourceRow {
    ResourceRow {
        name: name.map(|n| n.to_string()),
        url: None,
        description: None,
        star_count: None,
        last_updated: None,
        is_archived: None,
    }
}

const HEADER: &str = "| Name | Description | Last&nbsp;updated | Stars |\n| ---- | ----------- | ----------------- | ----- |\n";
const SHORT_HEADER: &str = "| Name | Last&nbsp;updated | Stars |\n| ---- | ----------------- | ----- |\n";

#[test]
fn full_row_with_description() {
    let rows = vec![ResourceRow {
        name: Some("ActiveFace".to_string()),
        url: Some("https://github.com/test/active-face".to_string()),
        description: Some("An active | face".to_string()),
        star_count: Some(42),
        last_updated: Some("2025&#x2011;01&#x2011;01".to_string()),
        is_archived: Some(false),
    }];
    let out = resources_to_str(&Some(rows), true);
    assert_eq!(
        out,
        format!(
            "{HEADER}| [ActiveFace](https://github.com/test/active-face) | An active - face | 2025&#x2011;01&#x2011;01&nbsp; | ⭐42 |\n"
        )
    );
}

#[test]
fn archived_row_gets_the_archive_mark() {
    let mut r = row(Some("OldFace"));
    r.url = Some("https://github.com/test/old-face".to_string());
    r.last_updated = Some("2020&#x2011;01&#x2011;01".to_string());
    r.is_archived = Some(true);
    r.star_count = Some(5);
    let out = resources_to_str(&Some(vec![r]), false);
    assert_eq!(
        out,
        format!("{SHORT_HEADER}| [OldFace](https://github.com/test/old-face) | 2020&#x2011;01&#x2011;01&nbsp;🗄️ | ⭐5 |\n")
    );
}

#[test]
fn missing_values_render_as_placeholders() {
    let mut r = row(Some("Old"));
    r.star_count = Some(0);
    let out = resources_to_str(&Some(vec![r, row(None)]), true);
    assert_eq!(out, format!("{HEADER}| [Old](#) | | {{is_archived}} | |\n"));
}

#[test]
fn a_value_that_is_no_list_gives_nothing() {
    assert_eq!(resources_to_str(&None, true), "");
}

#[test]
fn inactive_resources_are_folded() {
    let active = Some(vec![row(Some("A"))]);
    let inactive = Some(vec![row(Some("B"))]);
    let out = resource_list(&active, &inactive, false);
    assert_eq!(
        out,
        format!(
            "{SHORT_HEADER}| [A](#) | {{is_archived}} |\n\n### Older resources\n\n<details>\n  <summary>Click to expand</summary>\n\n{SHORT_HEADER}| [B](#) | {{is_archived}} |\n\n\n</details>"
        )
    );
}

#[test]
fn no_inactive_list_means_no_folded_section() {
    let active = Some(vec![row(Some("A"))]);
    let out = resource_list(&active, &None, false);
    assert_eq!(out, format!("{SHORT_HEADER}| [A](#) | {{is_archived}} |\n"));
}

#[test]
fn descriptions_are_shown_unless_turned_off() {
    assert!(shows_description(None));
    assert!(shows_description(Some(None)));
    assert!(shows_description(Some(Some(true))));
    assert!(!shows_description(Some(Some(false))));
}

#[test]
fn count_adds_both_lists() {
    assert_eq!(resource_count(Some(3), Some(4)), "7");
    assert_eq!(resource_count(None, Some(12)), "12");
    assert_eq!(resource_count(None, None), "0");
}
