use jira_client::util::{get_string_in_json, JsonValue};
use jira_client::{
    api_base_url, basic_auth_value, next_page_start, Field, IssueEditRequest, IssueEditUpdate,
    IssueEditUpdateLabel, SearchIssue,
};

fn status_fixture() -> JsonValue {
    JsonValue::Object(vec![(
        "statusCategory".to_owned(),
        JsonValue::Object(vec![("name".to_owned(), JsonValue::Text("Done".to_owned()))]),
    )])
}

#[test]
fn get_string_in_json_follows_a_path() {
    let value = status_fixture();
    let path = vec!["statusCategory", "name"];
    assert_eq!(get_string_in_json(&value, &path), Some("Done".to_owned()));
}

#[test]
fn get_string_in_json_returns_none_for_empty_path() {
    let value = status_fixture();
    let path: Vec<&str> = vec![];
    assert_eq!(get_string_in_json(&value, &path), None);
}

#[test]
fn get_string_in_json_returns_none_when_last_key_is_not_a_string() {
    let value = status_fixture();
    assert_eq!(get_string_in_json(&value, &vec!["statusCategory"]), None);
    assert_eq!(get_string_in_json(&value, &vec!["statusCategory", "missing"]), None);
}

#[test]
fn get_string_in_json_returns_none_on_non_objects() {
    let text = JsonValue::Text("x".to_owned());
    assert_eq!(get_string_in_json(&text, &vec!["a"]), None);
    assert_eq!(get_string_in_json(&JsonValue::Other, &vec!["a"]), None);
}

#[test]
fn get_string_in_json_skips_keys_that_do_not_descend() {
    // An intermediate key that is unbound leaves the walk where it stands,
    // so the remaining keys still apply from the same value.
    let value = status_fixture();
    let path = vec!["unbound", "statusCategory", "name"];
    assert_eq!(get_string_in_json(&value, &path), Some("Done".to_owned()));
}

#[test]
fn json_get_finds_first_binding() {
    let value = JsonValue::Object(vec![
        ("a".to_owned(), JsonValue::Text("first".to_owned())),
        ("a".to_owned(), JsonValue::Text("second".to_owned())),
    ]);
    match value.get("a") {
        Some(JsonValue::Text(s)) => assert_eq!(s, "first"),
        _ => panic!("expected the first binding of the key"),
    }
    assert!(value.get("b").is_none());
    assert!(JsonValue::Other.get("a").is_none());
}

#[test]
fn status_category_reads_the_status_field() {
    let issue = SearchIssue {
        id: "10001".to_owned(),
        key: "SRE-1".to_owned(),
        fields: vec![("status".to_owned(), status_fixture())],
    };
    assert_eq!(issue.status_category(), Some("Done".to_owned()));
}

#[test]
fn status_category_is_none_without_a_status_field() {
    let issue = SearchIssue {
        id: "10002".to_owned(),
        key: "SRE-2".to_owned(),
        fields: vec![("summary".to_owned(), JsonValue::Text("a bug".to_owned()))],
    };
    assert_eq!(issue.status_category(), None);
}

#[test]
fn basic_auth_value_encodes_credentials() {
    assert_eq!(basic_auth_value("user", "token"), "Basic dXNlcjp0b2tlbg==");
}

#[test]
fn basic_auth_value_uses_url_safe_alphabet() {
    // These credentials hit a 6-bit group of 62, which the standard
    // alphabet writes as `+` and the URL-safe alphabet as `-`.
    assert_eq!(basic_auth_value("u", "~aa"), "Basic dTp-YWE=");
}

#[test]
fn api_base_url_appends_the_rest_prefix() {
    assert_eq!(
        api_base_url("https://example.atlassian.net"),
        "https://example.atlassian.net/rest/api/3"
    );
}

#[test]
fn next_page_start_stops_on_a_short_page() {
    assert_eq!(next_page_start(0, 100, 37), None);
    assert_eq!(next_page_start(200, 100, 0), None);
    assert_eq!(next_page_start(0, 100, 99), None);
}

#[test]
fn next_page_start_advances_past_a_full_page() {
    assert_eq!(next_page_start(0, 100, 100), Some(100));
    assert_eq!(next_page_start(100, 100, 100), Some(200));
}

#[test]
fn field_holds_id_and_name() {
    let field = Field { id: "customfield_10016".to_owned(), name: "Story Points".to_owned() };
    assert_eq!(field.id, "customfield_10016");
    assert_eq!(field.name, "Story Points");
}

#[test]
fn issue_edit_update_clones_preserve_labels_in_order() {
    let update = IssueEditUpdate {
        labels: vec![
            IssueEditUpdateLabel::Add("v2022.5.10".to_owned()),
            IssueEditUpdateLabel::Add("v2022.6.13".to_owned()),
        ],
    };
    let request = IssueEditRequest { update };
    let copy = request.clone();
    assert_eq!(copy.update.labels.len(), 2);
    match &copy.update.labels[0] {
        IssueEditUpdateLabel::Add(label) => assert_eq!(label, "v2022.5.10"),
    }
    match &copy.update.labels[1] {
        IssueEditUpdateLabel::Add(label) => assert_eq!(label, "v2022.6.13"),
    }
}
