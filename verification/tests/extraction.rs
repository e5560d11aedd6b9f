use vouch_js::dependency::get_parsed_version;
use vouch_js::npm::get_dependencies;
use vouch_js::npm::get_registry_host_name;
use vouch_js::npm::parse_dependencies;
use vouch_js::Dependency;
use vouch_js::ErrorKind;
use vouch_js::ExtensionError;
use vouch_js::VersionError;

fn resolved(name: &str, version: &str) -> Dependency {
    Dependency { name: name.to_string(), version: Ok(version.to_string()) }
}

fn unresolved(name: &str) -> Dependency {
    Dependency { name: name.to_string(), version: Err(VersionError::MissingVersion) }
}

fn nest(depth: usize, innermost: &str) -> String {
    let mut text = innermost.to_string();
    for level in 0..depth {
        text = format!(
            "{{\"wrap{}\":{{\"version\":\"0.0.{}\",\"dependencies\":{}}}}}",
            level, level, text
        );
    }
    format!("{{\"dependencies\":{}}}", text)
}

#[test]
fn single_entry_gives_one_record() {
    let manifest = r#"{"dependencies":{"left-pad":{"version":"1.0.1","dev":false}}}"#;
    assert_eq!(get_dependencies(manifest, false), Ok(vec![resolved("left-pad", "1.0.1")]));
}

#[test]
fn parsed_document_gives_the_same_as_its_text() {
    let manifest = r#"{"dependencies":{"left-pad":{"version":"1.0.1","dev":false}}}"#;
    let document: serde_json::Value = serde_json::from_str(manifest).unwrap();
    assert_eq!(parse_dependencies(&document, false), Ok(vec![resolved("left-pad", "1.0.1")]));
    assert_eq!(parse_dependencies(&document, false), get_dependencies(manifest, false));
}

#[test]
fn extraction_twice_gives_identical_lists() {
    let manifest = r#"{"dependencies":{
        "b":{"version":"2.0.0","dependencies":{"c":{"version":"3.0.0"},"a":{"version":"1.0.0"}}},
        "a":{"version":"1.0.0","dev":true},
        "d":{}
    }}"#;
    let document: serde_json::Value = serde_json::from_str(manifest).unwrap();
    let first = parse_dependencies(&document, true).unwrap();
    let second = parse_dependencies(&document, true).unwrap();
    assert_eq!(first, second);
    assert_eq!(
        first,
        vec![resolved("a", "1.0.0"), resolved("b", "2.0.0"), resolved("c", "3.0.0"), unresolved("d")]
    );
}

#[test]
fn all_dev_entries_are_dropped_without_the_flag() {
    let manifest = r#"{"dependencies":{
        "a":{"version":"1.0.0","dev":true,"dependencies":{"b":{"version":"2.0.0","dev":true}}},
        "c":{"version":"3.0.0","dev":true}
    }}"#;
    assert_eq!(get_dependencies(manifest, false), Ok(vec![]));
}

#[test]
fn all_dev_entries_are_listed_with_the_flag() {
    let manifest = r#"{"dependencies":{
        "a":{"version":"1.0.0","dev":true,"dependencies":{"b":{"version":"2.0.0","dev":true}}},
        "c":{"version":"3.0.0","dev":true}
    }}"#;
    assert_eq!(
        get_dependencies(manifest, true),
        Ok(vec![resolved("a", "1.0.0"), resolved("b", "2.0.0"), resolved("c", "3.0.0")])
    );
}

#[test]
fn entries_under_a_dropped_dev_entry_are_still_read() {
    let manifest = r#"{"dependencies":{
        "tool":{"version":"1.0.0","dev":true,"dependencies":{"lib":{"version":"2.0.0"}}}
    }}"#;
    assert_eq!(get_dependencies(manifest, false), Ok(vec![resolved("lib", "2.0.0")]));
}

#[test]
fn dev_that_is_not_a_boolean_counts_as_false() {
    let manifest = r#"{"dependencies":{"a":{"version":"1.0.0","dev":"true"}}}"#;
    assert_eq!(get_dependencies(manifest, false), Ok(vec![resolved("a", "1.0.0")]));
}

#[test]
fn depth_does_not_change_the_record() {
    let entry = r#"{"deep":{"version":"9.9.9","dev":false}}"#;
    let shallow = get_dependencies(&nest(0, entry), false).unwrap();
    let deep = get_dependencies(&nest(4, entry), false).unwrap();
    assert_eq!(shallow, vec![resolved("deep", "9.9.9")]);
    assert_eq!(deep.len(), 5);
    assert!(deep.contains(&resolved("deep", "9.9.9")));
    assert_eq!(
        deep,
        vec![
            resolved("deep", "9.9.9"),
            resolved("wrap0", "0.0.0"),
            resolved("wrap1", "0.0.1"),
            resolved("wrap2", "0.0.2"),
            resolved("wrap3", "0.0.3"),
        ]
    );
}

#[test]
fn same_pair_at_two_places_gives_one_record() {
    let manifest = r#"{"dependencies":{
        "a":{"version":"1.0.0","dependencies":{"x":{"version":"5.0.0"}}},
        "b":{"version":"1.0.0","dependencies":{"x":{"version":"5.0.0"}}},
        "x":{"version":"5.0.0"}
    }}"#;
    assert_eq!(
        get_dependencies(manifest, false),
        Ok(vec![resolved("a", "1.0.0"), resolved("b", "1.0.0"), resolved("x", "5.0.0")])
    );
}

#[test]
fn same_name_with_two_versions_gives_two_records() {
    let manifest = r#"{"dependencies":{
        "a":{"version":"1.0.0","dependencies":{"x":{"version":"5.0.0"}}},
        "x":{"version":"4.0.0"}
    }}"#;
    assert_eq!(
        get_dependencies(manifest, false),
        Ok(vec![resolved("a", "1.0.0"), resolved("x", "4.0.0"), resolved("x", "5.0.0")])
    );
}

#[test]
fn absent_version_gives_the_missing_marker() {
    let manifest = r#"{"dependencies":{"local":{"dev":false}}}"#;
    assert_eq!(get_dependencies(manifest, false), Ok(vec![unresolved("local")]));
}

#[test]
fn empty_version_gives_the_missing_marker() {
    let manifest = r#"{"dependencies":{"local":{"version":""}}}"#;
    assert_eq!(get_dependencies(manifest, false), Ok(vec![unresolved("local")]));
}

#[test]
fn version_that_is_not_a_string_gives_the_missing_marker() {
    let manifest = r#"{"dependencies":{"a":{"version":3},"b":"1.0.0"}}"#;
    assert_eq!(get_dependencies(manifest, false), Ok(vec![unresolved("a"), unresolved("b")]));
}

#[test]
fn resolved_versions_come_before_the_missing_one() {
    let manifest = r#"{"dependencies":{
        "a":{"dependencies":{"a":{"version":"2.0.0"}}},
        "z":{"version":"1.0.0","dependencies":{"a":{"version":"10.0.0"}}}
    }}"#;
    assert_eq!(
        get_dependencies(manifest, false),
        Ok(vec![resolved("a", "10.0.0"), resolved("a", "2.0.0"), unresolved("a"), resolved("z", "1.0.0")])
    );
}

#[test]
fn names_are_ordered_by_their_bytes() {
    let manifest = r#"{"dependencies":{
        "b":{"version":"1"},"B":{"version":"1"},"a-b":{"version":"1"},"a":{"version":"1"},
        "é":{"version":"1"},"@scope/pkg":{"version":"1"}
    }}"#;
    let names: Vec<String> =
        get_dependencies(manifest, false).unwrap().into_iter().map(|d| d.name).collect();
    assert_eq!(names, vec!["@scope/pkg", "B", "a", "a-b", "b", "é"]);
    let mut by_std = names.clone();
    by_std.sort();
    assert_eq!(names, by_std);
}

#[test]
fn document_without_dependencies_gives_nothing() {
    assert_eq!(get_dependencies(r#"{"name":"x","lockfileVersion":1}"#, true), Ok(vec![]));
    assert_eq!(get_dependencies(r#"{"dependencies":[1,2]}"#, true), Ok(vec![]));
    assert_eq!(get_dependencies(r#"{"dependencies":{}}"#, true), Ok(vec![]));
}

#[test]
fn text_that_is_no_json_is_refused() {
    let result = get_dependencies("{\"dependencies\":", false);
    match result {
        Err(ExtensionError::MalformedJson { text, reason }) => {
            assert_eq!(text, "{\"dependencies\":");
            assert!(!reason.is_empty());
        }
        other => panic!("unexpected: {:?}", other),
    }
    assert_eq!(get_dependencies("", false).unwrap_err().kind(), ErrorKind::ParseFailure);
}

#[test]
fn document_that_is_no_object_is_refused() {
    assert_eq!(get_dependencies("[1,2,3]", false), Err(ExtensionError::NotAnObject));
    assert_eq!(get_dependencies("\"text\"", false), Err(ExtensionError::NotAnObject));
    let document: serde_json::Value = serde_json::from_str("null").unwrap();
    assert_eq!(parse_dependencies(&document, true), Err(ExtensionError::NotAnObject));
    assert_eq!(ExtensionError::NotAnObject.kind(), ErrorKind::ParseFailure);
}

#[test]
fn version_field_is_read() {
    assert_eq!(get_parsed_version(&Some("1.2.3")), Ok("1.2.3".to_string()));
    assert_eq!(get_parsed_version(&Some("")), Err(VersionError::MissingVersion));
    assert_eq!(get_parsed_version(&None), Err(VersionError::MissingVersion));
    assert_eq!(VersionError::from_missing_version(), VersionError::MissingVersion);
    assert_eq!(VersionError::MissingVersion.message(), "Missing version number");
}

#[test]
fn registry_host_is_npmjs() {
    assert_eq!(get_registry_host_name(), "npmjs.com");
}

#[test]
fn many_entries_come_out_sorted() {
    let mut members = Vec::new();
    for i in (0..200).rev() {
        members.push(format!("\"p{:03}\":{{\"version\":\"{}.0.0\"}}", (i * 37) % 200, i % 7));
    }
    let manifest = format!("{{\"dependencies\":{{{}}}}}", members.join(","));
    let list = get_dependencies(&manifest, false).unwrap();
    assert_eq!(list.len(), 200);
    for i in 1..list.len() {
        assert!(list[i - 1].name < list[i].name);
    }
}
