use vouch_js::registry::fill_template;
use vouch_js::registry::get_archive_url;
use vouch_js::registry::get_latest_version;
use vouch_js::registry::get_registry_entry_json;
use vouch_js::registry::get_registry_entry_url;
use vouch_js::registry::get_registry_human_url;
use vouch_js::registry::is_plain_text;
use vouch_js::registry::url_from_text;
use vouch_js::ErrorKind;
use vouch_js::ExtensionError;
use vouch_js::JsExtension;
use vouch_js::RegistryPackageMetadata;

const TWO_VERSIONS: &str = r#"{"versions":{"1.0.0":{"dist":{"tarball":"https://x/1.0.0.tgz"}}, "1.1.0":{"dist":{"tarball":"https://x/1.1.0.tgz"}}}}"#;

#[test]
fn latest_version_is_the_last_key() {
    let document = get_registry_entry_json(TWO_VERSIONS).unwrap();
    assert_eq!(get_latest_version(&document), Ok(Some("1.1.0".to_string())));
    assert_eq!(get_archive_url(&document, "1.1.0"), Ok("https://x/1.1.0.tgz".to_string()));
}

#[test]
fn latest_version_follows_the_order_of_the_document() {
    let body = r#"{"versions":{"1.9.0":{},"1.10.0":{}}}"#;
    let document = get_registry_entry_json(body).unwrap();
    assert_eq!(get_latest_version(&document), Ok(Some("1.10.0".to_string())));
    let body = r#"{"versions":{"2.0.0":{},"1.0.0":{}}}"#;
    let document = get_registry_entry_json(body).unwrap();
    assert_eq!(get_latest_version(&document), Ok(Some("1.0.0".to_string())));
}

#[test]
fn document_without_versions_is_refused() {
    let document = get_registry_entry_json(r#"{"name":"x"}"#).unwrap();
    assert_eq!(get_latest_version(&document), Err(ExtensionError::MissingVersions));
    let document = get_registry_entry_json(r#"{"versions":["1.0.0"]}"#).unwrap();
    assert_eq!(get_latest_version(&document), Err(ExtensionError::MissingVersions));
    assert_eq!(ExtensionError::MissingVersions.kind(), ErrorKind::NotFound);
}

#[test]
fn document_with_no_version_has_no_latest() {
    let document = get_registry_entry_json(r#"{"versions":{}}"#).unwrap();
    assert_eq!(get_latest_version(&document), Ok(None));
}

#[test]
fn archive_url_is_read_from_the_tarball_field() {
    let document = get_registry_entry_json(TWO_VERSIONS).unwrap();
    assert_eq!(get_archive_url(&document, "1.0.0"), Ok("https://x/1.0.0.tgz".to_string()));
}

#[test]
fn archive_url_is_missing_for_an_unknown_version() {
    let document = get_registry_entry_json(TWO_VERSIONS).unwrap();
    assert_eq!(get_archive_url(&document, "2.0.0"), Err(ExtensionError::MissingArchiveUrl));
    let document = get_registry_entry_json(r#"{"versions":{"1.0.0":{"dist":{"tarball":7}}}}"#).unwrap();
    assert_eq!(get_archive_url(&document, "1.0.0"), Err(ExtensionError::MissingArchiveUrl));
    assert_eq!(ExtensionError::MissingArchiveUrl.kind(), ErrorKind::NotFound);
}

#[test]
fn archive_text_that_is_no_url_is_refused() {
    let document =
        get_registry_entry_json(r#"{"versions":{"1.0.0":{"dist":{"tarball":"not a url"}}}}"#).unwrap();
    match get_archive_url(&document, "1.0.0") {
        Err(ExtensionError::InvalidUrl { text, reason }) => {
            assert_eq!(text, "not a url");
            assert!(!reason.is_empty());
        }
        other => panic!("unexpected: {:?}", other),
    }
}

#[test]
fn url_is_written_in_its_normal_form() {
    assert_eq!(url_from_text("https://www.npmjs.com"), Ok("https://www.npmjs.com/".to_string()));
    assert_eq!(url_from_text("HTTPS://Example.COM/a/../b"), Ok("https://example.com/b".to_string()));
    assert_eq!(url_from_text("/relative/path").unwrap_err().kind(), ErrorKind::UrlFailure);
}

#[test]
fn human_url_names_package_and_version() {
    let extension = JsExtension::new();
    assert_eq!(
        get_registry_human_url(&extension, "d3", "6.5.0"),
        Ok("https://www.npmjs.com/package/d3/v/6.5.0".to_string())
    );
    assert_eq!(
        get_registry_human_url(&extension, "@babel/core", "7.0.0"),
        Ok("https://www.npmjs.com/package/@babel/core/v/7.0.0".to_string())
    );
}

#[test]
fn human_url_is_refused_for_a_template_that_is_not_plain() {
    let mut extension = JsExtension::new();
    extension.registry_human_url_template_ =
        "https://x/{{#*inline \"a\"}}{{> a}}{{/inline}}{{> a}}".to_string();
    match get_registry_human_url(&extension, "d3", "6.5.0") {
        Err(ExtensionError::Template { .. }) => {}
        other => panic!("unexpected: {:?}", other),
    }
    match extension.registries_package_metadata("d3", &Some("1.0.0"), TWO_VERSIONS) {
        Err(ExtensionError::Template { .. }) => {}
        other => panic!("unexpected: {:?}", other),
    }
}

#[test]
fn registry_entry_url_names_the_package() {
    assert_eq!(get_registry_entry_url("left-pad"), Ok("https://registry.npmjs.com/left-pad".to_string()));
}

#[test]
fn template_is_filled_with_its_fields() {
    let fields = vec![("a", "1"), ("b", "2")];
    assert_eq!(fill_template("{{a}}-{{b}}-{{c}}", &fields), Ok("1-2-".to_string()));
    assert_eq!(fill_template("plain", &vec![]), Ok("plain".to_string()));
}

#[test]
fn plain_templates_are_told_from_others() {
    assert!(is_plain_text(""));
    assert!(is_plain_text("no fields at all"));
    assert!(is_plain_text("{{a}}"));
    assert!(is_plain_text("https://registry.npmjs.com/{{package_name}}"));
    assert!(is_plain_text("https://www.npmjs.com/package/{{package_name}}/v/{{package_version}}"));
    assert!(is_plain_text("{{a}}{{B_2}}é{{c}}}"));
    assert!(is_plain_text("a { b } c }} d"));
    assert!(!is_plain_text("{{#if a}}x{{/if}}"));
    assert!(!is_plain_text("{{> partial}}"));
    assert!(!is_plain_text("{{#*inline \"a\"}}{{> a}}{{/inline}}{{> a}}"));
    assert!(!is_plain_text("{{*decorator}}"));
    assert!(!is_plain_text("{{!comment}}"));
    assert!(!is_plain_text("{{{raw}}}"));
    assert!(!is_plain_text("{{(helper a)}}"));
    assert!(!is_plain_text("{{helper a}}"));
    assert!(!is_plain_text("{{a.b}}"));
    assert!(!is_plain_text("{{ a }}"));
    assert!(!is_plain_text("{{}}"));
    assert!(!is_plain_text("{{a}"));
    assert!(!is_plain_text("{{a"));
    assert!(!is_plain_text("{{"));
    assert!(!is_plain_text("x{{{a}}"));
}

#[test]
fn template_that_is_not_plain_is_refused() {
    let fields = vec![("a", "1")];
    for template in
        ["{{#if a}}yes{{/if}}", "{{#*inline \"a\"}}{{> a}}{{/inline}}{{> a}}", "{{> a}}", "{{{a}}}"]
    {
        match fill_template(template, &fields) {
            Err(ExtensionError::Template { reason }) => assert!(!reason.is_empty()),
            other => panic!("unexpected: {:?}", other),
        }
    }
}

#[test]
fn field_values_are_data_and_not_template_text() {
    let fields = vec![("a", "{{> a}}"), ("b", "{{#if x}}")];
    assert_eq!(fill_template("{{a}}/{{b}}", &fields), Ok("{{&gt; a}}/{{#if x}}".to_string()));
}

#[test]
fn text_beside_the_fields_stands_for_itself() {
    let fields = vec![("a", "1")];
    assert_eq!(fill_template("x { y } z {{a}} }}", &fields), Ok("x { y } z 1 }}".to_string()));
}

#[test]
fn template_that_does_not_parse_is_refused() {
    let fields = vec![("a", "1")];
    let result = fill_template("{{#if a}}unclosed", &fields);
    match result {
        Err(ExtensionError::Template { reason }) => assert!(!reason.is_empty()),
        other => panic!("unexpected: {:?}", other),
    }
    let result = fill_template("before {{else}} after", &fields);
    match result {
        Err(ExtensionError::Template { reason }) => assert!(!reason.is_empty()),
        other => panic!("unexpected: {:?}", other),
    }
    assert_eq!(
        ExtensionError::Template { reason: String::new() }.kind(),
        ErrorKind::UrlFailure
    );
}

#[test]
fn registry_answer_that_is_no_json_is_refused() {
    match get_registry_entry_json("<html>not found</html>") {
        Err(ExtensionError::MalformedJson { text, .. }) => assert_eq!(text, "<html>not found</html>"),
        other => panic!("unexpected: {:?}", other),
    }
}

#[test]
fn metadata_without_a_version_takes_the_latest() {
    let extension = JsExtension::new();
    assert_eq!(
        extension.registries_package_metadata("left-pad", &None, TWO_VERSIONS),
        Ok(vec![RegistryPackageMetadata {
            registry_host_name: "npmjs.com".to_string(),
            human_url: "https://www.npmjs.com/package/left-pad/v/1.1.0".to_string(),
            artifact_url: "https://x/1.1.0.tgz".to_string(),
            is_primary: true,
            package_version: "1.1.0".to_string(),
        }])
    );
}

#[test]
fn metadata_with_a_version_takes_it_as_it_is() {
    let extension = JsExtension::new();
    assert_eq!(
        extension.registries_package_metadata("left-pad", &Some("1.0.0"), TWO_VERSIONS),
        Ok(vec![RegistryPackageMetadata {
            registry_host_name: "npmjs.com".to_string(),
            human_url: "https://www.npmjs.com/package/left-pad/v/1.0.0".to_string(),
            artifact_url: "https://x/1.0.0.tgz".to_string(),
            is_primary: true,
            package_version: "1.0.0".to_string(),
        }])
    );
}

#[test]
fn metadata_fails_where_no_version_can_be_found() {
    let extension = JsExtension::new();
    assert_eq!(
        extension.registries_package_metadata("x", &None, r#"{"versions":{}}"#),
        Err(ExtensionError::MissingVersion)
    );
    assert_eq!(
        extension.registries_package_metadata("x", &None, r#"{}"#),
        Err(ExtensionError::MissingVersions)
    );
    assert_eq!(
        extension.registries_package_metadata("x", &Some("3.0.0"), TWO_VERSIONS),
        Err(ExtensionError::MissingArchiveUrl)
    );
    assert_eq!(ExtensionError::MissingVersion.kind(), ErrorKind::NotFound);
    assert_eq!(ExtensionError::MissingVersion.message(), "Failed to find package version.");
}

#[test]
fn metadata_fails_on_an_answer_that_is_no_json() {
    let extension = JsExtension::new();
    for requested in [None, Some("1.0.0")] {
        match extension.registries_package_metadata("x", &requested, "oops") {
            Err(ExtensionError::MalformedJson { text, .. }) => assert_eq!(text, "oops"),
            other => panic!("unexpected: {:?}", other),
        }
    }
}

#[test]
fn metadata_fails_without_a_registry() {
    let mut extension = JsExtension::new();
    extension.registry_host_names_.clear();
    assert_eq!(
        extension.registries_package_metadata("x", &Some("1.0.0"), TWO_VERSIONS),
        Err(ExtensionError::MissingRegistry)
    );
}

#[test]
fn resolve_version_prefers_the_one_asked_for() {
    assert_eq!(JsExtension::resolve_version(&Some("0.0.1"), "not json"), Ok("0.0.1".to_string()));
    assert_eq!(JsExtension::resolve_version(&None, TWO_VERSIONS), Ok("1.1.0".to_string()));
}
