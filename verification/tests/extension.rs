use vouch_js::extension::includes_dev_flag;
use vouch_js::extension::remove_target;
use vouch_js::extension::resolve_package_dependencies;
use vouch_js::extension::same_version;
use vouch_js::extension::select_target_version;
use vouch_js::text::compare_bytes;
use vouch_js::text::compare_text;
use vouch_js::text::Comparison;
use vouch_js::AbsolutePath;
use vouch_js::Dependency;
use vouch_js::DependencyFile;
use vouch_js::DependencyFileType;
use vouch_js::ErrorKind;
use vouch_js::ExtensionError;
use vouch_js::FileDefinedDependencies;
use vouch_js::JsExtension;
use vouch_js::LoadedDependencyFile;
use vouch_js::PackageDependencies;
use vouch_js::VersionError;

fn resolved(name: &str, version: &str) -> Dependency {
    Dependency { name: name.to_string(), version: Ok(version.to_string()) }
}

fn unresolved(name: &str) -> Dependency {
    Dependency { name: name.to_string(), version: Err(VersionError::MissingVersion) }
}

fn loaded(names: &[&str], contents: &str) -> LoadedDependencyFile {
    LoadedDependencyFile {
        file: DependencyFile {
            file_type: DependencyFileType::Npm,
            path: AbsolutePath { components: names.iter().map(|n| n.to_string()).collect() },
        },
        contents: contents.to_string(),
    }
}

const IS_EVEN_LOCK: &str = r#"{
  "name": "tmp", "lockfileVersion": 1, "requires": true,
  "dependencies": {
    "is-buffer": {"version": "1.1.6"},
    "is-even": {"version": "1.0.0", "requires": {"is-odd": "^0.1.2"}},
    "is-number": {"version": "3.0.0", "requires": {"kind-of": "^3.0.2"}},
    "is-odd": {"version": "0.1.2", "requires": {"is-number": "^3.0.0"}},
    "kind-of": {"version": "3.2.2", "requires": {"is-buffer": "^1.1.5"}}
  }
}"#;

#[test]
fn extension_is_set_up_for_npm() {
    let extension = JsExtension::new();
    assert_eq!(extension.name(), "js");
    assert_eq!(extension.registries(), vec!["npmjs.com".to_string()]);
    assert_eq!(extension.root_url_, "https://www.npmjs.com");
    assert_eq!(
        extension.registry_human_url_template_,
        "https://www.npmjs.com/package/{{package_name}}/v/{{package_version}}"
    );
}

#[test]
fn lock_file_arguments_name_the_package() {
    assert_eq!(
        JsExtension::lock_file_arguments("is-even", &Some("1.0.0")),
        vec!["install", "is-even@1.0.0", "--package-lock-only"]
    );
    assert_eq!(
        JsExtension::lock_file_arguments("is-even", &None),
        vec!["install", "is-even", "--package-lock-only"]
    );
}

#[test]
fn package_is_left_out_of_its_own_dependencies() {
    let extension = JsExtension::new();
    let result = extension
        .identify_package_dependencies("is-even", &Some("1.0.0"), &vec![], IS_EVEN_LOCK)
        .unwrap();
    assert_eq!(
        result,
        vec![PackageDependencies {
            package_version: Ok("1.0.0".to_string()),
            registry_host_name: "npmjs.com".to_string(),
            dependencies: vec![
                resolved("is-buffer", "1.1.6"),
                resolved("is-number", "3.0.0"),
                resolved("is-odd", "0.1.2"),
                resolved("kind-of", "3.2.2"),
            ],
        }]
    );
}

#[test]
fn version_of_the_package_is_found_in_the_lock_file() {
    let extension = JsExtension::new();
    let result =
        extension.identify_package_dependencies("is-even", &None, &vec![], IS_EVEN_LOCK).unwrap();
    assert_eq!(result.len(), 1);
    assert_eq!(result[0].package_version, Ok("1.0.0".to_string()));
    assert!(result[0].dependencies.iter().all(|d| d.name != "is-even"));
    assert_eq!(result[0].dependencies.len(), 4);
}

#[test]
fn no_dependency_bears_the_name_of_the_package() {
    let lock = r#"{"dependencies":{
        "self":{"version":"1.0.0","dependencies":{"self":{"version":"0.9.0"},"other":{"version":"2.0.0"}}},
        "twin":{"version":"1.0.0"}
    }}"#;
    let extension = JsExtension::new();
    let result = extension.identify_package_dependencies("self", &None, &vec![], lock).unwrap();
    assert_eq!(
        result,
        vec![PackageDependencies {
            package_version: Ok("1.0.0".to_string()),
            registry_host_name: "npmjs.com".to_string(),
            dependencies: vec![resolved("other", "2.0.0")],
        }]
    );
}

#[test]
fn dev_dependencies_of_a_package_are_left_out() {
    let lock = r#"{"dependencies":{
        "pkg":{"version":"1.0.0"},
        "tool":{"version":"3.0.0","dev":true}
    }}"#;
    let extension = JsExtension::new();
    let result =
        extension.identify_package_dependencies("pkg", &None, &vec!["--dev".to_string()], lock).unwrap();
    assert_eq!(result[0].dependencies, vec![]);
}

#[test]
fn greatest_record_of_the_name_gives_the_version() {
    let list = vec![resolved("a", "1.0.0"), resolved("t", "1.2.0"), resolved("t", "1.10.0"), resolved("z", "9")];
    assert_eq!(select_target_version(&list, "t"), Ok(Ok("1.2.0".to_string())));
    let list = vec![resolved("t", "3.0.0"), unresolved("t"), resolved("t", "1.0.0")];
    assert_eq!(select_target_version(&list, "t"), Ok(Err(VersionError::MissingVersion)));
    let list = vec![resolved("t", "2.0.0"), resolved("t", "10.0.0"), resolved("t", "9.0.0")];
    assert_eq!(select_target_version(&list, "t"), Ok(Ok("9.0.0".to_string())));
}

#[test]
fn package_that_is_not_listed_has_no_version() {
    let list = vec![resolved("a", "1.0.0")];
    assert_eq!(select_target_version(&list, "t"), Err(ExtensionError::MissingTargetPackage));
    assert_eq!(select_target_version(&vec![], "t"), Err(ExtensionError::MissingTargetPackage));
    assert_eq!(
        resolve_package_dependencies(&list, "t", &None),
        Err(ExtensionError::MissingTargetPackage)
    );
    assert_eq!(ExtensionError::MissingTargetPackage.kind(), ErrorKind::NotFound);
    assert_eq!(
        ExtensionError::MissingTargetPackage.message(),
        "Failed to find target package in dependencies list."
    );
}

#[test]
fn records_of_the_target_and_of_its_version_are_removed() {
    let list = vec![resolved("a", "1.0.0"), resolved("b", "2.0.0"), resolved("t", "1.0.0"), resolved("t", "3.0.0")];
    assert_eq!(
        remove_target(&list, "t", &Ok("1.0.0".to_string())),
        vec![resolved("b", "2.0.0")]
    );
    let list = vec![resolved("a", "1.0.0"), unresolved("b"), unresolved("t")];
    assert_eq!(
        remove_target(&list, "t", &Err(VersionError::MissingVersion)),
        vec![resolved("a", "1.0.0")]
    );
}

#[test]
fn version_asked_for_is_taken_as_it_is() {
    let list = vec![resolved("a", "1.0.0"), resolved("t", "1.0.0")];
    assert_eq!(
        resolve_package_dependencies(&list, "t", &Some("5.0.0")),
        Ok(vec![PackageDependencies {
            package_version: Ok("5.0.0".to_string()),
            registry_host_name: "npmjs.com".to_string(),
            dependencies: vec![resolved("a", "1.0.0")],
        }])
    );
}

#[test]
fn lock_file_that_cannot_be_read_fails_the_package() {
    let extension = JsExtension::new();
    match extension.identify_package_dependencies("x", &None, &vec![], "{") {
        Err(ExtensionError::MalformedJson { text, .. }) => assert_eq!(text, "{"),
        other => panic!("unexpected: {:?}", other),
    }
    assert_eq!(
        extension.identify_package_dependencies("x", &Some("1"), &vec![], "[]"),
        Err(ExtensionError::NotAnObject)
    );
}

#[test]
fn no_dependency_files_give_an_empty_result() {
    let extension = JsExtension::new();
    assert_eq!(extension.identify_file_defined_dependencies(&None, &vec![]), Ok(vec![]));
    assert_eq!(extension.identify_file_defined_dependencies(&Some(vec![]), &vec![]), Ok(vec![]));
}

#[test]
fn each_dependency_file_gives_one_result() {
    let extension = JsExtension::new();
    let lock = r#"{"dependencies":{"a":{"version":"1.0.0"},"b":{"version":"2.0.0","dev":true}}}"#;
    let files = Some(vec![loaded(&["p", "package-lock.json"], lock)]);
    assert_eq!(
        extension.identify_file_defined_dependencies(&files, &vec![]),
        Ok(vec![FileDefinedDependencies {
            path: AbsolutePath { components: vec!["p".to_string(), "package-lock.json".to_string()] },
            registry_host_name: "npmjs.com".to_string(),
            dependencies: vec![resolved("a", "1.0.0")],
        }])
    );
    let with_dev = extension
        .identify_file_defined_dependencies(&files, &vec!["-v".to_string(), "--dev".to_string()])
        .unwrap();
    assert_eq!(with_dev[0].dependencies, vec![resolved("a", "1.0.0"), resolved("b", "2.0.0")]);
}

#[test]
fn first_unreadable_dependency_file_fails_the_whole() {
    let extension = JsExtension::new();
    let good = r#"{"dependencies":{"a":{"version":"1.0.0"}}}"#;
    let files = Some(vec![
        loaded(&["p", "package-lock.json"], good),
        loaded(&["q", "package-lock.json"], "[]"),
        loaded(&["r", "package-lock.json"], "{{"),
    ]);
    assert_eq!(
        extension.identify_file_defined_dependencies(&files, &vec![]),
        Err(ExtensionError::InvalidDependencyFile {
            path: AbsolutePath { components: vec!["q".to_string(), "package-lock.json".to_string()] },
        })
    );
}

#[test]
fn dependency_file_that_is_no_json_fails_with_its_path() {
    let extension = JsExtension::new();
    let files = Some(vec![loaded(&["work", "app", "package-lock.json"], "{\"dependencies\":")]);
    match extension.identify_file_defined_dependencies(&files, &vec![]) {
        Err(failure) => {
            assert_eq!(failure.kind(), ErrorKind::ParseFailure);
            assert!(failure.message().starts_with(
                "Failed to parse dependency file: /work/app/package-lock.json\n"
            ));
            match failure {
                ExtensionError::MalformedDependencyFile { path, text, reason } => {
                    assert_eq!(path.to_text(), "/work/app/package-lock.json");
                    assert_eq!(text, "{\"dependencies\":");
                    assert!(!reason.is_empty());
                }
                other => panic!("unexpected: {:?}", other),
            }
        }
        other => panic!("unexpected: {:?}", other),
    }
}

#[test]
fn failure_to_read_a_document_takes_the_path_of_its_file() {
    let path = AbsolutePath { components: vec!["a".to_string(), "package-lock.json".to_string()] };
    assert_eq!(
        ExtensionError::NotAnObject.in_dependency_file(&path),
        ExtensionError::InvalidDependencyFile { path: path.clone() }
    );
    assert_eq!(
        ExtensionError::MalformedJson { text: "x".to_string(), reason: "r".to_string() }
            .in_dependency_file(&path),
        ExtensionError::MalformedDependencyFile {
            path: path.clone(),
            text: "x".to_string(),
            reason: "r".to_string(),
        }
    );
    assert_eq!(
        ExtensionError::MissingVersion.in_dependency_file(&path),
        ExtensionError::MissingVersion
    );
    let invalid = ExtensionError::InvalidDependencyFile { path: path.clone() };
    assert_eq!(invalid.kind(), ErrorKind::ParseFailure);
    assert_eq!(invalid.message(), "Dependency file is not a JSON object: /a/package-lock.json");
}

#[test]
fn path_is_written_with_a_slash_before_each_name() {
    assert_eq!(AbsolutePath::root().to_text(), "/");
    assert_eq!(AbsolutePath { components: vec!["a".to_string()] }.to_text(), "/a");
    assert_eq!(
        AbsolutePath { components: vec!["a".to_string(), "b c".to_string(), "d.json".to_string()] }
            .to_text(),
        "/a/b c/d.json"
    );
}

#[test]
fn dev_flag_is_found_anywhere_in_the_arguments() {
    assert!(includes_dev_flag(&vec!["--dev".to_string()]));
    assert!(includes_dev_flag(&vec!["a".to_string(), "b".to_string(), "--dev".to_string()]));
    assert!(!includes_dev_flag(&vec![]));
    assert!(!includes_dev_flag(&vec!["--development".to_string(), "-dev".to_string(), "dev".to_string()]));
}

#[test]
fn versions_are_the_same_where_both_are_missing_or_equal() {
    assert!(same_version(&Ok("1".to_string()), &Ok("1".to_string())));
    assert!(!same_version(&Ok("1".to_string()), &Ok("2".to_string())));
    assert!(!same_version(&Ok("1".to_string()), &Err(VersionError::MissingVersion)));
    assert!(same_version(&Err(VersionError::MissingVersion), &Err(VersionError::MissingVersion)));
}

#[test]
fn text_is_compared_by_its_bytes() {
    assert_eq!(compare_text("a", "b"), Comparison::Less);
    assert_eq!(compare_text("b", "a"), Comparison::Greater);
    assert_eq!(compare_text("abc", "abc"), Comparison::Equal);
    assert_eq!(compare_text("", ""), Comparison::Equal);
    assert_eq!(compare_text("", "a"), Comparison::Less);
    assert_eq!(compare_text("ab", "abc"), Comparison::Less);
    assert_eq!(compare_text("abd", "abc"), Comparison::Greater);
    assert_eq!(compare_text("Z", "a"), Comparison::Less);
    assert_eq!(compare_text("z", "é"), Comparison::Less);
    assert_eq!(compare_text("10", "9"), Comparison::Less);
    assert_eq!(compare_bytes(&[1, 2, 3], &[1, 2, 250]), Comparison::Less);
    assert_eq!(compare_bytes(&[200], &[100, 1]), Comparison::Greater);
}

#[test]
fn dependencies_are_compared_by_name_then_version() {
    assert_eq!(resolved("a", "2").compare(&resolved("b", "1")), Comparison::Less);
    assert_eq!(resolved("a", "1").compare(&resolved("a", "2")), Comparison::Less);
    assert_eq!(resolved("a", "2").compare(&unresolved("a")), Comparison::Less);
    assert_eq!(unresolved("a").compare(&resolved("a", "2")), Comparison::Greater);
    assert_eq!(unresolved("a").compare(&unresolved("a")), Comparison::Equal);
    assert_eq!(resolved("a", "1").compare(&resolved("a", "1")), Comparison::Equal);
    assert_eq!(resolved("a", "1").clone(), resolved("a", "1"));
}

#[test]
fn derived_order_agrees_with_compare() {
    let list = vec![
        resolved("a", "1"),
        resolved("a", "10"),
        resolved("a", "9"),
        unresolved("a"),
        resolved("a-b", "1"),
        resolved("b", ""),
        resolved("é", "1"),
    ];
    for (i, x) in list.iter().enumerate() {
        for (j, y) in list.iter().enumerate() {
            let expected = match x.cmp(y) {
                std::cmp::Ordering::Less => Comparison::Less,
                std::cmp::Ordering::Equal => Comparison::Equal,
                std::cmp::Ordering::Greater => Comparison::Greater,
            };
            assert_eq!(x.compare(y), expected);
            assert_eq!(i.cmp(&j) == std::cmp::Ordering::Less, x.compare(y) == Comparison::Less);
        }
    }
}

#[test]
fn failures_tell_their_class_and_message() {
    let malformed = ExtensionError::MalformedJson { text: "{".to_string(), reason: "EOF".to_string() };
    assert_eq!(malformed.kind(), ErrorKind::ParseFailure);
    assert_eq!(malformed.message(), "JSON was not well-formatted:\n{\nEOF");
    let relative = ExtensionError::RelativePath { path: "a/b".to_string() };
    assert_eq!(relative.kind(), ErrorKind::InvalidInput);
    assert_eq!(relative.message(), "Path is not absolute: a/b");
    let process = ExtensionError::Process { reason: "exit 1".to_string() };
    assert_eq!(process.kind(), ErrorKind::ProcessFailure);
    let transport = ExtensionError::Transport { reason: "timeout".to_string() };
    assert_eq!(transport.kind(), ErrorKind::TransportFailure);
    let url = ExtensionError::InvalidUrl { text: "x".to_string(), reason: "r".to_string() };
    assert_eq!(url.kind(), ErrorKind::UrlFailure);
    assert_eq!(url.message(), "Failed to parse URL: x\nr");
    assert_eq!(ExtensionError::MissingRegistry.kind(), ErrorKind::NotFound);
    assert_eq!(
        ExtensionError::MissingRegistry.message(),
        "Code error: vector of registry host names is empty."
    );
    assert_eq!(ExtensionError::MissingVersions.message(), "Failed to find versions JSON section.");
    assert_eq!(ExtensionError::MissingArchiveUrl.message(), "Failed to parse package archive URL.");
}
