//! The extension for JavaScript packages: what it is called, which
//! registries it knows, and its three operations, each on what was read
//! from the file system, the package manager or the registry.

use vstd::prelude::*;
use vstd::string::StringExecFns;
use crate::dependency::Dependency;
use crate::dependency::DependencyRecord;
use crate::dependency::VersionParseResult;
use crate::dependency::compare_versions;
use crate::dependency::copy_version;
use crate::dependency::lemma_version_lt_irreflexive;
use crate::dependency::lemma_version_lt_total;
use crate::dependency::lemma_version_lt_transitive;
use crate::dependency::record_lt;
use crate::dependency::records;
use crate::dependency::strictly_ascending;
use crate::dependency::version_lt;
use crate::dependency::version_view;
use crate::error::Cause;
use crate::error::ExtensionError;
use crate::json::parsed_json;
use crate::locate::AbsolutePath;
use crate::locate::DependencyFile;
use crate::locate::DependencyFileType;
use crate::locate::names;
use crate::npm::get_dependencies;
use crate::npm::get_registry_host_name;
use crate::npm::is_extraction;
use crate::npm::registry_host_name;
use crate::registry::archive_text;
use crate::registry::get_archive_url;
use crate::registry::get_latest_version;
use crate::registry::get_registry_entry_json;
use crate::registry::get_registry_human_url;
use crate::registry::latest_of;
use crate::registry::listed_versions;
use crate::registry::parsed_url;
use crate::registry::filled_template;
use crate::registry::is_plain_template;
use crate::registry::lemma_registry_human_url_template_is_plain;
use crate::registry::registry_human_url_template;
use crate::registry::version_fields;
use crate::text::Comparison;

verus! {

/// The extension for JavaScript packages.
#[derive(Clone, Debug)]
pub struct JsExtension {
    pub name_: String,
    pub registry_host_names_: Vec<String>,
    pub root_url_: String,
    pub registry_human_url_template_: String,
}

/// The dependencies of a package, as one registry knows them.
#[derive(Debug, PartialEq, Eq)]
pub struct PackageDependencies {
    pub package_version: VersionParseResult,
    pub registry_host_name: String,
    pub dependencies: Vec<Dependency>,
}

/// The dependencies that one file defines.
#[derive(Debug, PartialEq, Eq)]
pub struct FileDefinedDependencies {
    pub path: AbsolutePath,
    pub registry_host_name: String,
    pub dependencies: Vec<Dependency>,
}

/// What a registry knows of a version of a package.
#[derive(Debug, PartialEq, Eq)]
pub struct RegistryPackageMetadata {
    pub registry_host_name: String,
    pub human_url: String,
    pub artifact_url: String,
    /// This registry is the one that has the say on the package.
    pub is_primary: bool,
    /// The version that was asked for, or the one that was found.
    pub package_version: String,
}

/// What a `RegistryPackageMetadata` stands for.
pub struct RegistryPackageMetadataModel {
    pub registry_host_name: Seq<char>,
    pub human_url: Seq<char>,
    pub artifact_url: Seq<char>,
    pub is_primary: bool,
    pub package_version: Seq<char>,
}

impl View for RegistryPackageMetadata {
    type V = RegistryPackageMetadataModel;

    open spec fn view(&self) -> RegistryPackageMetadataModel {
        RegistryPackageMetadataModel {
            registry_host_name: self.registry_host_name@,
            human_url: self.human_url@,
            artifact_url: self.artifact_url@,
            is_primary: self.is_primary,
            package_version: self.package_version@,
        }
    }
}

/// A dependency file together with the text that was read from it.
#[derive(Debug, PartialEq, Eq)]
pub struct LoadedDependencyFile {
    pub file: DependencyFile,
    pub contents: String,
}

/// The text that an optional string slice stands for.
pub open spec fn requested_text(text: Option<&str>) -> Option<Seq<char>> {
    match text {
        Some(t) => Some(t@),
        None => None,
    }
}

/// How a package is named to the package manager: by its name, and with a
/// version as the name, `@` and the version.
pub open spec fn package_argument(package_name: Seq<char>, package_version: Option<Seq<char>>) -> Seq<
    char,
> {
    match package_version {
        Some(version) => package_name + "@"@ + version,
        None => package_name,
    }
}

/// The arguments with which the package manager writes the lock file of a
/// package without installing it.
pub open spec fn lock_arguments(package_name: Seq<char>, package_version: Option<Seq<char>>) -> Seq<
    Seq<char>,
> {
    seq!["install"@, package_argument(package_name, package_version), "--package-lock-only"@]
}

/// The arguments ask for development dependencies: `--dev` stands among
/// them.
pub open spec fn asks_for_dev(extension_args: Seq<String>) -> bool {
    exists|i: int| 0 <= i < extension_args.len() && (#[trigger] extension_args[i])@ == "--dev"@
}

/// Some record of the set bears the name.
pub open spec fn is_named(listed: Set<DependencyRecord>, name: Seq<char>) -> bool {
    exists|record: DependencyRecord| #[trigger] listed.contains(record) && record.name == name
}

/// The version is that of the greatest record of the set that bears the
/// name.
pub open spec fn is_target_version(
    listed: Set<DependencyRecord>,
    name: Seq<char>,
    version: Option<Seq<char>>,
) -> bool {
    &&& listed.contains(DependencyRecord { name, version })
    &&& forall|record: DependencyRecord|
        #[trigger] listed.contains(record) && record.name == name ==> record.version == version
            || version_lt(record.version, version)
}

/// The record is neither the target package nor of the target's version.
pub open spec fn is_kept(record: DependencyRecord, name: Seq<char>, version: Option<Seq<char>>) -> bool {
    record.name != name && record.version != version
}

/// The list without the target package: without the records that bear its
/// name, and without those of its version.
pub open spec fn excluding_target(
    list: Seq<DependencyRecord>,
    name: Seq<char>,
    version: Option<Seq<char>>,
) -> Seq<DependencyRecord>
    decreases list.len(),
{
    if list.len() == 0 {
        Seq::empty()
    } else {
        let before = excluding_target(list.drop_last(), name, version);
        if is_kept(list.last(), name, version) {
            before.push(list.last())
        } else {
            before
        }
    }
}

/// The result describes a package of the resolved version whose
/// dependencies are the list without the package itself.
pub open spec fn describes_package(
    sets: Seq<PackageDependencies>,
    list: Seq<DependencyRecord>,
    name: Seq<char>,
    version: Option<Seq<char>>,
) -> bool {
    &&& sets.len() == 1
    &&& version_view(sets[0].package_version) == version
    &&& sets[0].registry_host_name@ == registry_host_name()
    &&& records(sets[0].dependencies@) == excluding_target(list, name, version)
}

/// What is owed for a package whose lock file lists the records given: with
/// a version asked for, the package at that version; without one, the
/// package at the version of the greatest record that bears its name, and a
/// failure where no record does.
pub open spec fn package_outcome(
    list: Seq<DependencyRecord>,
    name: Seq<char>,
    requested: Option<Seq<char>>,
    r: Result<Vec<PackageDependencies>, ExtensionError>,
) -> bool {
    match requested {
        Some(version) => r matches Ok(sets) && describes_package(sets@, list, name, Some(version)),
        None => if is_named(list.to_set(), name) {
            r matches Ok(sets) && sets@.len() == 1 && is_target_version(
                list.to_set(),
                name,
                version_view(sets@[0].package_version),
            ) && describes_package(sets@, list, name, version_view(sets@[0].package_version))
        } else {
            r matches Err(e) && e@ == Cause::MissingTargetPackage
        },
    }
}

/// The records of a set settle the version of the target package: no two
/// versions are both that of the greatest record that bears the name.
pub proof fn lemma_target_version_is_unique(
    listed: Set<DependencyRecord>,
    name: Seq<char>,
    first: Option<Seq<char>>,
    second: Option<Seq<char>>,
)
    requires
        is_target_version(listed, name, first),
        is_target_version(listed, name, second),
    ensures
        first == second,
{
    let a = DependencyRecord { name, version: first };
    let b = DependencyRecord { name, version: second };
    assert(listed.contains(a) && listed.contains(b));
    if first != second {
        lemma_version_lt_transitive(first, second, first);
        lemma_version_lt_irreflexive(first);
    }
}

/// A record is left in a list without the target package where it stood
/// in the list and is kept.
pub proof fn lemma_excluding_target_contains(
    list: Seq<DependencyRecord>,
    name: Seq<char>,
    version: Option<Seq<char>>,
    record: DependencyRecord,
)
    ensures
        excluding_target(list, name, version).contains(record) <==> list.contains(record)
            && is_kept(record, name, version),
    decreases list.len(),
{
    let kept = excluding_target(list, name, version);
    if list.len() > 0 {
        let shorter = list.drop_last();
        let before = excluding_target(shorter, name, version);
        lemma_excluding_target_contains(shorter, name, version, record);
        if kept.contains(record) {
            let i = choose|i: int| 0 <= i < kept.len() && kept[i] == record;
            if i < before.len() {
                assert(before[i] == record);
                assert(before.contains(record));
                let j = choose|j: int| 0 <= j < shorter.len() && shorter[j] == record;
                assert(list[j] == record);
            } else {
                assert(list[list.len() - 1] == record);
            }
        }
        if list.contains(record) && is_kept(record, name, version) {
            let j = choose|j: int| 0 <= j < list.len() && list[j] == record;
            if j < shorter.len() {
                assert(shorter[j] == record);
                assert(shorter.contains(record));
                let i = choose|i: int| 0 <= i < before.len() && before[i] == record;
                assert(kept[i] == record);
            } else {
                assert(kept[kept.len() - 1] == record);
            }
        }
    }
}

/// What is left of a list without the target package: none of the records
/// bears the target's name or its version, and their order is kept.
pub proof fn lemma_excluding_target(
    list: Seq<DependencyRecord>,
    name: Seq<char>,
    version: Option<Seq<char>>,
)
    ensures
        forall|i: int|
            0 <= i < excluding_target(list, name, version).len() ==> is_kept(
                #[trigger] excluding_target(list, name, version)[i],
                name,
                version,
            ),
        strictly_ascending(list) ==> strictly_ascending(excluding_target(list, name, version)),
    decreases list.len(),
{
    let kept = excluding_target(list, name, version);
    if list.len() > 0 {
        let shorter = list.drop_last();
        let before = excluding_target(shorter, name, version);
        lemma_excluding_target(shorter, name, version);
        assert forall|i: int| 0 <= i < kept.len() implies is_kept(#[trigger] kept[i], name, version) by {
            if i < before.len() {
                assert(kept[i] == before[i]);
            }
        }
        if strictly_ascending(list) {
            assert(strictly_ascending(shorter)) by {
                assert forall|i: int, j: int| 0 <= i < j < shorter.len() implies record_lt(
                    #[trigger] shorter[i],
                    #[trigger] shorter[j],
                ) by {
                    assert(record_lt(list[i], list[j]));
                }
            }
            assert forall|i: int, j: int| 0 <= i < j < kept.len() implies record_lt(
                #[trigger] kept[i],
                #[trigger] kept[j],
            ) by {
                if j < before.len() {
                    assert(record_lt(before[i], before[j]));
                } else {
                    assert(before[i] == kept[i]);
                    assert(before.contains(kept[i]));
                    lemma_excluding_target_contains(shorter, name, version, kept[i]);
                    let k = choose|k: int| 0 <= k < shorter.len() && shorter[k] == kept[i];
                    assert(record_lt(list[k], list[list.len() - 1]));
                }
            }
        }
    }
}

/// The two versions are the same.
pub fn same_version(a: &VersionParseResult, b: &VersionParseResult) -> (r: bool)
    ensures
        r == (version_view(*a) == version_view(*b)),
{
    match a {
        Ok(x) => match b {
            Ok(y) => *x == *y,
            Err(_) => false,
        },
        Err(_) => match b {
            Ok(_) => false,
            Err(_) => true,
        },
    }
}

/// Whether the arguments ask for development dependencies: `--dev` stands
/// among them.
pub fn includes_dev_flag(extension_args: &Vec<String>) -> (r: bool)
    ensures
        r == asks_for_dev(extension_args@),
{
    let flag = "--dev".to_owned();
    let mut i: usize = 0;
    while i < extension_args.len()
        invariant
            i <= extension_args.len(),
            flag@ == "--dev"@,
            forall|k: int| 0 <= k < i ==> (#[trigger] extension_args@[k])@ != "--dev"@,
        decreases extension_args.len() - i,
    {
        if extension_args[i] == flag {
            return true;
        }
        i = i + 1;
    }
    false
}

/// Finds the version of the target package among the dependencies: that of
/// the greatest of the records that bear the package's name. Fails where
/// none bears it.
pub fn select_target_version(dependencies: &Vec<Dependency>, package_name: &str) -> (r: Result<
    VersionParseResult,
    ExtensionError,
>)
    ensures
        match r {
            Ok(version) => is_target_version(
                records(dependencies@).to_set(),
                package_name@,
                version_view(version),
            ),
            Err(e) => e == ExtensionError::MissingTargetPackage && !is_named(
                records(dependencies@).to_set(),
                package_name@,
            ),
        },
{
    let name = package_name.to_owned();
    let ghost list = records(dependencies@);
    let mut best: Option<usize> = None;
    let mut i: usize = 0;
    while i < dependencies.len()
        invariant
            i <= dependencies.len(),
            list == records(dependencies@),
            name@ == package_name@,
            match best {
                None => forall|k: int| 0 <= k < i ==> (#[trigger] list[k]).name != name@,
                Some(b) => b < i && list[b as int].name == name@ && forall|k: int|
                    0 <= k < i && (#[trigger] list[k]).name == name@ ==> list[k].version
                        == list[b as int].version || version_lt(
                        list[k].version,
                        list[b as int].version,
                    ),
            },
        decreases dependencies.len() - i,
    {
        if dependencies[i].name == name {
            match best {
                None => {
                    best = Some(i);
                },
                Some(b) => {
                    match compare_versions(&dependencies[b].version, &dependencies[i].version) {
                        Comparison::Less => {
                            proof {
                                assert forall|k: int|
                                    0 <= k < i + 1 && (#[trigger] list[k]).name == name@ implies list[k].version
                                    == list[i as int].version || version_lt(
                                    list[k].version,
                                    list[i as int].version,
                                ) by {
                                    if k < i && list[k].version != list[b as int].version {
                                        lemma_version_lt_transitive(
                                            list[k].version,
                                            list[b as int].version,
                                            list[i as int].version,
                                        );
                                    }
                                }
                            }
                            best = Some(i);
                        },
                        _ => {
                            proof {
                                lemma_version_lt_total(
                                    list[b as int].version,
                                    list[i as int].version,
                                );
                            }
                        },
                    }
                },
            }
        }
        i = i + 1;
    }
    match best {
        None => {
            proof {
                if is_named(list.to_set(), package_name@) {
                    let record = choose|record: DependencyRecord|
                        #[trigger] list.to_set().contains(record) && record.name == package_name@;
                    assert(list.contains(record));
                    let k = choose|k: int| 0 <= k < list.len() && list[k] == record;
                    assert(list[k].name != name@);
                }
            }
            Err(ExtensionError::MissingTargetPackage)
        },
        Some(b) => {
            let version = copy_version(&dependencies[b].version);
            proof {
                let found = DependencyRecord { name: package_name@, version: version_view(version) };
                assert(list[b as int] == found);
                assert(list.contains(found));
                assert forall|record: DependencyRecord|
                    #[trigger] list.to_set().contains(record) && record.name
                        == package_name@ implies record.version == found.version || version_lt(
                    record.version,
                    found.version,
                ) by {
                    assert(list.contains(record));
                    let k = choose|k: int| 0 <= k < list.len() && list[k] == record;
                    assert(list[k].name == name@);
                }
            }
            Ok(version)
        },
    }
}

/// Takes the target package out of its own dependencies: every dependency
/// that bears its name goes, and every one of its version.
pub fn remove_target(
    dependencies: &Vec<Dependency>,
    package_name: &str,
    package_version: &VersionParseResult,
) -> (r: Vec<Dependency>)
    ensures
        records(r@) == excluding_target(
            records(dependencies@),
            package_name@,
            version_view(*package_version),
        ),
{
    let name = package_name.to_owned();
    let ghost list = records(dependencies@);
    let ghost version = version_view(*package_version);
    let mut kept: Vec<Dependency> = Vec::new();
    let mut i: usize = 0;
    assert(list.take(0) =~= Seq::<DependencyRecord>::empty());
    assert(records(kept@) =~= Seq::<DependencyRecord>::empty());
    while i < dependencies.len()
        invariant
            i <= dependencies.len(),
            list == records(dependencies@),
            name@ == package_name@,
            version == version_view(*package_version),
            records(kept@) == excluding_target(list.take(i as int), name@, version),
        decreases dependencies.len() - i,
    {
        let ghost so_far = list.take(i as int);
        let ghost next = list.take(i as int + 1);
        let ghost kept_before = records(kept@);
        assert(next.drop_last() =~= so_far);
        assert(next.last() == list[i as int]);
        if dependencies[i].name != name && !same_version(&dependencies[i].version, package_version) {
            kept.push(dependencies[i].clone());
            assert(records(kept@) =~= kept_before.push(list[i as int]));
        }
        i = i + 1;
    }
    assert(list.take(dependencies.len() as int) =~= list);
    kept
}

/// Makes the result for a package from the dependencies that its lock file
/// lists. The version asked for is taken as it is; without one, the version
/// is that of the greatest dependency that bears the package's name, and
/// the call fails where none does. The package itself is left out of its
/// dependencies.
pub fn resolve_package_dependencies(
    dependencies: &Vec<Dependency>,
    package_name: &str,
    package_version: &Option<&str>,
) -> (r: Result<Vec<PackageDependencies>, ExtensionError>)
    ensures
        package_outcome(
            records(dependencies@),
            package_name@,
            requested_text(*package_version),
            r,
        ),
        r matches Ok(sets) ==> forall|i: int|
            0 <= i < sets@[0].dependencies@.len() ==> (#[trigger] sets@[0].dependencies@[i]).name@
                != package_name@,
{
    let resolved: VersionParseResult = match package_version {
        Some(version) => Ok((*version).to_owned()),
        None => match select_target_version(dependencies, package_name) {
            Ok(version) => version,
            Err(e) => {
                return Err(e);
            },
        },
    };
    let remaining = remove_target(dependencies, package_name, &resolved);
    proof {
        lemma_excluding_target(records(dependencies@), package_name@, version_view(resolved));
        assert forall|i: int| 0 <= i < remaining@.len() implies (#[trigger] remaining@[i]).name@
            != package_name@ by {
            assert(is_kept(records(remaining@)[i], package_name@, version_view(resolved)));
        }
    }
    let mut sets: Vec<PackageDependencies> = Vec::new();
    sets.push(
        PackageDependencies {
            package_version: resolved,
            registry_host_name: get_registry_host_name(),
            dependencies: remaining,
        },
    );
    Ok(sets)
}

/// The text of a file can be read as a lock file.
pub open spec fn is_readable(contents: Seq<char>) -> bool {
    parsed_json(contents) matches Some(document) && document is Object
}

/// Why a dependency file cannot be read: its text is no JSON document, or
/// its document is no object; either way the cause names the file's path.
pub open spec fn unreadable_cause(loaded: LoadedDependencyFile) -> Cause {
    match parsed_json(loaded.contents@) {
        Some(_) => Cause::InvalidDependencyFile(loaded.file.path@),
        None => Cause::MalformedDependencyFile(loaded.file.path@, loaded.contents@),
    }
}

/// The result describes what the file defines: it bears the file's path and
/// the registry of the file's kind, and lists the dependencies that the
/// file's text is flattened to.
pub open spec fn describes_file(
    defined: FileDefinedDependencies,
    loaded: LoadedDependencyFile,
    include_dev: bool,
) -> bool {
    &&& defined.path@ == loaded.file.path@
    &&& defined.registry_host_name@ == registry_host_name()
    &&& parsed_json(loaded.contents@) matches Some(document) && is_extraction(
        document,
        include_dev,
        records(defined.dependencies@),
    )
}

/// The version that a request resolves to: the one asked for, as it is;
/// without one, the latest that the registry's answer lists.
pub open spec fn resolved_version(requested: Option<Seq<char>>, body: Seq<char>) -> Result<
    Seq<char>,
    Cause,
> {
    match requested {
        Some(version) => Ok(version),
        None => match parsed_json(body) {
            None => Err(Cause::MalformedJson(body)),
            Some(document) => match listed_versions(document) {
                None => Err(Cause::MissingVersions),
                Some(versions) => match latest_of(versions) {
                    None => Err(Cause::MissingVersion),
                    Some(version) => Ok(version),
                },
            },
        },
    }
}

/// What the registry's answer tells of a package: the version resolved,
/// the page of that version, the first of the hosts, and the archive that
/// the answer names for the version; or the first thing that stands in
/// the way, in that order.
pub open spec fn package_metadata(
    template: Seq<char>,
    hosts: Seq<Seq<char>>,
    package_name: Seq<char>,
    requested: Option<Seq<char>>,
    body: Seq<char>,
) -> Result<RegistryPackageMetadataModel, Cause> {
    match resolved_version(requested, body) {
        Err(cause) => Err(cause),
        Ok(version) => match filled_template(template, version_fields(package_name, version)) {
            None => Err(Cause::Template),
            Some(page) => match parsed_url(page) {
                None => Err(Cause::InvalidUrl(page)),
                Some(human_url) => if hosts.len() == 0 {
                    Err(Cause::MissingRegistry)
                } else {
                    match parsed_json(body) {
                        None => Err(Cause::MalformedJson(body)),
                        Some(document) => match archive_text(document, version) {
                            None => Err(Cause::MissingArchiveUrl),
                            Some(archive) => match parsed_url(archive) {
                                None => Err(Cause::InvalidUrl(archive)),
                                Some(artifact_url) => Ok(
                                    RegistryPackageMetadataModel {
                                        registry_host_name: hosts[0],
                                        human_url,
                                        artifact_url,
                                        is_primary: true,
                                        package_version: version,
                                    },
                                ),
                            },
                        },
                    }
                },
            },
        },
    }
}

impl JsExtension {
    /// The template of the page of a version of a package.
    pub open spec fn human_url_template(&self) -> Seq<char> {
        self.registry_human_url_template_@
    }

    /// The extension as it is set up for the npm registry.
    pub fn new() -> (r: JsExtension)
        ensures
            r.name_@ == "js"@,
            names(r.registry_host_names_@) == seq!["npmjs.com"@],
            r.root_url_@ == "https://www.npmjs.com"@,
            r.human_url_template() == registry_human_url_template(),
            is_plain_template(r.human_url_template()),
    {
        proof {
            lemma_registry_human_url_template_is_plain();
        }
        let mut registry_host_names: Vec<String> = Vec::new();
        registry_host_names.push("npmjs.com".to_owned());
        assert(names(registry_host_names@) =~= seq!["npmjs.com"@]);
        JsExtension {
            name_: "js".to_owned(),
            registry_host_names_: registry_host_names,
            root_url_: "https://www.npmjs.com".to_owned(),
            registry_human_url_template_:
                "https://www.npmjs.com/package/{{package_name}}/v/{{package_version}}".to_owned(),
        }
    }

    /// The short name of the extension.
    pub fn name(&self) -> (r: String)
        ensures
            r@ == self.name_@,
    {
        self.name_.clone()
    }

    /// The hosts of the registries that the extension knows.
    pub fn registries(&self) -> (r: Vec<String>)
        ensures
            names(r@) == names(self.registry_host_names_@),
    {
        let mut hosts: Vec<String> = Vec::new();
        let mut i: usize = 0;
        while i < self.registry_host_names_.len()
            invariant
                i <= self.registry_host_names_.len(),
                hosts@.len() == i,
                forall|k: int| 0 <= k < i ==> hosts@[k]@ == self.registry_host_names_@[k]@,
            decreases self.registry_host_names_.len() - i,
        {
            hosts.push(self.registry_host_names_[i].clone());
            i = i + 1;
        }
        assert(names(hosts@) =~= names(self.registry_host_names_@));
        hosts
    }

    /// The arguments with which the package manager is to be run so that
    /// it writes the lock file of a package.
    pub fn lock_file_arguments(package_name: &str, package_version: &Option<&str>) -> (r: Vec<
        String,
    >)
        ensures
            names(r@) == lock_arguments(package_name@, requested_text(*package_version)),
    {
        let package = match package_version {
            Some(version) => package_name.to_owned().concat("@").concat(version),
            None => package_name.to_owned(),
        };
        let mut arguments: Vec<String> = Vec::new();
        arguments.push("install".to_owned());
        arguments.push(package);
        arguments.push("--package-lock-only".to_owned());
        assert(names(arguments@) =~= lock_arguments(
            package_name@,
            requested_text(*package_version),
        ));
        arguments
    }

    /// Lists the dependencies of a package from the text of the lock file
    /// that the package manager wrote for it. Development dependencies are
    /// left out, and so is the package itself. One result comes back, for
    /// the one registry. Fails where the text is no lock file, and where no
    /// version was asked for and the lock file does not list the package.
    pub fn identify_package_dependencies(
        &self,
        package_name: &str,
        package_version: &Option<&str>,
        _extension_args: &Vec<String>,
        lock_file: &str,
    ) -> (r: Result<Vec<PackageDependencies>, ExtensionError>)
        ensures
            match parsed_json(lock_file@) {
                Some(document) => if document is Object {
                    exists|list: Seq<DependencyRecord>|
                        #[trigger] is_extraction(document, false, list) && package_outcome(
                            list,
                            package_name@,
                            requested_text(*package_version),
                            r,
                        )
                } else {
                    r matches Err(e) && e@ == Cause::NotAnObject
                },
                None => r matches Err(e) && e@ == Cause::MalformedJson(lock_file@),
            },
            r matches Ok(sets) ==> sets@.len() == 1 && forall|i: int|
                0 <= i < sets@[0].dependencies@.len() ==> (#[trigger] sets@[0].dependencies@[i]).name@
                    != package_name@,
    {
        let dependencies = match get_dependencies(lock_file, false) {
            Ok(dependencies) => dependencies,
            Err(e) => {
                return Err(e);
            },
        };
        let r = resolve_package_dependencies(&dependencies, package_name, package_version);
        proof {
            let document = parsed_json(lock_file@)->0;
            assert(is_extraction(document, false, records(dependencies@)));
        }
        r
    }

    /// Lists the dependencies that the dependency files of a project
    /// define, one result for each file, in the order of the files. Without
    /// dependency files there is nothing to list, which is no failure.
    /// Development dependencies are listed where the arguments ask for
    /// them. Where a file cannot be read, the call fails with the cause of
    /// the first such file, which names the file's path.
    pub fn identify_file_defined_dependencies(
        &self,
        dependency_files: &Option<Vec<LoadedDependencyFile>>,
        extension_args: &Vec<String>,
    ) -> (r: Result<Vec<FileDefinedDependencies>, ExtensionError>)
        ensures
            match *dependency_files {
                None => r matches Ok(list) && list@.len() == 0,
                Some(files) => match r {
                    Ok(list) => list@.len() == files@.len() && forall|i: int|
                        0 <= i < files@.len() ==> is_readable((#[trigger] files@[i]).contents@)
                            && describes_file(list@[i], files@[i], asks_for_dev(extension_args@)),
                    Err(e) => exists|i: int|
                        0 <= i < files@.len() && !is_readable((#[trigger] files@[i]).contents@)
                            && e@ == unreadable_cause(files@[i]) && forall|j: int|
                            0 <= j < i ==> is_readable((#[trigger] files@[j]).contents@),
                },
            },
    {
        let include_dev_dependencies = includes_dev_flag(extension_args);
        let files = match dependency_files {
            Some(files) => files,
            None => {
                return Ok(Vec::new());
            },
        };
        let mut all_dependency_specs: Vec<FileDefinedDependencies> = Vec::new();
        let mut i: usize = 0;
        while i < files.len()
            invariant
                i <= files.len(),
                *dependency_files == Some::<Vec<LoadedDependencyFile>>(*files),
                include_dev_dependencies == asks_for_dev(extension_args@),
                all_dependency_specs@.len() == i,
                forall|j: int|
                    0 <= j < i ==> is_readable((#[trigger] files@[j]).contents@) && describes_file(
                        all_dependency_specs@[j],
                        files@[j],
                        include_dev_dependencies,
                    ),
            decreases files.len() - i,
        {
            let loaded = &files[i];
            let (dependencies, registry_host_name) = match loaded.file.file_type {
                DependencyFileType::Npm => (
                    match get_dependencies(loaded.contents.as_str(), include_dev_dependencies) {
                        Ok(dependencies) => dependencies,
                        Err(e) => {
                            return Err(e.in_dependency_file(&loaded.file.path));
                        },
                    },
                    get_registry_host_name(),
                ),
            };
            all_dependency_specs.push(
                FileDefinedDependencies {
                    path: loaded.file.path.clone(),
                    registry_host_name,
                    dependencies,
                },
            );
            i = i + 1;
        }
        Ok(all_dependency_specs)
    }

    /// Finds the version that a request is about: the one asked for, as it
    /// is; without one, the latest that the registry's answer lists.
    pub fn resolve_version(package_version: &Option<&str>, registry_body: &str) -> (r: Result<
        String,
        ExtensionError,
    >)
        ensures
            match resolved_version(requested_text(*package_version), registry_body@) {
                Ok(version) => r matches Ok(found) && found@ == version,
                Err(cause) => r matches Err(e) && e@ == cause,
            },
    {
        match package_version {
            Some(version) => Ok((*version).to_owned()),
            None => {
                let document = match get_registry_entry_json(registry_body) {
                    Ok(document) => document,
                    Err(e) => {
                        return Err(e);
                    },
                };
                match get_latest_version(&document) {
                    Ok(Some(version)) => Ok(version),
                    Ok(None) => Err(ExtensionError::MissingVersion),
                    Err(e) => Err(e),
                }
            },
        }
    }

    /// Tells what the registry knows of a version of a package, from what
    /// the registry answered when asked for the package: the version, the
    /// page of the version and its archive. One result comes back, for the
    /// one registry, marked as primary. The steps fail in this order: the
    /// version, the page, the host, the answer as a document, the archive.
    pub fn registries_package_metadata(
        &self,
        package_name: &str,
        package_version: &Option<&str>,
        registry_body: &str,
    ) -> (r: Result<Vec<RegistryPackageMetadata>, ExtensionError>)
        ensures
            match package_metadata(
                self.human_url_template(),
                names(self.registry_host_names_@),
                package_name@,
                requested_text(*package_version),
                registry_body@,
            ) {
                Ok(metadata) => r matches Ok(list) && list@.len() == 1 && list@[0]@ == metadata,
                Err(cause) => r matches Err(e) && e@ == cause,
            },
    {
        let package_version = match JsExtension::resolve_version(package_version, registry_body) {
            Ok(version) => version,
            Err(e) => {
                return Err(e);
            },
        };
        let human_url = match get_registry_human_url(
            self,
            package_name,
            package_version.as_str(),
        ) {
            Ok(url) => url,
            Err(e) => {
                return Err(e);
            },
        };
        if self.registry_host_names_.len() == 0 {
            return Err(ExtensionError::MissingRegistry);
        }
        let registry_host_name = self.registry_host_names_[0].clone();
        let entry_json = match get_registry_entry_json(registry_body) {
            Ok(document) => document,
            Err(e) => {
                return Err(e);
            },
        };
        let artifact_url = match get_archive_url(&entry_json, package_version.as_str()) {
            Ok(url) => url,
            Err(e) => {
                return Err(e);
            },
        };
        let mut list: Vec<RegistryPackageMetadata> = Vec::new();
        list.push(
            RegistryPackageMetadata {
                registry_host_name,
                human_url,
                artifact_url,
                is_primary: true,
                package_version,
            },
        );
        Ok(list)
    }
}

} // verus!
