//! The lock file of npm: the nested tree of dependency entries that
//! `package-lock.json` holds is flattened into one list, in which each
//! record stands once, in ascending order.

use std::collections::VecDeque;
use vstd::prelude::*;
use crate::dependency::Dependency;
use crate::dependency::DependencyRecord;
use crate::dependency::get_parsed_version;
use crate::dependency::insert_dependency;
use crate::dependency::lemma_ascending_has_no_duplicates;
use crate::dependency::lemma_ascending_is_unique;
use crate::dependency::parsed_version;
use crate::dependency::records;
use crate::dependency::strictly_ascending;
use crate::error::ExtensionError;
use crate::json::JsonTree;
use crate::json::json_as_bool;
use crate::json::json_as_object;
use crate::json::json_as_str;
use crate::json::json_entries;
use crate::json::json_from_str;
use crate::json::json_index;
use crate::json::json_members;
use crate::json::json_tree;
use crate::json::lemma_lookup_size;
use crate::json::members_size;
use crate::json::parsed_json;
use crate::json::tree_size;

verus! {

/// The host of the registry that npm packages come from.
pub open spec fn registry_host_name() -> Seq<char> {
    "npmjs.com"@
}

/// The host of the registry that npm packages come from.
pub fn get_registry_host_name() -> (r: String)
    ensures
        r@ == registry_host_name(),
{
    "npmjs.com".to_owned()
}

/// The dependency group nested in an entry: the members of its
/// `dependencies` object, and none where it has no such object.
pub open spec fn nested_group(entry: JsonTree) -> Seq<(Seq<char>, JsonTree)> {
    entry.member("dependencies"@).members()
}

/// The entry is marked as a development dependency.
pub open spec fn is_dev(entry: JsonTree) -> bool {
    entry.member("dev"@).flag() == Some(true)
}

/// The entry is to be listed: a development dependency only where those
/// are asked for.
pub open spec fn is_listed(entry: JsonTree, include_dev: bool) -> bool {
    include_dev || !is_dev(entry)
}

/// The record of an entry: its name, and the version that its `version`
/// field stands for.
pub open spec fn record_of(name: Seq<char>, entry: JsonTree) -> DependencyRecord {
    DependencyRecord { name, version: parsed_version(entry.member("version"@).text()) }
}

/// The entry that a path leads to: each step of the path picks a member of
/// the group, and all but the last go on into the group nested in it.
pub open spec fn entry_at(group: Seq<(Seq<char>, JsonTree)>, path: Seq<int>) -> Option<
    (Seq<char>, JsonTree),
>
    decreases path.len(),
{
    if path.len() == 0 || !(0 <= path[0] < group.len()) {
        None
    } else if path.len() == 1 {
        Some(group[path[0]])
    } else {
        entry_at(nested_group(group[path[0]].1), path.drop_first())
    }
}

/// The entry, where there is one and it is to be listed, gives the record.
pub open spec fn entry_yields(
    entry: Option<(Seq<char>, JsonTree)>,
    include_dev: bool,
    record: DependencyRecord,
) -> bool {
    match entry {
        Some((name, tree)) => is_listed(tree, include_dev) && record == record_of(name, tree),
        None => false,
    }
}

/// Some entry of the group, at whatever depth, gives the record.
pub open spec fn group_yields(
    group: Seq<(Seq<char>, JsonTree)>,
    include_dev: bool,
    record: DependencyRecord,
) -> bool {
    exists|path: Seq<int>| entry_yields(#[trigger] entry_at(group, path), include_dev, record)
}

/// The records of a dependency group: those of its entries and of all
/// entries nested in them.
pub open spec fn group_records(group: Seq<(Seq<char>, JsonTree)>, include_dev: bool) -> Set<
    DependencyRecord,
> {
    Set::new(|record: DependencyRecord| group_yields(group, include_dev, record))
}

/// The records of a lock file document: those of the group under its
/// `dependencies` member.
pub open spec fn extracted_records(document: JsonTree, include_dev: bool) -> Set<DependencyRecord> {
    group_records(nested_group(document), include_dev)
}

/// The list is what a lock file document is flattened to: its records, each
/// once, in ascending order.
pub open spec fn is_extraction(
    document: JsonTree,
    include_dev: bool,
    list: Seq<DependencyRecord>,
) -> bool {
    strictly_ascending(list) && list.to_set() == extracted_records(document, include_dev)
}

/// Entry `i` of the group, or an entry nested in it, gives the record.
spec fn member_yields(
    group: Seq<(Seq<char>, JsonTree)>,
    i: int,
    include_dev: bool,
    record: DependencyRecord,
) -> bool {
    entry_yields(Some(group[i]), include_dev, record) || group_yields(
        nested_group(group[i].1),
        include_dev,
        record,
    )
}

/// An entry of the group from position `from` on, or an entry nested in
/// one, gives the record.
spec fn rest_yields(
    group: Seq<(Seq<char>, JsonTree)>,
    from: int,
    include_dev: bool,
    record: DependencyRecord,
) -> bool {
    exists|i: int| from <= i < group.len() && #[trigger] member_yields(group, i, include_dev, record)
}

/// A group of the queue gives the record.
spec fn queue_yields(
    queue: Seq<Seq<(Seq<char>, JsonTree)>>,
    include_dev: bool,
    record: DependencyRecord,
) -> bool {
    exists|k: int| 0 <= k < queue.len() && group_yields(#[trigger] queue[k], include_dev, record)
}

/// What is left to do for a queue of groups: one for each group, and the
/// size of each.
spec fn queue_weight(queue: Seq<Seq<(Seq<char>, JsonTree)>>) -> nat
    decreases queue.len(),
{
    if queue.len() == 0 {
        0
    } else {
        1 + members_size(queue.last()) + queue_weight(queue.drop_last())
    }
}

/// The weight of a queue is that of its first group and that of the rest.
proof fn lemma_queue_weight_drop_first(queue: Seq<Seq<(Seq<char>, JsonTree)>>)
    requires
        queue.len() > 0,
    ensures
        queue_weight(queue) == 1 + members_size(queue[0]) + queue_weight(queue.drop_first()),
    decreases queue.len(),
{
    if queue.len() == 1 {
        assert(queue.drop_last() =~= queue.drop_first());
    } else {
        lemma_queue_weight_drop_first(queue.drop_last());
        assert(queue.drop_last().drop_first() =~= queue.drop_first().drop_last());
    }
}

/// A group nested in an entry is smaller than the entry.
proof fn lemma_nested_group_size(entry: JsonTree)
    ensures
        entry.member("dependencies"@) is Object ==> 1 + members_size(nested_group(entry))
            <= tree_size(entry),
{
    lemma_lookup_size(entry.members(), "dependencies"@);
}

/// A group without entries gives no record.
proof fn lemma_empty_group_yields_nothing(
    group: Seq<(Seq<char>, JsonTree)>,
    include_dev: bool,
    record: DependencyRecord,
)
    requires
        group.len() == 0,
    ensures
        !group_yields(group, include_dev, record),
{
    assert forall|path: Seq<int>| !entry_yields(
        #[trigger] entry_at(group, path),
        include_dev,
        record,
    ) by {}
}

/// What a group gives is what its entries give, each with the entries
/// nested in it.
proof fn lemma_group_yields_by_member(
    group: Seq<(Seq<char>, JsonTree)>,
    include_dev: bool,
    record: DependencyRecord,
)
    ensures
        group_yields(group, include_dev, record) == rest_yields(group, 0, include_dev, record),
{
    if group_yields(group, include_dev, record) {
        let path = choose|path: Seq<int>|
            entry_yields(#[trigger] entry_at(group, path), include_dev, record);
        let i = path[0];
        if path.len() > 1 {
            assert(entry_yields(
                entry_at(nested_group(group[i].1), path.drop_first()),
                include_dev,
                record,
            ));
        }
        assert(member_yields(group, i, include_dev, record));
    }
    if rest_yields(group, 0, include_dev, record) {
        let i = choose|i: int|
            0 <= i < group.len() && #[trigger] member_yields(group, i, include_dev, record);
        if entry_yields(Some(group[i]), include_dev, record) {
            let path = seq![i];
            assert(entry_at(group, path) == Some(group[i]));
            assert(entry_yields(entry_at(group, path), include_dev, record));
        } else {
            let inner = nested_group(group[i].1);
            let below = choose|below: Seq<int>|
                entry_yields(#[trigger] entry_at(inner, below), include_dev, record);
            let path = seq![i] + below;
            assert(path.drop_first() =~= below);
            assert(entry_yields(entry_at(group, path), include_dev, record));
        }
    }
}

/// Flattens a lock file document: every entry under its `dependencies`
/// member, at whatever depth, gives one record, unless it is marked as a
/// development dependency and those are not asked for; the entries nested
/// in an entry are read whether or not the entry itself is listed. The
/// records come out each once, in ascending order. A document that is not
/// an object is refused.
pub fn parse_dependencies(package_entry: &serde_json::Value, include_dev_dependencies: bool) -> (r:
    Result<Vec<Dependency>, ExtensionError>)
    ensures
        match r {
            Ok(list) => json_tree(*package_entry) is Object && is_extraction(
                json_tree(*package_entry),
                include_dev_dependencies,
                records(list@),
            ),
            Err(e) => !(json_tree(*package_entry) is Object) && e == ExtensionError::NotAnObject,
        },
{
    if json_as_object(package_entry).is_none() {
        return Err(ExtensionError::NotAnObject);
    }
    let ghost document = json_tree(*package_entry);
    let ghost top = nested_group(document);
    let ghost dev = include_dev_dependencies;
    let mut queue: VecDeque<&serde_json::Map<String, serde_json::Value>> = VecDeque::new();
    match json_as_object(json_index(package_entry, "dependencies")) {
        Some(dependencies) => {
            queue.push_back(dependencies);
            proof {
                assert(queue_groups(queue@) =~= seq![top]);
                assert(queue_groups(queue@)[0] == top);
            }
        },
        None => {
            proof {
                assert(queue_groups(queue@) =~= Seq::empty());
                assert forall|record: DependencyRecord| !group_yields(top, dev, record) by {
                    lemma_empty_group_yields_nothing(top, dev, record);
                }
            }
        },
    }
    let mut all_dependencies: Vec<Dependency> = Vec::new();
    loop
        invariant
            top == nested_group(json_tree(*package_entry)),
            dev == include_dev_dependencies,
            strictly_ascending(records(all_dependencies@)),
            forall|record: DependencyRecord|
                group_yields(top, dev, record) == (records(all_dependencies@).contains(record)
                    || queue_yields(queue_groups(queue@), dev, record)),
        ensures
            queue@.len() == 0,
        decreases queue_weight(queue_groups(queue@)),
    {
        let ghost queue_before = queue_groups(queue@);
        let group = match queue.pop_front() {
            Some(group) => group,
            None => {
                break ;
            },
        };
        let ghost members = json_members(*group);
        let ghost waiting = queue_groups(queue@);
        proof {
            assert(waiting =~= queue_before.drop_first());
            assert(queue_before[0] == members);
            lemma_queue_weight_drop_first(queue_before);
            assert forall|record: DependencyRecord|
                group_yields(top, dev, record) == (records(all_dependencies@).contains(record)
                    || queue_yields(waiting, dev, record) || rest_yields(
                    members,
                    0,
                    dev,
                    record,
                )) by {
                lemma_group_yields_by_member(members, dev, record);
                if queue_yields(queue_before, dev, record) {
                    let k = choose|k: int|
                        0 <= k < queue_before.len() && group_yields(
                            #[trigger] queue_before[k],
                            dev,
                            record,
                        );
                    if k > 0 {
                        assert(waiting[k - 1] == queue_before[k]);
                    }
                }
                if queue_yields(waiting, dev, record) {
                    let k = choose|k: int|
                        0 <= k < waiting.len() && group_yields(#[trigger] waiting[k], dev, record);
                    assert(queue_before[k + 1] == waiting[k]);
                }
            }
        }
        let entries = json_entries(group);
        let mut i: usize = 0;
        while i < entries.len()
            invariant
                i <= entries.len(),
                entries@.len() == members.len(),
                forall|k: int|
                    0 <= k < entries@.len() ==> (#[trigger] entries@[k]).0@ == members[k].0
                        && json_tree(*entries@[k].1) == members[k].1,
                dev == include_dev_dependencies,
                strictly_ascending(records(all_dependencies@)),
                forall|record: DependencyRecord|
                    group_yields(top, dev, record) == (records(all_dependencies@).contains(record)
                        || queue_yields(queue_groups(queue@), dev, record) || rest_yields(
                        members,
                        i as int,
                        dev,
                        record,
                    )),
                queue_weight(queue_groups(queue@)) <= queue_weight(waiting) + members_size(
                    members.take(i as int),
                ),
            decreases entries.len() - i,
        {
            let package_name: &String = entries[i].0;
            let entry: &serde_json::Value = entries[i].1;
            let ghost name = members[i as int].0;
            let ghost tree = members[i as int].1;
            let ghost listed_before = records(all_dependencies@);
            let ghost queue_then = queue_groups(queue@);
            assert(package_name@ == name && json_tree(*entry) == tree);
            let marked = match json_as_bool(json_index(entry, "dev")) {
                Some(flag) => flag,
                None => false,
            };
            assert(marked == is_dev(tree));
            if include_dev_dependencies || !marked {
                let version_text = json_as_str(json_index(entry, "version"));
                let version = get_parsed_version(&version_text);
                let dependency = Dependency { name: package_name.clone(), version };
                assert(dependency@ == record_of(name, tree));
                insert_dependency(&mut all_dependencies, dependency);
            }
            let ghost listed_now = records(all_dependencies@);
            proof {
                assert forall|record: DependencyRecord|
                    listed_now.contains(record) == (listed_before.contains(record) || entry_yields(
                        Some(members[i as int]),
                        dev,
                        record,
                    )) by {
                    assert(listed_now.to_set().contains(record) == listed_now.contains(record));
                    assert(listed_before.to_set().contains(record) == listed_before.contains(
                        record,
                    ));
                }
            }
            match json_as_object(json_index(entry, "dependencies")) {
                Some(sub_dependencies) => {
                    queue.push_back(sub_dependencies);
                    proof {
                        assert(json_members(*sub_dependencies) == nested_group(tree));
                        assert(queue_groups(queue@) =~= queue_then.push(nested_group(tree)));
                        assert(queue_groups(queue@).drop_last() =~= queue_then);
                        lemma_nested_group_size(tree);
                    }
                },
                None => {
                    proof {
                        assert(nested_group(tree).len() == 0);
                        assert forall|record: DependencyRecord| !group_yields(
                            nested_group(tree),
                            dev,
                            record,
                        ) by {
                            lemma_empty_group_yields_nothing(nested_group(tree), dev, record);
                        }
                    }
                },
            }
            proof {
                let queue_now = queue_groups(queue@);
                assert(members.take(i as int + 1).drop_last() =~= members.take(i as int));
                assert(members.take(i as int + 1).last() == members[i as int]);
                assert forall|record: DependencyRecord|
                    (queue_yields(queue_now, dev, record) || listed_now.contains(record)
                        || rest_yields(members, i as int + 1, dev, record)) == (queue_yields(
                        queue_then,
                        dev,
                        record,
                    ) || listed_before.contains(record) || rest_yields(
                        members,
                        i as int,
                        dev,
                        record,
                    )) by {
                    if queue_yields(queue_then, dev, record) {
                        let k = choose|k: int|
                            0 <= k < queue_then.len() && group_yields(
                                #[trigger] queue_then[k],
                                dev,
                                record,
                            );
                        assert(queue_now[k] == queue_then[k]);
                    }
                    if queue_yields(queue_now, dev, record) {
                        let k = choose|k: int|
                            0 <= k < queue_now.len() && group_yields(
                                #[trigger] queue_now[k],
                                dev,
                                record,
                            );
                        if k < queue_then.len() {
                            assert(queue_then[k] == queue_now[k]);
                        } else {
                            assert(queue_now[k] == nested_group(tree));
                            assert(member_yields(members, i as int, dev, record));
                        }
                    }
                    if rest_yields(members, i as int, dev, record) {
                        let j = choose|j: int|
                            i <= j < members.len() && #[trigger] member_yields(
                                members,
                                j,
                                dev,
                                record,
                            );
                        if j == i {
                            if group_yields(nested_group(tree), dev, record) {
                                assert(queue_now.len() == queue_then.len() + 1);
                                assert(queue_now[queue_then.len() as int] == nested_group(tree));
                            }
                        } else {
                            assert(member_yields(members, j, dev, record));
                        }
                    }
                    if rest_yields(members, i as int + 1, dev, record) {
                        let j = choose|j: int|
                            i + 1 <= j < members.len() && #[trigger] member_yields(
                                members,
                                j,
                                dev,
                                record,
                            );
                        assert(member_yields(members, j, dev, record));
                    }
                    if listed_now.contains(record) && !listed_before.contains(record) {
                        assert(member_yields(members, i as int, dev, record));
                    }
                }
            }
            i = i + 1;
        }
        proof {
            assert(members.take(members.len() as int) =~= members);
            assert forall|record: DependencyRecord| !rest_yields(
                members,
                members.len() as int,
                dev,
                record,
            ) by {}
        }
    }
    proof {
        let list = records(all_dependencies@);
        assert(queue_groups(queue@).len() == 0);
        assert forall|record: DependencyRecord|
            list.to_set().contains(record) == extracted_records(document, dev).contains(
                record,
            ) by {
            assert(list.to_set().contains(record) == list.contains(record));
        }
        assert(list.to_set() =~= extracted_records(document, dev));
    }
    Ok(all_dependencies)
}

/// The groups that a queue of JSON objects holds.
spec fn queue_groups(queue: Seq<&serde_json::Map<String, serde_json::Value>>) -> Seq<
    Seq<(Seq<char>, JsonTree)>,
> {
    queue.map_values(|map: &serde_json::Map<String, serde_json::Value>| json_members(*map))
}

/// Reads the text of a lock file and flattens it. A text that is no JSON
/// document is refused, and handed back with what the reader said of it.
pub fn get_dependencies(manifest: &str, include_dev_dependencies: bool) -> (r: Result<
    Vec<Dependency>,
    ExtensionError,
>)
    ensures
        match parsed_json(manifest@) {
            Some(document) => if document is Object {
                r matches Ok(list) && is_extraction(
                    document,
                    include_dev_dependencies,
                    records(list@),
                )
            } else {
                r == Err::<Vec<Dependency>, ExtensionError>(ExtensionError::NotAnObject)
            },
            None => r matches Err(ExtensionError::MalformedJson { text, .. }) && text@
                == manifest@,
        },
{
    match json_from_str(manifest) {
        Ok(package_entry) => parse_dependencies(&package_entry, include_dev_dependencies),
        Err(e) => Err(
            ExtensionError::MalformedJson { text: manifest.to_owned(), reason: e.to_string() },
        ),
    }
}

/// A lock file document is flattened in one way only: reading it again
/// gives the same list.
pub proof fn lemma_extraction_is_unique(
    document: JsonTree,
    include_dev: bool,
    first: Seq<DependencyRecord>,
    second: Seq<DependencyRecord>,
)
    requires
        is_extraction(document, include_dev, first),
        is_extraction(document, include_dev, second),
    ensures
        first == second,
{
    lemma_ascending_is_unique(first, second);
}

/// A record that entries at several places give stands in the list once.
pub proof fn lemma_extraction_has_no_duplicates(
    document: JsonTree,
    include_dev: bool,
    list: Seq<DependencyRecord>,
)
    requires
        is_extraction(document, include_dev, list),
    ensures
        list.no_duplicates(),
{
    lemma_ascending_has_no_duplicates(list);
}

/// Every entry of the group, at whatever depth, is marked as a development
/// dependency.
pub open spec fn all_entries_dev(group: Seq<(Seq<char>, JsonTree)>) -> bool {
    forall|path: Seq<int>|
        (#[trigger] entry_at(group, path)) matches Some(entry) ==> is_dev(entry.1)
}

/// Where every entry is marked as a development dependency, nothing is
/// listed unless those are asked for, and then every entry gives its
/// record.
pub proof fn lemma_dev_filtering(document: JsonTree)
    requires
        all_entries_dev(nested_group(document)),
    ensures
        extracted_records(document, false) == Set::<DependencyRecord>::empty(),
        extracted_records(document, true) == Set::new(
            |record: DependencyRecord|
                exists|path: Seq<int>|
                    (#[trigger] entry_at(nested_group(document), path)) matches Some(entry)
                        && record == record_of(entry.0, entry.1),
        ),
{
    let group = nested_group(document);
    assert forall|record: DependencyRecord| !group_yields(group, false, record) by {
        assert forall|path: Seq<int>| !entry_yields(
            #[trigger] entry_at(group, path),
            false,
            record,
        ) by {}
    }
    assert(extracted_records(document, false) =~= Set::<DependencyRecord>::empty());
    let every = Set::new(
        |record: DependencyRecord|
            exists|path: Seq<int>|
                (#[trigger] entry_at(group, path)) matches Some(entry) && record == record_of(
                    entry.0,
                    entry.1,
                ),
    );
    assert forall|record: DependencyRecord| every.contains(record) == group_yields(
        group,
        true,
        record,
    ) by {
        if every.contains(record) {
            let path = choose|path: Seq<int>|
                (#[trigger] entry_at(group, path)) matches Some(entry) && record == record_of(
                    entry.0,
                    entry.1,
                );
            assert(entry_yields(entry_at(group, path), true, record));
        }
        if group_yields(group, true, record) {
            let path = choose|path: Seq<int>|
                entry_yields(#[trigger] entry_at(group, path), true, record);
            assert(entry_at(group, path) is Some);
        }
    }
    assert(extracted_records(document, true) =~= every);
}

/// An entry gives the same record at whatever depth it stands: where a
/// path of any length leads to an entry that also stands in a group of its
/// own, both groups list the record of that entry.
pub proof fn lemma_depth_independence(
    shallow: Seq<(Seq<char>, JsonTree)>,
    i: int,
    deep: Seq<(Seq<char>, JsonTree)>,
    path: Seq<int>,
    include_dev: bool,
)
    requires
        0 <= i < shallow.len(),
        entry_at(deep, path) == Some(shallow[i]),
        is_listed(shallow[i].1, include_dev),
    ensures
        group_records(shallow, include_dev).contains(record_of(shallow[i].0, shallow[i].1)),
        group_records(deep, include_dev).contains(record_of(shallow[i].0, shallow[i].1)),
{
    let record = record_of(shallow[i].0, shallow[i].1);
    assert(entry_at(shallow, seq![i]) == Some(shallow[i]));
    assert(entry_yields(entry_at(shallow, seq![i]), include_dev, record));
    assert(entry_yields(entry_at(deep, path), include_dev, record));
}

/// An entry whose version is absent or empty is listed with the marker of
/// a missing version.
pub proof fn lemma_missing_version_is_listed(
    group: Seq<(Seq<char>, JsonTree)>,
    path: Seq<int>,
    name: Seq<char>,
    entry: JsonTree,
    include_dev: bool,
)
    requires
        entry_at(group, path) == Some((name, entry)),
        is_listed(entry, include_dev),
        match entry.member("version"@).text() {
            Some(version) => version.len() == 0,
            None => true,
        },
    ensures
        group_records(group, include_dev).contains(DependencyRecord { name, version: None }),
{
    assert(entry_yields(
        entry_at(group, path),
        include_dev,
        DependencyRecord { name, version: None },
    ));
}

} // verus!
