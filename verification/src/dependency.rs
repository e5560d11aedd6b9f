//! Dependency records, the order they are listed in, and lists that hold
//! each record once, in that order.

use vstd::prelude::*;
use crate::text::Comparison;
use crate::text::compare_text;
use crate::text::text_lt;
use crate::text::lemma_text_lt_irreflexive;
use crate::text::lemma_text_lt_transitive;
use crate::text::lemma_text_lt_total;

verus! {

/// Why a dependency has no version.
#[derive(Clone, Copy, Debug, PartialEq, Eq, PartialOrd, Ord, Hash, Structural)]
pub enum VersionError {
    /// The entry names no version, or an empty one.
    MissingVersion,
}

impl VersionError {
    /// The marker of an entry without a version.
    pub fn from_missing_version() -> (r: VersionError)
        ensures
            r == VersionError::MissingVersion,
    {
        VersionError::MissingVersion
    }

    /// What to tell a person about this marker.
    pub fn message(&self) -> (r: String)
        ensures
            r@ == "Missing version number"@,
    {
        "Missing version number".to_owned()
    }
}

/// A version, or the reason there is none.
pub type VersionParseResult = Result<String, VersionError>;

/// One dependency of a package or a project.
#[derive(Debug, PartialEq, Eq, PartialOrd, Ord, Hash)]
pub struct Dependency {
    pub name: String,
    pub version: VersionParseResult,
}

/// What a `Dependency` stands for: a name and a version, where `None` marks
/// a missing version.
pub struct DependencyRecord {
    pub name: Seq<char>,
    pub version: Option<Seq<char>>,
}

/// The version that a `VersionParseResult` stands for.
pub open spec fn version_view(version: VersionParseResult) -> Option<Seq<char>> {
    match version {
        Ok(v) => Some(v@),
        Err(_) => None,
    }
}

impl View for Dependency {
    type V = DependencyRecord;

    open spec fn view(&self) -> DependencyRecord {
        DependencyRecord { name: self.name@, version: version_view(self.version) }
    }
}

/// The records that a list of dependencies stands for.
pub open spec fn records(dependencies: Seq<Dependency>) -> Seq<DependencyRecord> {
    dependencies.map_values(|d: Dependency| d@)
}

/// The version that a version field stands for: absent and empty both mean
/// that the version is missing.
pub open spec fn parsed_version(version: Option<Seq<char>>) -> Option<Seq<char>> {
    match version {
        Some(v) => if v.len() == 0 {
            None
        } else {
            Some(v)
        },
        None => None,
    }
}

/// `a` comes strictly before `b`: versions in the order of text, and every
/// version before the missing one.
pub open spec fn version_lt(a: Option<Seq<char>>, b: Option<Seq<char>>) -> bool {
    match (a, b) {
        (Some(x), Some(y)) => text_lt(x, y),
        (Some(_), None) => true,
        (None, _) => false,
    }
}

/// How version `a` stands to version `b`.
pub open spec fn version_comparison(a: Option<Seq<char>>, b: Option<Seq<char>>) -> Comparison {
    if version_lt(a, b) {
        Comparison::Less
    } else if a == b {
        Comparison::Equal
    } else {
        Comparison::Greater
    }
}

/// `a` comes strictly before `b`: by name, and under one name by version.
pub open spec fn record_lt(a: DependencyRecord, b: DependencyRecord) -> bool {
    text_lt(a.name, b.name) || (a.name == b.name && version_lt(a.version, b.version))
}

/// How record `a` stands to record `b`.
pub open spec fn record_comparison(a: DependencyRecord, b: DependencyRecord) -> Comparison {
    if record_lt(a, b) {
        Comparison::Less
    } else if a == b {
        Comparison::Equal
    } else {
        Comparison::Greater
    }
}

/// Every record of the list comes strictly before all that follow it.
pub open spec fn strictly_ascending(list: Seq<DependencyRecord>) -> bool {
    forall|i: int, j: int| 0 <= i < j < list.len() ==> record_lt(#[trigger] list[i], #[trigger] list[j])
}

/// No version comes before itself.
pub proof fn lemma_version_lt_irreflexive(a: Option<Seq<char>>)
    ensures
        !version_lt(a, a),
{
    if let Some(v) = a {
        lemma_text_lt_irreflexive(v);
    }
}

/// The order of versions is transitive.
pub proof fn lemma_version_lt_transitive(
    a: Option<Seq<char>>,
    b: Option<Seq<char>>,
    c: Option<Seq<char>>,
)
    requires
        version_lt(a, b),
        version_lt(b, c),
    ensures
        version_lt(a, c),
{
    if let (Some(x), Some(y), Some(z)) = (a, b, c) {
        lemma_text_lt_transitive(x, y, z);
    }
}

/// Of two different versions, one comes before the other.
pub proof fn lemma_version_lt_total(a: Option<Seq<char>>, b: Option<Seq<char>>)
    ensures
        version_lt(a, b) || a == b || version_lt(b, a),
{
    if let (Some(x), Some(y)) = (a, b) {
        lemma_text_lt_total(x, y);
    }
}

/// No record comes before itself.
pub proof fn lemma_record_lt_irreflexive(a: DependencyRecord)
    ensures
        !record_lt(a, a),
{
    lemma_text_lt_irreflexive(a.name);
    if let Some(v) = a.version {
        lemma_text_lt_irreflexive(v);
    }
}

/// The order of records is transitive.
pub proof fn lemma_record_lt_transitive(a: DependencyRecord, b: DependencyRecord, c: DependencyRecord)
    requires
        record_lt(a, b),
        record_lt(b, c),
    ensures
        record_lt(a, c),
{
    if text_lt(a.name, b.name) && text_lt(b.name, c.name) {
        lemma_text_lt_transitive(a.name, b.name, c.name);
    }
    if a.name == b.name && b.name == c.name {
        lemma_text_lt_irreflexive(a.name);
        if let (Some(x), Some(y), Some(z)) = (a.version, b.version, c.version) {
            lemma_text_lt_transitive(x, y, z);
        }
    }
}

/// Of two different records, one comes before the other.
pub proof fn lemma_record_lt_total(a: DependencyRecord, b: DependencyRecord)
    ensures
        record_lt(a, b) || a == b || record_lt(b, a),
{
    lemma_text_lt_total(a.name, b.name);
    if let (Some(x), Some(y)) = (a.version, b.version) {
        lemma_text_lt_total(x, y);
    }
}

/// A strictly ascending list holds no record twice.
pub proof fn lemma_ascending_has_no_duplicates(list: Seq<DependencyRecord>)
    requires
        strictly_ascending(list),
    ensures
        list.no_duplicates(),
{
    assert forall|i: int, j: int| 0 <= i < list.len() && 0 <= j < list.len() && i != j implies list[i]
        != list[j] by {
        lemma_record_lt_irreflexive(list[i]);
    }
}

/// The last record of a strictly ascending list is its greatest.
proof fn lemma_last_is_greatest(list: Seq<DependencyRecord>, r: DependencyRecord)
    requires
        strictly_ascending(list),
        list.contains(r),
    ensures
        r == list.last() || record_lt(r, list.last()),
{
    let i = choose|i: int| 0 <= i < list.len() && list[i] == r;
    assert(list[i] == r);
}

/// There is one way only to list a set of records in strictly ascending
/// order.
pub proof fn lemma_ascending_is_unique(a: Seq<DependencyRecord>, b: Seq<DependencyRecord>)
    requires
        strictly_ascending(a),
        strictly_ascending(b),
        a.to_set() == b.to_set(),
    ensures
        a == b,
    decreases a.len(),
{
    if a.len() == 0 {
        if b.len() > 0 {
            assert(b.contains(b[0]));
            assert(b.to_set().contains(b[0]));
            assert(a.contains(b[0]));
        }
        assert(a =~= b);
    } else {
        assert(a.contains(a.last()));
        assert(a.to_set().contains(a.last()));
        assert(b.contains(a.last()));
        assert(b.contains(b.last()));
        assert(b.to_set().contains(b.last()));
        assert(a.contains(b.last()));
        lemma_last_is_greatest(a, b.last());
        lemma_last_is_greatest(b, a.last());
        if a.last() != b.last() {
            lemma_record_lt_transitive(a.last(), b.last(), a.last());
            lemma_record_lt_irreflexive(a.last());
        }
        let a0 = a.drop_last();
        let b0 = b.drop_last();
        assert forall|r: DependencyRecord| a0.contains(r) implies b0.contains(r) by {
            let i = choose|i: int| 0 <= i < a0.len() && a0[i] == r;
            assert(a[i] == r);
            assert(record_lt(a[i], a.last()));
            assert(a.contains(r));
            assert(a.to_set().contains(r));
            assert(b.contains(r));
            let j = choose|j: int| 0 <= j < b.len() && b[j] == r;
            lemma_record_lt_irreflexive(r);
            assert(j < b.len() - 1);
            assert(b0[j] == r);
        }
        assert forall|r: DependencyRecord| b0.contains(r) implies a0.contains(r) by {
            let j = choose|j: int| 0 <= j < b0.len() && b0[j] == r;
            assert(b[j] == r);
            assert(record_lt(b[j], b.last()));
            assert(b.contains(r));
            assert(b.to_set().contains(r));
            assert(a.contains(r));
            let i = choose|i: int| 0 <= i < a.len() && a[i] == r;
            lemma_record_lt_irreflexive(r);
            assert(i < a.len() - 1);
            assert(a0[i] == r);
        }
        assert(a0.to_set() =~= b0.to_set());
        assert(strictly_ascending(a0)) by {
            assert forall|i: int, j: int| 0 <= i < j < a0.len() implies record_lt(
                #[trigger] a0[i],
                #[trigger] a0[j],
            ) by {
                assert(record_lt(a[i], a[j]));
            }
        }
        assert(strictly_ascending(b0)) by {
            assert forall|i: int, j: int| 0 <= i < j < b0.len() implies record_lt(
                #[trigger] b0[i],
                #[trigger] b0[j],
            ) by {
                assert(record_lt(b[i], b[j]));
            }
        }
        lemma_ascending_is_unique(a0, b0);
        assert(a =~= a0.push(a.last()));
        assert(b =~= b0.push(b.last()));
    }
}

/// Reads a version field: an absent or empty one gives the marker of a
/// missing version.
pub fn get_parsed_version(version: &Option<&str>) -> (r: VersionParseResult)
    ensures
        version_view(r) == parsed_version(
            match *version {
                Some(v) => Some(v@),
                None => None,
            },
        ),
        r is Err ==> r == Err::<String, VersionError>(VersionError::MissingVersion),
{
    match version {
        Some(v) => {
            if !v.is_empty() {
                return Ok((*v).to_owned());
            }
        },
        None => {},
    }
    Err(VersionError::from_missing_version())
}

/// A copy of a version.
pub fn copy_version(version: &VersionParseResult) -> (r: VersionParseResult)
    ensures
        version_view(r) == version_view(*version),
        r is Err ==> r == Err::<String, VersionError>(VersionError::MissingVersion),
{
    match version {
        Ok(v) => Ok(v.clone()),
        Err(_) => Err(VersionError::MissingVersion),
    }
}

/// Compares two versions.
pub fn compare_versions(a: &VersionParseResult, b: &VersionParseResult) -> (r: Comparison)
    ensures
        r == version_comparison(version_view(*a), version_view(*b)),
{
    match a {
        Ok(x) => match b {
            Ok(y) => compare_text(x.as_str(), y.as_str()),
            Err(_) => Comparison::Less,
        },
        Err(_) => match b {
            Ok(_) => Comparison::Greater,
            Err(_) => Comparison::Equal,
        },
    }
}

impl Dependency {
    /// Compares this dependency with another: by name, then by version.
    pub fn compare(&self, other: &Dependency) -> (r: Comparison)
        ensures
            r == record_comparison(self@, other@),
    {
        match compare_text(self.name.as_str(), other.name.as_str()) {
            Comparison::Less => Comparison::Less,
            Comparison::Greater => {
                proof {
                    lemma_text_lt_irreflexive(self.name@);
                    if text_lt(self.name@, other.name@) {
                        lemma_text_lt_transitive(self.name@, other.name@, self.name@);
                    }
                }
                Comparison::Greater
            },
            Comparison::Equal => {
                proof {
                    lemma_text_lt_irreflexive(self.name@);
                }
                compare_versions(&self.version, &other.version)
            },
        }
    }

}

impl Clone for Dependency {
    fn clone(&self) -> (r: Dependency)
        ensures
            r@ == self@,
    {
        Dependency { name: self.name.clone(), version: copy_version(&self.version) }
    }
}

/// Puts a dependency into a strictly ascending list, at its place in the
/// order; a list that already holds its record stays as it is.
pub fn insert_dependency(dependencies: &mut Vec<Dependency>, dependency: Dependency)
    requires
        strictly_ascending(records(old(dependencies)@)),
    ensures
        strictly_ascending(records(final(dependencies)@)),
        records(final(dependencies)@).to_set() == records(old(dependencies)@).to_set().insert(
            dependency@,
        ),
        records(old(dependencies)@).contains(dependency@) ==> final(dependencies)@ == old(
            dependencies,
        )@,
{
    let ghost before = records(dependencies@);
    let mut i: usize = 0;
    while i < dependencies.len()
        invariant
            i <= dependencies.len(),
            dependencies@ == old(dependencies)@,
            before == records(dependencies@),
            strictly_ascending(before),
            forall|k: int| 0 <= k < i ==> record_lt(#[trigger] before[k], dependency@),
        ensures
            i < dependencies.len() ==> record_lt(dependency@, before[i as int]),
        decreases dependencies.len() - i,
    {
        match dependencies[i].compare(&dependency) {
            Comparison::Less => {},
            Comparison::Equal => {
                proof {
                    assert(before[i as int] == dependency@);
                    assert(before.contains(dependency@));
                    assert(before.to_set().insert(dependency@) =~= before.to_set());
                }
                return ;
            },
            Comparison::Greater => {
                proof {
                    lemma_record_lt_total(before[i as int], dependency@);
                }
                break ;
            },
        }
        i = i + 1;
    }
    let ghost added = dependency@;
    proof {
        assert forall|k: int| i <= k < before.len() implies record_lt(added, #[trigger] before[k]) by {
            if k > i {
                assert(record_lt(before[i as int], before[k]));
                lemma_record_lt_transitive(added, before[i as int], before[k]);
            }
        }
        assert(!before.contains(added)) by {
            if before.contains(added) {
                let k = choose|k: int| 0 <= k < before.len() && before[k] == added;
                lemma_record_lt_irreflexive(added);
            }
        }
    }
    dependencies.insert(i, dependency);
    proof {
        let after = records(dependencies@);
        assert(after =~= before.insert(i as int, added));
        assert forall|p: int, q: int| 0 <= p < q < after.len() implies record_lt(
            #[trigger] after[p],
            #[trigger] after[q],
        ) by {
            if q < i {
                assert(record_lt(before[p], before[q]));
            } else if q == i {
                assert(record_lt(before[p], added));
            } else if p < i {
                assert(record_lt(before[p], before[q - 1]));
            } else if p == i {
                assert(record_lt(added, before[q - 1]));
            } else {
                assert(record_lt(before[p - 1], before[q - 1]));
            }
        }
        assert forall|r: DependencyRecord| after.to_set().contains(r) == before.to_set().insert(
            added,
        ).contains(r) by {
            if after.contains(r) {
                let k = choose|k: int| 0 <= k < after.len() && after[k] == r;
                if k < i {
                    assert(before[k] == r);
                } else if k > i {
                    assert(before[k - 1] == r);
                }
            }
            if before.contains(r) {
                let k = choose|k: int| 0 <= k < before.len() && before[k] == r;
                if k < i {
                    assert(after[k] == r);
                } else {
                    assert(after[k + 1] == r);
                }
            }
            if r == added {
                assert(after[i as int] == r);
            }
        }
        assert(after.to_set() =~= before.to_set().insert(added));
    }
}

} // verus!
