//! The search for dependency files: from a directory upwards, level by
//! level, until a level holds at least one.

use vstd::prelude::*;
use vstd::string::StringExecFns;

verus! {

/// The kinds of dependency file that are looked for.
#[derive(Debug, Copy, Clone, PartialEq, Eq, Structural)]
pub enum DependencyFileType {
    Npm,
}

/// The kinds of dependency file, in the order in which they are looked for.
pub open spec fn all_file_types() -> Seq<DependencyFileType> {
    seq![DependencyFileType::Npm]
}

impl DependencyFileType {
    /// The name under which a file of this kind stands in its directory.
    pub open spec fn spec_file_name(&self) -> Seq<char> {
        match *self {
            DependencyFileType::Npm => "package-lock.json"@,
        }
    }

    /// The name under which a file of this kind stands in its directory.
    pub fn file_name(&self) -> (r: String)
        ensures
            r@ == self.spec_file_name(),
    {
        match self {
            DependencyFileType::Npm => "package-lock.json".to_owned(),
        }
    }

    /// The kinds of dependency file, in the order in which they are looked
    /// for.
    pub fn all() -> (r: Vec<DependencyFileType>)
        ensures
            r@ == all_file_types(),
    {
        let mut kinds: Vec<DependencyFileType> = Vec::new();
        kinds.push(DependencyFileType::Npm);
        assert(kinds@ =~= all_file_types());
        kinds
    }
}

/// An absolute path, held as the names that lead to it from the root
/// directory. The root directory itself has no names.
#[derive(Debug, PartialEq, Eq)]
pub struct AbsolutePath {
    pub components: Vec<String>,
}

/// The names that a list of strings holds.
pub open spec fn names(components: Seq<String>) -> Seq<Seq<char>> {
    components.map_values(|name: String| name@)
}

impl View for AbsolutePath {
    type V = Seq<Seq<char>>;

    open spec fn view(&self) -> Seq<Seq<char>> {
        names(self.components@)
    }
}

/// The names of a path written one after the other, a slash before each.
pub open spec fn joined_names(path: Seq<Seq<char>>) -> Seq<char>
    decreases path.len(),
{
    if path.len() == 0 {
        Seq::empty()
    } else {
        joined_names(path.drop_last()) + "/"@ + path.last()
    }
}

/// A path written out: a slash before each of its names, and a single
/// slash for the root directory.
pub open spec fn path_text(path: Seq<Seq<char>>) -> Seq<char> {
    if path.len() == 0 {
        "/"@
    } else {
        joined_names(path)
    }
}

impl Clone for AbsolutePath {
    fn clone(&self) -> (r: AbsolutePath)
        ensures
            r@ == self@,
    {
        let mut components: Vec<String> = Vec::new();
        let mut i: usize = 0;
        while i < self.components.len()
            invariant
                i <= self.components.len(),
                components@.len() == i,
                forall|k: int| 0 <= k < i ==> components@[k]@ == self.components@[k]@,
            decreases self.components.len() - i,
        {
            components.push(self.components[i].clone());
            i = i + 1;
        }
        let r = AbsolutePath { components };
        assert(r@ =~= self@);
        r
    }
}

impl AbsolutePath {
    /// The root directory.
    pub fn root() -> (r: AbsolutePath)
        ensures
            r@ == Seq::<Seq<char>>::empty(),
    {
        let r = AbsolutePath { components: Vec::new() };
        assert(r@ =~= Seq::<Seq<char>>::empty());
        r
    }

    /// This path is the root directory.
    pub fn is_root(&self) -> (r: bool)
        ensures
            r == (self@.len() == 0),
    {
        self.components.len() == 0
    }

    /// The path of `name` in this directory.
    pub fn join(&self, name: &str) -> (r: AbsolutePath)
        ensures
            r@ == self@.push(name@),
    {
        let mut joined = self.clone();
        joined.components.push(name.to_owned());
        assert(joined@ =~= self@.push(name@));
        joined
    }

    /// The directory that holds this path; the root directory is its own
    /// parent.
    pub fn parent(&self) -> (r: AbsolutePath)
        ensures
            r@ == if self@.len() == 0 {
                self@
            } else {
                self@.drop_last()
            },
    {
        let mut above = self.clone();
        let ghost before = above@;
        above.components.pop();
        assert(above@ =~= if before.len() == 0 {
            before
        } else {
            before.drop_last()
        });
        above
    }

    /// The path written out, as a person reads it.
    pub fn to_text(&self) -> (r: String)
        ensures
            r@ == path_text(self@),
    {
        if self.components.len() == 0 {
            return "/".to_owned();
        }
        let mut text = String::new();
        let mut i: usize = 0;
        assert(self@.take(0) =~= Seq::<Seq<char>>::empty());
        while i < self.components.len()
            invariant
                i <= self.components.len(),
                text@ == joined_names(self@.take(i as int)),
            decreases self.components.len() - i,
        {
            assert(self@.take(i as int + 1).drop_last() =~= self@.take(i as int));
            assert(self@.take(i as int + 1).last() == self.components@[i as int]@);
            text = text.concat("/").concat(self.components[i].as_str());
            i = i + 1;
        }
        assert(self@.take(self.components.len() as int) =~= self@);
        text
    }

    /// The two paths are the same.
    pub fn same_as(&self, other: &AbsolutePath) -> (r: bool)
        ensures
            r == (self@ == other@),
    {
        if self.components.len() != other.components.len() {
            assert(self@.len() != other@.len());
            return false;
        }
        let mut i: usize = 0;
        while i < self.components.len()
            invariant
                i <= self.components.len(),
                self.components.len() == other.components.len(),
                forall|k: int| 0 <= k < i ==> self@[k] == other@[k],
            decreases self.components.len() - i,
        {
            if self.components[i] != other.components[i] {
                assert(self@[i as int] != other@[i as int]);
                return false;
            }
            i = i + 1;
        }
        assert(self@ =~= other@);
        true
    }
}

/// A dependency file: its kind, and where it stands.
#[derive(Debug, PartialEq, Eq)]
pub struct DependencyFile {
    pub file_type: DependencyFileType,
    pub path: AbsolutePath,
}

/// What a `DependencyFile` stands for.
pub struct DependencyFileModel {
    pub file_type: DependencyFileType,
    pub path: Seq<Seq<char>>,
}

impl View for DependencyFile {
    type V = DependencyFileModel;

    open spec fn view(&self) -> DependencyFileModel {
        DependencyFileModel { file_type: self.file_type, path: self.path@ }
    }
}

impl Clone for DependencyFile {
    fn clone(&self) -> (r: DependencyFile)
        ensures
            r@ == self@,
    {
        DependencyFile { file_type: self.file_type, path: self.path.clone() }
    }
}

/// What a list of dependency files stands for.
pub open spec fn file_models(files: Seq<DependencyFile>) -> Seq<DependencyFileModel> {
    files.map_values(|file: DependencyFile| file@)
}

/// The paths that a list of paths holds.
pub open spec fn path_models(paths: Seq<AbsolutePath>) -> Seq<Seq<Seq<char>>> {
    paths.map_values(|path: AbsolutePath| path@)
}

/// The places in a directory where a dependency file may stand: one for
/// each kind, in the order of the kinds.
pub open spec fn candidates(directory: Seq<Seq<char>>) -> Seq<DependencyFileModel> {
    all_file_types().map_values(
        |kind: DependencyFileType|
            DependencyFileModel { file_type: kind, path: directory.push(kind.spec_file_name()) },
    )
}

/// Whether each candidate is among the regular files.
pub open spec fn presence(
    candidates: Seq<DependencyFileModel>,
    regular_files: Set<Seq<Seq<char>>>,
) -> Seq<bool> {
    candidates.map_values(|file: DependencyFileModel| regular_files.contains(file.path))
}

/// The candidates that are marked as present, in their order. A candidate
/// without a mark counts as absent.
pub open spec fn kept(candidates: Seq<DependencyFileModel>, present: Seq<bool>) -> Seq<
    DependencyFileModel,
>
    decreases candidates.len(),
{
    if candidates.len() == 0 {
        Seq::empty()
    } else {
        let last = candidates.len() - 1;
        let before = kept(candidates.drop_last(), present);
        if last < present.len() && present[last] {
            before.push(candidates[last])
        } else {
            before
        }
    }
}

/// The dependency files that stand in a directory.
pub open spec fn found_in(directory: Seq<Seq<char>>, regular_files: Set<Seq<Seq<char>>>) -> Seq<
    DependencyFileModel,
> {
    kept(candidates(directory), presence(candidates(directory), regular_files))
}

/// The dependency files of the nearest level, from the directory upwards,
/// that holds any; nothing where no level up to the root directory does.
pub open spec fn located(directory: Seq<Seq<char>>, regular_files: Set<Seq<Seq<char>>>) -> Option<
    Seq<DependencyFileModel>,
>
    decreases directory.len(),
{
    if found_in(directory, regular_files).len() > 0 {
        Some(found_in(directory, regular_files))
    } else if directory.len() == 0 {
        None
    } else {
        located(directory.drop_last(), regular_files)
    }
}

/// The dependency files located are those of one level at or above the
/// directory, and no level nearer to the directory holds any: the search
/// stops at the first level that does, and merges nothing from further up.
pub proof fn lemma_located_is_nearest(
    directory: Seq<Seq<char>>,
    regular_files: Set<Seq<Seq<char>>>,
)
    ensures
        match located(directory, regular_files) {
            Some(files) => exists|n: int|
                0 <= n <= directory.len() && files == found_in(
                    #[trigger] directory.take(n),
                    regular_files,
                ) && files.len() > 0 && forall|m: int|
                    n < m <= directory.len() ==> found_in(
                        #[trigger] directory.take(m),
                        regular_files,
                    ).len() == 0,
            None => forall|m: int|
                0 <= m <= directory.len() ==> found_in(
                    #[trigger] directory.take(m),
                    regular_files,
                ).len() == 0,
        },
    decreases directory.len(),
{
    let whole = directory.len() as int;
    assert(directory.take(whole) =~= directory);
    if found_in(directory, regular_files).len() > 0 {
        assert(found_in(directory.take(whole), regular_files).len() > 0);
    } else if directory.len() > 0 {
        let above = directory.drop_last();
        lemma_located_is_nearest(above, regular_files);
        assert forall|m: int| 0 <= m <= above.len() implies above.take(m) == #[trigger] directory.take(
            m,
        ) by {
            assert(above.take(m) =~= directory.take(m));
        }
        match located(above, regular_files) {
            Some(files) => {
                let n = choose|n: int|
                    0 <= n <= above.len() && files == found_in(
                        #[trigger] above.take(n),
                        regular_files,
                    ) && files.len() > 0 && forall|m: int|
                        n < m <= above.len() ==> found_in(
                            #[trigger] above.take(m),
                            regular_files,
                        ).len() == 0;
                assert(above.take(n) == directory.take(n));
                assert forall|m: int| n < m <= directory.len() implies found_in(
                    #[trigger] directory.take(m),
                    regular_files,
                ).len() == 0 by {
                    if m < whole {
                        assert(above.take(m) == directory.take(m));
                    }
                }
            },
            None => {
                assert forall|m: int| 0 <= m <= directory.len() implies found_in(
                    #[trigger] directory.take(m),
                    regular_files,
                ).len() == 0 by {
                    if m < whole {
                        assert(above.take(m) == directory.take(m));
                    }
                }
            },
        }
    } else {
        assert forall|m: int| 0 <= m <= directory.len() implies found_in(
            #[trigger] directory.take(m),
            regular_files,
        ).len() == 0 by {
            assert(directory.take(m) =~= directory);
        }
    }
}

/// What to do after one level has been looked at.
#[derive(Debug, PartialEq, Eq)]
pub enum SearchStep {
    /// The level holds these dependency files: the search is over.
    Found(Vec<DependencyFile>),
    /// The level holds none: look at this directory next.
    Ascend(AbsolutePath),
    /// The root directory holds none: the search is over.
    NotFound,
}

/// The places in a directory where a dependency file may stand.
pub fn candidate_files(directory: &AbsolutePath) -> (r: Vec<DependencyFile>)
    ensures
        file_models(r@) == candidates(directory@),
{
    let kinds = DependencyFileType::all();
    let mut files: Vec<DependencyFile> = Vec::new();
    let mut i: usize = 0;
    while i < kinds.len()
        invariant
            i <= kinds.len(),
            kinds@ == all_file_types(),
            files@.len() == i,
            forall|k: int| 0 <= k < i ==> (#[trigger] files@[k])@ == candidates(directory@)[k],
        decreases kinds.len() - i,
    {
        let kind = kinds[i];
        let name = kind.file_name();
        files.push(DependencyFile { file_type: kind, path: directory.join(name.as_str()) });
        i = i + 1;
    }
    assert(file_models(files@) =~= candidates(directory@));
    files
}

/// Decides how the search goes on from a directory, given which of its
/// candidates are regular files: with any of them present the search ends
/// there, and otherwise it goes on in the parent directory, or ends without
/// a result at the root directory.
pub fn search_step(directory: &AbsolutePath, candidates: &Vec<DependencyFile>, present: &Vec<bool>) -> (r:
    SearchStep)
    ensures
        match r {
            SearchStep::Found(files) => file_models(files@) == kept(
                file_models(candidates@),
                present@,
            ) && files@.len() > 0,
            SearchStep::Ascend(parent) => kept(file_models(candidates@), present@).len() == 0
                && directory@.len() > 0 && parent@ == directory@.drop_last(),
            SearchStep::NotFound => kept(file_models(candidates@), present@).len() == 0
                && directory@.len() == 0,
        },
{
    let mut found: Vec<DependencyFile> = Vec::new();
    let mut i: usize = 0;
    while i < candidates.len()
        invariant
            i <= candidates.len(),
            file_models(found@) == kept(file_models(candidates@).take(i as int), present@),
        decreases candidates.len() - i,
    {
        let ghost so_far = file_models(candidates@).take(i as int);
        let ghost next = file_models(candidates@).take(i as int + 1);
        assert(next.drop_last() =~= so_far);
        if i < present.len() && present[i] {
            found.push(candidates[i].clone());
            assert(file_models(found@) =~= kept(so_far, present@).push(next[i as int]));
        }
        i = i + 1;
    }
    assert(file_models(candidates@).take(candidates.len() as int) =~= file_models(candidates@));
    if found.len() > 0 {
        SearchStep::Found(found)
    } else if directory.is_root() {
        SearchStep::NotFound
    } else {
        SearchStep::Ascend(directory.parent())
    }
}

/// Whether a path is among the regular files.
fn is_regular_file(regular_files: &Vec<AbsolutePath>, path: &AbsolutePath) -> (r: bool)
    ensures
        r == path_models(regular_files@).to_set().contains(path@),
{
    let mut i: usize = 0;
    while i < regular_files.len()
        invariant
            i <= regular_files.len(),
            forall|k: int| 0 <= k < i ==> path_models(regular_files@)[k] != path@,
        decreases regular_files.len() - i,
    {
        if regular_files[i].same_as(path) {
            assert(path_models(regular_files@)[i as int] == path@);
            assert(path_models(regular_files@).contains(path@));
            return true;
        }
        i = i + 1;
    }
    assert(!path_models(regular_files@).contains(path@));
    false
}

/// Finds the dependency files that belong to a working directory: those of
/// the nearest level, from the working directory upwards, that holds at
/// least one among the regular files given. A level further up is never
/// looked at once one is found, and none is found where no level up to the
/// root directory holds one.
pub fn identify_dependency_files(
    working_directory: &AbsolutePath,
    regular_files: &Vec<AbsolutePath>,
) -> (r: Option<Vec<DependencyFile>>)
    ensures
        match r {
            Some(files) => located(working_directory@, path_models(regular_files@).to_set())
                == Some(file_models(files@)),
            None => located(working_directory@, path_models(regular_files@).to_set()) is None,
        },
{
    let ghost listing = path_models(regular_files@).to_set();
    let mut directory = working_directory.clone();
    loop
        invariant
            listing == path_models(regular_files@).to_set(),
            located(working_directory@, listing) == located(directory@, listing),
        decreases directory@.len(),
    {
        let files = candidate_files(&directory);
        let mut present: Vec<bool> = Vec::new();
        let mut i: usize = 0;
        while i < files.len()
            invariant
                i <= files.len(),
                listing == path_models(regular_files@).to_set(),
                present@ == presence(file_models(files@), listing).take(i as int),
            decreases files.len() - i,
        {
            let here = is_regular_file(regular_files, &files[i].path);
            present.push(here);
            assert(present@ =~= presence(file_models(files@), listing).take(i as int + 1));
            i = i + 1;
        }
        assert(presence(file_models(files@), listing).take(files.len() as int) =~= presence(
            file_models(files@),
            listing,
        ));
        match search_step(&directory, &files, &present) {
            SearchStep::Found(found) => {
                return Some(found);
            },
            SearchStep::Ascend(parent) => {
                directory = parent;
            },
            SearchStep::NotFound => {
                return None;
            },
        }
    }
}

} // verus!
