use vstd::prelude::*;
use vstd::string::*;
use crate::types::{CleanTarget, ScanResult};
use crate::utils::{
    text_eq,
    is_vcs_dir,
    is_artifact_root,
    is_vcs_name,
    is_artifact_root_name,
};

verus! {

/// Which marker files a directory holds.
#[derive(Debug, Clone, Copy, PartialEq, Eq, Structural)]
pub struct Markers {
    pub package_json: bool,
    pub cargo_toml: bool,
    pub pom_xml: bool,
    pub build_gradle: bool,
    pub build_gradle_kts: bool,
}

/// One entry of a directory listing. `is_dir` is false for a symbolic link,
/// which is never followed.
#[derive(Debug)]
pub struct DirEntryInfo {
    pub name: String,
    pub is_dir: bool,
}

pub open spec fn has_entry(entries: Seq<DirEntryInfo>, name: Seq<char>) -> bool {
    exists|i: int| 0 <= i < entries.len() && #[trigger] entries[i].name@ == name
}

/// The markers that a listing shows.
pub open spec fn markers_in(entries: Seq<DirEntryInfo>) -> Markers {
    Markers {
        package_json: has_entry(entries, "package.json"@),
        cargo_toml: has_entry(entries, "Cargo.toml"@),
        pom_xml: has_entry(entries, "pom.xml"@),
        build_gradle: has_entry(entries, "build.gradle"@),
        build_gradle_kts: has_entry(entries, "build.gradle.kts"@),
    }
}

pub open spec fn is_python_cache_name(s: Seq<char>) -> bool {
    s == "__pycache__"@ || s == ".pytest_cache"@ || s == ".tox"@ || s == ".mypy_cache"@
}

/// The kind of a directory named `name` whose parent holds `m`, if it is a target.
pub open spec fn classify(name: Seq<char>, m: Markers) -> Option<CleanTarget> {
    if name == "node_modules"@ {
        Some(CleanTarget::NodeModules)
    } else if name == "target"@ {
        if m.cargo_toml {
            Some(CleanTarget::RustTarget)
        } else if m.pom_xml || m.build_gradle || m.build_gradle_kts {
            Some(CleanTarget::JavaTarget)
        } else {
            None
        }
    } else if name == "build"@ {
        if m.build_gradle || m.build_gradle_kts {
            Some(CleanTarget::JavaTarget)
        } else {
            None
        }
    } else if is_python_cache_name(name) {
        Some(CleanTarget::PythonCache)
    } else {
        None
    }
}

/// The path of `name` inside the directory at `dir`.
pub open spec fn child_path(dir: Seq<char>, name: Seq<char>) -> Seq<char> {
    dir + "/"@ + name
}

/// The path reached from `root` through the components `comps`.
pub open spec fn join_path(root: Seq<char>, comps: Seq<Seq<char>>) -> Seq<char>
    decreases comps.len(),
{
    if comps.len() == 0 {
        root
    } else {
        child_path(join_path(root, comps.drop_last()), comps.last())
    }
}

/// A directory that the walk lists: no component is a version-control
/// directory or a directory of build artifacts.
pub open spec fn listable(comps: Seq<Seq<char>>) -> bool {
    forall|i: int|
        0 <= i < comps.len() ==> !is_vcs_name(#[trigger] comps[i]) && !is_artifact_root_name(
            comps[i],
        )
}

/// A directory that the walk reports: no component is a version-control
/// directory, and only the last may be a directory of build artifacts.
pub open spec fn visible(comps: Seq<Seq<char>>) -> bool {
    &&& comps.len() > 0
    &&& listable(comps.drop_last())
    &&& !is_vcs_name(comps.last())
}

/// A path under `root` that the walk may report.
pub open spec fn visible_under(root: Seq<char>, p: Seq<char>) -> bool {
    exists|c: Seq<Seq<char>>| #[trigger] join_path(root, c) == p && visible(c)
}

/// Whether a directory at depth `d` may be listed: its entries lie at depth `d + 1`.
pub open spec fn depth_allows(max_depth: Option<usize>, d: int) -> bool {
    match max_depth {
        Some(m) => d < m,
        None => d < usize::MAX,
    }
}

/// The kind of a directory named `dir_name` whose parent holds `markers`.
pub fn classify_dir(dir_name: &str, markers: &Markers) -> (r: Option<CleanTarget>)
    ensures
        r == classify(dir_name@, *markers),
{
    if text_eq(dir_name, "node_modules") {
        Some(CleanTarget::NodeModules)
    } else if text_eq(dir_name, "target") {
        if markers.cargo_toml {
            Some(CleanTarget::RustTarget)
        } else if markers.pom_xml || markers.build_gradle || markers.build_gradle_kts {
            Some(CleanTarget::JavaTarget)
        } else {
            None
        }
    } else if text_eq(dir_name, "build") {
        if markers.build_gradle || markers.build_gradle_kts {
            Some(CleanTarget::JavaTarget)
        } else {
            None
        }
    } else if text_eq(dir_name, "__pycache__") || text_eq(dir_name, ".pytest_cache")
        || text_eq(dir_name, ".tox") || text_eq(dir_name, ".mypy_cache") {
        Some(CleanTarget::PythonCache)
    } else {
        None
    }
}

/// Finds the directories of build artifacts under a root.
pub struct Scanner {
    target: CleanTarget,
    max_depth: Option<usize>,
    verbose: bool,
}

impl Scanner {
    pub closed spec fn spec_target(self) -> CleanTarget {
        self.target
    }

    pub closed spec fn spec_max_depth(self) -> Option<usize> {
        self.max_depth
    }

    pub closed spec fn spec_verbose(self) -> bool {
        self.verbose
    }

    /// A scanner for directories of kind `target` (or of every kind, for `All`), at any depth.
    pub fn new(target: CleanTarget) -> (r: Scanner)
        ensures
            r.spec_target() == target,
            r.spec_max_depth() == None::<usize>,
            !r.spec_verbose(),
    {
        Scanner { target, max_depth: None, verbose: false }
    }

    /// The same scanner, reporting nothing deeper than `depth` below the root.
    pub fn with_max_depth(self, depth: usize) -> (r: Scanner)
        ensures
            r.spec_target() == self.spec_target(),
            r.spec_max_depth() == Some(depth),
            r.spec_verbose() == self.spec_verbose(),
    {
        Scanner { max_depth: Some(depth), ..self }
    }

    /// The same scanner, with diagnostics on or off.
    pub fn with_verbose(self, verbose: bool) -> (r: Scanner)
        ensures
            r.spec_target() == self.spec_target(),
            r.spec_max_depth() == self.spec_max_depth(),
            r.spec_verbose() == verbose,
    {
        Scanner { verbose, ..self }
    }

    pub fn is_verbose(&self) -> (r: bool)
        ensures
            r == self.spec_verbose(),
    {
        self.verbose
    }

    /// The kind of a directory named `dir_name` whose parent holds `markers`.
    pub fn identify_target(&self, dir_name: &str, markers: &Markers) -> (r: Option<CleanTarget>)
        ensures
            r == classify(dir_name@, *markers),
    {
        classify_dir(dir_name, markers)
    }

    /// Starts a walk of the directory at `root`, whose own name is `root_name`
    /// (empty where it has none).
    pub fn walk(&self, root: String, root_name: &str) -> (w: Walk)
        ensures
            w.wf(),
            w.root() == root@,
            w.spec_target() == self.spec_target(),
            w.spec_max_depth() == self.spec_max_depth(),
            w.pending_paths() == (if depth_allows(self.spec_max_depth(), 0) && !is_artifact_root_name(
                root_name@,
            ) {
                seq![root@]
            } else {
                Seq::<Seq<char>>::empty()
            }),
    {
        let mut pending: Vec<PendingDir> = Vec::new();
        let descend = match self.max_depth {
            Some(m) => 0 < m,
            None => true,
        };
        if descend && !is_artifact_root(root_name) {
            let first = PendingDir {
                path: root.clone(),
                depth: 0,
                comps: Ghost(Seq::<Seq<char>>::empty()),
            };
            pending.push(first);
        }
        let w = Walk { target: self.target, max_depth: self.max_depth, root, pending };
        assert(w.wf());
        assert(w.pending_paths() =~= (if descend && !is_artifact_root_name(root_name@) {
            seq![w.root@]
        } else {
            Seq::<Seq<char>>::empty()
        }));
        w
    }
}

/// The marker files that a listing holds.
pub fn markers_of(entries: &Vec<DirEntryInfo>) -> (m: Markers)
    ensures
        m == markers_in(entries@),
{
    let mut m = Markers {
        package_json: false,
        cargo_toml: false,
        pom_xml: false,
        build_gradle: false,
        build_gradle_kts: false,
    };
    let mut i: usize = 0;
    while i < entries.len()
        invariant
            i <= entries@.len(),
            m == markers_in(entries@.subrange(0, i as int)),
        decreases entries@.len() - i,
    {
        let ghost before = entries@.subrange(0, i as int);
        let ghost after = entries@.subrange(0, i + 1);
        assert(after =~= before.push(entries@[i as int]));
        assert forall|name: Seq<char>|
            #![trigger has_entry(after, name)]
            has_entry(after, name) == (has_entry(before, name) || entries@[i as int].name@
                == name) by {
            if has_entry(after, name) {
                let j = choose|j: int| 0 <= j < after.len() && #[trigger] after[j].name@ == name;
                if j < i {
                    assert(before[j].name@ == name);
                }
            }
            if has_entry(before, name) {
                let j = choose|j: int| 0 <= j < before.len() && #[trigger] before[j].name@ == name;
                assert(after[j].name@ == name);
            }
            if entries@[i as int].name@ == name {
                assert(after[i as int].name@ == name);
            }
        }
        let name = entries[i].name.as_str();
        if text_eq(name, "package.json") {
            m.package_json = true;
        }
        if text_eq(name, "Cargo.toml") {
            m.cargo_toml = true;
        }
        if text_eq(name, "pom.xml") {
            m.pom_xml = true;
        }
        if text_eq(name, "build.gradle") {
            m.build_gradle = true;
        }
        if text_eq(name, "build.gradle.kts") {
            m.build_gradle_kts = true;
        }
        i = i + 1;
    }
    assert(entries@.subrange(0, i as int) =~= entries@);
    m
}

/// A directory that a walk has yet to list.
pub struct PendingDir {
    pub path: String,
    pub depth: usize,
    pub comps: Ghost<Seq<Seq<char>>>,
}

impl PendingDir {
    /// The directory lies at `depth`, at the path its components give, and may be listed.
    pub open spec fn wf_under(self, root: Seq<char>, max_depth: Option<usize>) -> bool {
        &&& self.depth == self.comps@.len()
        &&& self.path@ == join_path(root, self.comps@)
        &&& listable(self.comps@)
        &&& depth_allows(max_depth, self.depth as int)
    }
}

/// The target that entry `e` of the directory at `dir` is, if the filter keeps it.
pub open spec fn entry_target(
    filter: CleanTarget,
    dir: Seq<char>,
    m: Markers,
    e: DirEntryInfo,
) -> Option<(Seq<char>, CleanTarget)> {
    if e.is_dir && !is_vcs_name(e.name@) {
        match classify(e.name@, m) {
            Some(k) => if filter.spec_should_clean(k) {
                Some((child_path(dir, e.name@), k))
            } else {
                None
            },
            None => None,
        }
    } else {
        None
    }
}

/// The path the walk goes on into for entry `e` of the directory at `dir`, if any:
/// a directory that is neither version control nor build artifacts.
pub open spec fn subdir_to_list(dir: Seq<char>, e: DirEntryInfo) -> Option<Seq<char>> {
    if e.is_dir && !is_vcs_name(e.name@) && !is_artifact_root_name(e.name@) {
        Some(child_path(dir, e.name@))
    } else {
        None
    }
}

/// A depth-first walk, fed one directory listing at a time.
pub struct Walk {
    target: CleanTarget,
    max_depth: Option<usize>,
    root: String,
    pending: Vec<PendingDir>,
}

impl Walk {
    pub closed spec fn root(self) -> Seq<char> {
        self.root@
    }

    pub closed spec fn spec_target(self) -> CleanTarget {
        self.target
    }

    pub closed spec fn spec_max_depth(self) -> Option<usize> {
        self.max_depth
    }

    /// The directories left to list; the last is listed next.
    pub closed spec fn pending_paths(self) -> Seq<Seq<char>> {
        self.pending@.map_values(|d: PendingDir| d.path@)
    }

    /// Every directory left to list may be listed.
    pub closed spec fn wf(self) -> bool {
        forall|i: int|
            0 <= i < self.pending@.len() ==> (#[trigger] self.pending@[i]).wf_under(
                self.root@,
                self.max_depth,
            )
    }

    /// The next directory to list, if any is left. It never lies inside a
    /// version-control directory or a directory of build artifacts.
    pub fn next_dir(&mut self) -> (r: Option<PendingDir>)
        requires
            old(self).wf(),
        ensures
            final(self).wf(),
            final(self).root() == old(self).root(),
            final(self).spec_target() == old(self).spec_target(),
            final(self).spec_max_depth() == old(self).spec_max_depth(),
            old(self).pending_paths().len() == 0 ==> r is None && final(self).pending_paths().len()
                == 0,
            old(self).pending_paths().len() > 0 ==> (r matches Some(d) && d.path@ == old(
                self,
            ).pending_paths().last() && final(self).pending_paths() == old(
                self,
            ).pending_paths().drop_last()),
            r matches Some(d) ==> d.wf_under(old(self).root(), old(self).spec_max_depth()),
    {
        let r = self.pending.pop();
        proof {
            if old(self).pending@.len() > 0 {
                assert(self.pending@.map_values(|d: PendingDir| d.path@) =~= old(
                    self,
                ).pending@.map_values(|d: PendingDir| d.path@).drop_last());
            }
        }
        r
    }

    /// Takes in the listing of `dir`: returns the targets among its entries that the
    /// filter keeps, each with nothing counted yet, and queues the
    /// subdirectories to go on into.
    pub fn visit(&mut self, dir: &PendingDir, entries: &Vec<DirEntryInfo>) -> (r: Vec<ScanResult>)
        requires
            old(self).wf(),
            dir.wf_under(old(self).root(), old(self).spec_max_depth()),
        ensures
            final(self).wf(),
            final(self).root() == old(self).root(),
            final(self).spec_target() == old(self).spec_target(),
            final(self).spec_max_depth() == old(self).spec_max_depth(),
            r@.map_values(|s: ScanResult| (s.path@, s.target_type)) == entries@.filter_map(
                |e: DirEntryInfo|
                    entry_target(old(self).spec_target(), dir.path@, markers_in(entries@), e),
            ),
            forall|j: int|
                0 <= j < r@.len() ==> (#[trigger] r@[j]).size == 0 && r@[j].file_count == 0
                    && visible_under(old(self).root(), r@[j].path@),
            final(self).pending_paths() == old(self).pending_paths() + (if depth_allows(
                old(self).spec_max_depth(),
                dir.depth + 1,
            ) {
                entries@.filter_map(|e: DirEntryInfo| subdir_to_list(dir.path@, e))
            } else {
                Seq::<Seq<char>>::empty()
            }),
    {
        let markers = markers_of(entries);
        let ghost m = markers_in(entries@);
        let ghost filter = self.target;
        let ghost root = self.root@;
        let ghost old_paths = self.pending@.map_values(|d: PendingDir| d.path@);
        let ghost f = |e: DirEntryInfo| entry_target(filter, dir.path@, m, e);
        let ghost p = |e: DirEntryInfo| subdir_to_list(dir.path@, e);
        let go_on = match self.max_depth {
            Some(mx) => dir.depth + 1 < mx,
            None => dir.depth + 1 < usize::MAX,
        };
        let mut found: Vec<ScanResult> = Vec::new();
        let mut i: usize = 0;
        while i < entries.len()
            invariant
                i <= entries@.len(),
                markers == m,
                m == markers_in(entries@),
                filter == self.target,
                root == self.root@,
                self.target == old(self).target,
                self.root@ == old(self).root@,
                self.max_depth == old(self).max_depth,
                dir.wf_under(root, self.max_depth),
                go_on == depth_allows(self.max_depth, dir.depth + 1),
                f == (|e: DirEntryInfo| entry_target(filter, dir.path@, m, e)),
                p == (|e: DirEntryInfo| subdir_to_list(dir.path@, e)),
                self.wf(),
                found@.map_values(|s: ScanResult| (s.path@, s.target_type))
                    == entries@.subrange(0, i as int).filter_map(f),
                forall|j: int|
                    0 <= j < found@.len() ==> (#[trigger] found@[j]).size == 0
                        && found@[j].file_count == 0 && visible_under(root, found@[j].path@),
                self.pending@.map_values(|d: PendingDir| d.path@) == old_paths + (if go_on {
                    entries@.subrange(0, i as int).filter_map(p)
                } else {
                    Seq::<Seq<char>>::empty()
                }),
            decreases entries@.len() - i,
        {
            let e = &entries[i];
            let ghost sub = entries@.subrange(0, i as int);
            assert(entries@.subrange(0, i + 1) =~= sub.push(*e));
            assert(sub.push(*e).drop_last() =~= sub);
            let ghost comps = dir.comps@.push(e.name@);
            assert(comps.drop_last() =~= dir.comps@);
            assert(join_path(root, comps) == child_path(dir.path@, e.name@));
            if e.is_dir && !is_vcs_dir(e.name.as_str()) {
                let kind = classify_dir(e.name.as_str(), &markers);
                let ghost before = found@;
                match kind {
                    Some(k) => {
                        if self.target.should_clean(&k) {
                            let full = dir.path.clone().concat("/").concat(e.name.as_str());
                            assert(full@ == child_path(dir.path@, e.name@));
                            assert(visible(comps));
                            assert(visible_under(root, full@));
                            found.push(ScanResult::new(full, k));
                            assert(found@.map_values(|s: ScanResult| (s.path@, s.target_type))
                                =~= before.map_values(|s: ScanResult| (s.path@, s.target_type))
                                + seq![(full@, k)]);
                        }
                    },
                    None => {},
                }
                if go_on && !is_artifact_root(e.name.as_str()) {
                    let child = PendingDir {
                        path: dir.path.clone().concat("/").concat(e.name.as_str()),
                        depth: dir.depth + 1,
                        comps: Ghost(comps),
                    };
                    assert(listable(comps)) by {
                        assert forall|j: int| 0 <= j < comps.len() implies !is_vcs_name(
                            #[trigger] comps[j],
                        ) && !is_artifact_root_name(comps[j]) by {
                            if j < dir.comps@.len() {
                                assert(comps[j] == dir.comps@[j]);
                            }
                        }
                    }
                    let ghost before = self.pending@;
                    self.pending.push(child);
                    proof {
                        assert(self.pending@.map_values(|d: PendingDir| d.path@) =~= before.map_values(
                            |d: PendingDir| d.path@,
                        ).push(child_path(dir.path@, e.name@)));
                    }
                }
            }
            i = i + 1;
        }
        assert(entries@.subrange(0, i as int) =~= entries@);
        proof {
            if !go_on {
                assert(old_paths + Seq::<Seq<char>>::empty() =~= old_paths);
            }
        }
        found
    }
}

} // verus!
