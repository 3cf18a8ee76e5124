use vstd::prelude::*;

verus! {

/// Kinds of disposable build-artifact directories, plus `All` as a filter.
#[derive(Debug, Clone, Copy, PartialEq, Eq, Structural)]
pub enum CleanTarget {
    NodeModules,
    RustTarget,
    PythonCache,
    JavaTarget,
    All,
}

/// The concrete kinds, in a fixed order.
pub open spec fn concrete_kinds() -> Seq<CleanTarget> {
    seq![
        CleanTarget::NodeModules,
        CleanTarget::RustTarget,
        CleanTarget::PythonCache,
        CleanTarget::JavaTarget,
    ]
}

/// A kind that a scan result can carry (every kind but the `All` filter).
pub open spec fn is_concrete(k: CleanTarget) -> bool {
    k != CleanTarget::All
}

impl CleanTarget {
    pub open spec fn spec_name(self) -> Seq<char> {
        match self {
            CleanTarget::NodeModules => "node_modules"@,
            CleanTarget::RustTarget => "rust target"@,
            CleanTarget::PythonCache => "python __pycache__"@,
            CleanTarget::JavaTarget => "java target/build"@,
            CleanTarget::All => "all"@,
        }
    }

    /// Whether a filter of kind `self` keeps a directory of kind `other`.
    pub open spec fn spec_should_clean(self, other: CleanTarget) -> bool {
        self == CleanTarget::All || self == other
    }

    /// All concrete kinds (`All` excluded).
    pub fn all_targets() -> (r: Vec<CleanTarget>)
        ensures
            r@ == concrete_kinds(),
    {
        let r = vec![
            CleanTarget::NodeModules,
            CleanTarget::RustTarget,
            CleanTarget::PythonCache,
            CleanTarget::JavaTarget,
        ];
        assert(r@ =~= concrete_kinds());
        r
    }

    /// Display name of the kind.
    pub fn name(&self) -> (r: &'static str)
        ensures
            r@ == self.spec_name(),
    {
        match self {
            CleanTarget::NodeModules => "node_modules",
            CleanTarget::RustTarget => "rust target",
            CleanTarget::PythonCache => "python __pycache__",
            CleanTarget::JavaTarget => "java target/build",
            CleanTarget::All => "all",
        }
    }

    /// Whether a filter of kind `self` keeps a directory of kind `other`.
    pub fn should_clean(&self, other: &CleanTarget) -> (r: bool)
        ensures
            r == self.spec_should_clean(*other),
    {
        match self {
            CleanTarget::All => true,
            _ => *self == *other,
        }
    }
}

/// A directory found by a scan: where it is, its kind, and what it holds.
#[derive(Debug, Clone)]
pub struct ScanResult {
    pub path: String,
    pub target_type: CleanTarget,
    pub size: u64,
    pub file_count: usize,
}

impl ScanResult {
    /// A result with nothing counted yet.
    pub fn new(path: String, target_type: CleanTarget) -> (r: ScanResult)
        ensures
            r.path == path,
            r.target_type == target_type,
            r.size == 0,
            r.file_count == 0,
    {
        ScanResult { path, target_type, size: 0, file_count: 0 }
    }
}

/// Totals of a cleanup run.
#[derive(Debug)]
pub struct CleanStats {
    pub total_size: u64,
    pub total_files: usize,
    pub total_dirs: usize,
    pub node_modules: usize,
    pub rust_targets: usize,
    pub python_caches: usize,
    pub java_targets: usize,
    pub failed_dirs: usize,
    pub skipped_dirs: usize,
}

impl Default for CleanStats {
    fn default() -> (r: CleanStats)
        ensures
            r.is_empty(),
    {
        CleanStats {
            total_size: 0,
            total_files: 0,
            total_dirs: 0,
            node_modules: 0,
            rust_targets: 0,
            python_caches: 0,
            java_targets: 0,
            failed_dirs: 0,
            skipped_dirs: 0,
        }
    }
}

impl CleanStats {
    pub open spec fn is_empty(self) -> bool {
        &&& self.total_size == 0
        &&& self.total_files == 0
        &&& self.total_dirs == 0
        &&& self.node_modules == 0
        &&& self.rust_targets == 0
        &&& self.python_caches == 0
        &&& self.java_targets == 0
        &&& self.failed_dirs == 0
        &&& self.skipped_dirs == 0
    }

    /// How many directories of kind `k` were counted.
    pub open spec fn kind_count(self, k: CleanTarget) -> int {
        match k {
            CleanTarget::NodeModules => self.node_modules as int,
            CleanTarget::RustTarget => self.rust_targets as int,
            CleanTarget::PythonCache => self.python_caches as int,
            CleanTarget::JavaTarget => self.java_targets as int,
            CleanTarget::All => 0,
        }
    }

    /// Directories accounted for, whatever became of them.
    pub open spec fn accounted(self) -> int {
        self.total_dirs + self.failed_dirs + self.skipped_dirs
    }

    /// Counting `r` as freed overflows none of the counters.
    pub open spec fn can_add(self, r: ScanResult) -> bool {
        &&& self.total_size + r.size <= u64::MAX
        &&& self.total_files + r.file_count <= usize::MAX
        &&& self.total_dirs < usize::MAX
        &&& self.kind_count(r.target_type) < usize::MAX
    }

    /// Records `result` as freed: its size, files, and one directory of its kind.
    pub fn add_result(&mut self, result: &ScanResult)
        requires
            old(self).can_add(*result),
        ensures
            final(self).total_size == old(self).total_size + result.size,
            final(self).total_files == old(self).total_files + result.file_count,
            final(self).total_dirs == old(self).total_dirs + 1,
            forall|k: CleanTarget|
                #[trigger] final(self).kind_count(k) == old(self).kind_count(k) + (if k
                    == result.target_type && is_concrete(k) {
                    1int
                } else {
                    0int
                }),
            final(self).failed_dirs == old(self).failed_dirs,
            final(self).skipped_dirs == old(self).skipped_dirs,
    {
        self.total_size = self.total_size + result.size;
        self.total_files = self.total_files + result.file_count;
        self.total_dirs = self.total_dirs + 1;
        match result.target_type {
            CleanTarget::NodeModules => self.node_modules = self.node_modules + 1,
            CleanTarget::RustTarget => self.rust_targets = self.rust_targets + 1,
            CleanTarget::PythonCache => self.python_caches = self.python_caches + 1,
            CleanTarget::JavaTarget => self.java_targets = self.java_targets + 1,
            CleanTarget::All => {},
        }
    }

    /// Records one directory whose removal failed.
    pub fn add_failed(&mut self)
        requires
            old(self).failed_dirs < usize::MAX,
        ensures
            *final(self) == (CleanStats { failed_dirs: (old(self).failed_dirs + 1) as usize, ..*old(self) }),
    {
        self.failed_dirs = self.failed_dirs + 1;
    }

    /// Records one directory left in place.
    pub fn add_skipped(&mut self)
        requires
            old(self).skipped_dirs < usize::MAX,
        ensures
            *final(self) == (CleanStats { skipped_dirs: (old(self).skipped_dirs + 1) as usize, ..*old(self) }),
    {
        self.skipped_dirs = self.skipped_dirs + 1;
    }
}

} // verus!
