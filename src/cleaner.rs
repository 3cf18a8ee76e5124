use vstd::prelude::*;
use vstd::seq_lib::*;
use std::sync::Arc;
use std::sync::atomic::{AtomicBool, Ordering};
use crate::types::{CleanTarget, ScanResult, CleanStats, is_concrete};
use crate::scanner::Markers;
use crate::utils::{text_eq, text_ends_with, ends_with};

verus! {

/// What a check of a path found just before its removal.
#[derive(Debug, Clone, Copy, PartialEq, Eq, Structural)]
pub struct PathState {
    pub exists: bool,
    pub is_dir: bool,
    /// The caller may write to the directory.
    pub writable: bool,
    /// The path has a parent directory, whose markers follow.
    pub has_parent: bool,
    pub markers: Markers,
}

/// Why a directory was left in place.
#[derive(Debug, Clone, Copy, PartialEq, Eq, Structural)]
pub enum SkipReason {
    Missing,
    NotADirectory,
    NotWritable,
    MarkerMissing,
}

/// What became of one directory of a batch.
#[derive(Debug, Clone, Copy, PartialEq, Eq, Structural)]
pub enum ItemOutcome {
    /// Removed, or counted as if removed in a dry run.
    Freed,
    /// Left in place: a check failed, or the run was interrupted first.
    Skipped,
    /// Its removal was attempted and failed.
    Failed,
}

/// Whether the directory at `path` is named `build` (its last component).
pub open spec fn names_build_dir(path: Seq<char>) -> bool {
    path == "build"@ || ends_with(path, "/build"@)
}

/// Whether the marker that classified the directory at `path`, of kind `k`, is still
/// beside it: a package manifest for Node, a Cargo manifest for Rust, a Gradle
/// manifest for a `build` directory, and a Maven or Gradle manifest for a Java `target`.
pub open spec fn marker_holds(k: CleanTarget, path: Seq<char>, m: Markers) -> bool {
    match k {
        CleanTarget::NodeModules => m.package_json,
        CleanTarget::RustTarget => m.cargo_toml,
        CleanTarget::JavaTarget => if names_build_dir(path) {
            m.build_gradle || m.build_gradle_kts
        } else {
            m.pom_xml || m.build_gradle || m.build_gradle_kts
        },
        CleanTarget::PythonCache => true,
        CleanTarget::All => true,
    }
}

/// The checks before removing the directory at `path`, of kind `k`, in order.
pub open spec fn verdict(k: CleanTarget, path: Seq<char>, s: PathState) -> Result<(), SkipReason> {
    if !s.exists {
        Err(SkipReason::Missing)
    } else if !s.is_dir {
        Err(SkipReason::NotADirectory)
    } else if !s.writable {
        Err(SkipReason::NotWritable)
    } else if s.has_parent && !marker_holds(k, path, s.markers) {
        Err(SkipReason::MarkerMissing)
    } else {
        Ok(())
    }
}

/// Whether a directory is removed: never in a dry run, else when its checks pass.
pub open spec fn removes(dry_run: bool, r: ScanResult, s: PathState) -> bool {
    !dry_run && verdict(r.target_type, r.path@, s) is Ok
}

/// The outcome of one directory, from the checks and from whether its removal succeeded.
pub open spec fn outcome_of(dry_run: bool, r: ScanResult, s: PathState, removed: bool) -> ItemOutcome {
    if dry_run {
        ItemOutcome::Freed
    } else if verdict(r.target_type, r.path@, s) is Err {
        ItemOutcome::Skipped
    } else if removed {
        ItemOutcome::Freed
    } else {
        ItemOutcome::Failed
    }
}

/// Removes the directories a scan found, or counts them in a dry run.
pub struct Cleaner {
    dry_run: bool,
    verbose: bool,
    interrupt_flag: Option<Arc<AtomicBool>>,
    parallel: bool,
}

impl Cleaner {
    pub closed spec fn spec_dry_run(self) -> bool {
        self.dry_run
    }

    pub closed spec fn spec_verbose(self) -> bool {
        self.verbose
    }

    pub closed spec fn spec_parallel(self) -> bool {
        self.parallel
    }

    pub closed spec fn has_flag(self) -> bool {
        self.interrupt_flag is Some
    }

    /// A cleaner with parallel removal on and no interrupt flag.
    pub fn new(dry_run: bool, verbose: bool) -> (r: Cleaner)
        ensures
            r.spec_dry_run() == dry_run,
            r.spec_verbose() == verbose,
            r.spec_parallel(),
            !r.has_flag(),
    {
        Cleaner { dry_run, verbose, interrupt_flag: None, parallel: true }
    }

    pub fn with_parallel(self, parallel: bool) -> (r: Cleaner)
        ensures
            r.spec_dry_run() == self.spec_dry_run(),
            r.spec_verbose() == self.spec_verbose(),
            r.spec_parallel() == parallel,
            r.has_flag() == self.has_flag(),
    {
        Cleaner { parallel, ..self }
    }

    /// The same cleaner, watching `flag`: once it is set, no further directory is started.
    pub fn with_interrupt_flag(self, flag: Arc<AtomicBool>) -> (r: Cleaner)
        ensures
            r.spec_dry_run() == self.spec_dry_run(),
            r.spec_verbose() == self.spec_verbose(),
            r.spec_parallel() == self.spec_parallel(),
            r.has_flag(),
    {
        Cleaner { interrupt_flag: Some(flag), ..self }
    }

    pub fn is_dry_run(&self) -> (r: bool)
        ensures
            r == self.spec_dry_run(),
    {
        self.dry_run
    }

    pub fn is_verbose(&self) -> (r: bool)
        ensures
            r == self.spec_verbose(),
    {
        self.verbose
    }

    /// Whether the interrupt flag has been set. Without a flag, never.
    pub fn is_interrupted(&self) -> (r: bool)
        ensures
            !self.has_flag() ==> !r,
    {
        match &self.interrupt_flag {
            Some(flag) => flag.load(Ordering::SeqCst),
            None => false,
        }
    }

    /// Whether a batch of `n` directories is spread over worker threads: only with
    /// parallelism on, narration off and more than one directory.
    pub fn uses_parallel(&self, n: usize) -> (r: bool)
        ensures
            r == (self.spec_parallel() && !self.spec_verbose() && n > 1),
    {
        self.parallel && !self.verbose && n > 1
    }

    /// Whether the user is asked before anything is removed.
    pub fn asks_confirmation(&self, require_confirmation: bool) -> (r: bool)
        ensures
            r == (!self.spec_dry_run() && require_confirmation),
    {
        !self.dry_run && require_confirmation
    }

    /// Checks, just before removal, that the directory of `result` is still one
    /// that may be removed: it exists, is a directory, is writable, and the
    /// marker of its kind is still beside it.
    pub fn verify_before_delete(&self, result: &ScanResult, state: &PathState) -> (r: Result<
        (),
        SkipReason,
    >)
        ensures
            r == verdict(result.target_type, result.path@, *state),
    {
        if !state.exists {
            return Err(SkipReason::Missing);
        }
        if !state.is_dir {
            return Err(SkipReason::NotADirectory);
        }
        if !state.writable {
            return Err(SkipReason::NotWritable);
        }
        if !state.has_parent {
            return Ok(());
        }
        let m = &state.markers;
        let holds = match result.target_type {
            CleanTarget::NodeModules => m.package_json,
            CleanTarget::RustTarget => m.cargo_toml,
            CleanTarget::JavaTarget => {
                let path = result.path.as_str();
                if text_eq(path, "build") || text_ends_with(path, "/build") {
                    m.build_gradle || m.build_gradle_kts
                } else {
                    m.pom_xml || m.build_gradle || m.build_gradle_kts
                }
            },
            CleanTarget::PythonCache => true,
            CleanTarget::All => true,
        };
        if !holds {
            return Err(SkipReason::MarkerMissing);
        }
        Ok(())
    }

    /// Whether each path is inspected before its outcome is decided: never in a dry run.
    pub fn inspects(&self) -> (r: bool)
        ensures
            r == !self.spec_dry_run(),
    {
        !self.dry_run
    }

    /// Whether the directory of `result` is to be removed, given what its inspection found.
    pub fn should_remove(&self, result: &ScanResult, state: &PathState) -> (r: bool)
        ensures
            r == removes(self.spec_dry_run(), *result, *state),
    {
        !self.dry_run && self.verify_before_delete(result, state).is_ok()
    }

    /// What became of the directory of `result`, given what its inspection found
    /// and whether its removal succeeded.
    pub fn outcome(&self, result: &ScanResult, state: &PathState, removed: bool) -> (r:
        ItemOutcome)
        ensures
            r == outcome_of(self.spec_dry_run(), *result, *state, removed),
    {
        if self.dry_run {
            ItemOutcome::Freed
        } else if self.verify_before_delete(result, state).is_err() {
            ItemOutcome::Skipped
        } else if removed {
            ItemOutcome::Freed
        } else {
            ItemOutcome::Failed
        }
    }
}

/// The characters of the Unicode `White_Space` property.
pub open spec fn is_white_space(c: char) -> bool {
    ('\u{9}' <= c && c <= '\u{d}') || c == ' ' || c == '\u{85}' || c == '\u{a0}' || c
        == '\u{1680}' || ('\u{2000}' <= c && c <= '\u{200a}') || c == '\u{2028}' || c
        == '\u{2029}' || c == '\u{202f}' || c == '\u{205f}' || c == '\u{3000}'
}

/// `s` without its leading white space.
pub open spec fn trim_start(s: Seq<char>) -> Seq<char>
    decreases s.len(),
{
    if s.len() > 0 && is_white_space(s[0]) {
        trim_start(s.drop_first())
    } else {
        s
    }
}

/// `s` without its trailing white space.
pub open spec fn trim_end(s: Seq<char>) -> Seq<char>
    decreases s.len(),
{
    if s.len() > 0 && is_white_space(s.last()) {
        trim_end(s.drop_last())
    } else {
        s
    }
}

/// `s` without leading and trailing white space.
pub open spec fn trimmed(s: Seq<char>) -> Seq<char> {
    trim_end(trim_start(s))
}

/// What `str::to_lowercase` makes of a text.
pub uninterp spec fn lower_of(s: Seq<char>) -> Seq<char>;

/// The lower-case form of an ASCII character.
pub open spec fn ascii_lower(c: char) -> char {
    if 'A' <= c && c <= 'Z' {
        ((c as u32) + 32) as char
    } else {
        c
    }
}

/// Relies on `str::trim`: the text without leading and trailing characters of the
/// Unicode `White_Space` property.
#[verifier::external_body]
fn trim_text(s: &str) -> (r: &str)
    ensures
        r@ == trimmed(s@),
{
    s.trim()
}

/// Relies on `str::to_lowercase`: the lower-case form of the text, which depends on
/// the characters alone; on ASCII text it maps `A`..`Z` to `a`..`z` and keeps the rest.
#[verifier::external_body]
fn lowercase_text(s: &str) -> (r: String)
    ensures
        r@ == lower_of(s@),
        (forall|i: int| 0 <= i < s@.len() ==> (s@[i] as u32) < 128) ==> r@ == s@.map_values(
            |c: char| ascii_lower(c),
        ),
{
    s.to_lowercase()
}

/// Whether an answer, already trimmed and lower-cased, agrees.
pub fn is_yes(folded: &str) -> (r: bool)
    ensures
        r == (folded@ == "y"@ || folded@ == "yes"@),
{
    text_eq(folded, "y") || text_eq(folded, "yes")
}

/// Whether an answer to the confirmation prompt agrees: `y` or `yes` in any case,
/// with white space around it. Anything else, the empty answer too, declines.
pub fn is_affirmative(answer: &str) -> (r: bool)
    ensures
        r == (lower_of(trimmed(answer@)) == "y"@ || lower_of(trimmed(answer@)) == "yes"@),
        (forall|i: int|
            0 <= i < trimmed(answer@).len() ==> (trimmed(answer@)[i] as u32) < 128) ==> r == (
        trimmed(answer@).map_values(|c: char| ascii_lower(c)) == "y"@ || trimmed(answer@).map_values(
            |c: char| ascii_lower(c),
        ) == "yes"@),
{
    let folded = lowercase_text(trim_text(answer));
    is_yes(folded.as_str())
}

/// Sum of `f` over a log of outcomes.
pub open spec fn sum_by(log: Seq<(ScanResult, ItemOutcome)>, f: spec_fn((ScanResult, ItemOutcome)) -> int) -> int
    decreases log.len(),
{
    if log.len() == 0 {
        0
    } else {
        sum_by(log.drop_last(), f) + f(log.last())
    }
}

pub open spec fn freed_bytes(e: (ScanResult, ItemOutcome)) -> int {
    if e.1 is Freed {
        e.0.size as int
    } else {
        0
    }
}

pub open spec fn freed_files(e: (ScanResult, ItemOutcome)) -> int {
    if e.1 is Freed {
        e.0.file_count as int
    } else {
        0
    }
}

pub open spec fn is_freed(e: (ScanResult, ItemOutcome)) -> int {
    if e.1 is Freed {
        1
    } else {
        0
    }
}

pub open spec fn is_failed(e: (ScanResult, ItemOutcome)) -> int {
    if e.1 is Failed {
        1
    } else {
        0
    }
}

pub open spec fn is_skipped(e: (ScanResult, ItemOutcome)) -> int {
    if e.1 is Skipped {
        1
    } else {
        0
    }
}

/// One if `e` is a freed directory of the concrete kind `k`.
pub open spec fn freed_of_kind(k: CleanTarget) -> spec_fn((ScanResult, ItemOutcome)) -> int {
    |e: (ScanResult, ItemOutcome)|
        if e.1 is Freed && e.0.target_type == k && is_concrete(k) {
            1int
        } else {
            0int
        }
}

/// The totals that a log of outcomes comes to, plus `extra_skips` directories never started.
pub open spec fn tallies(s: CleanStats, log: Seq<(ScanResult, ItemOutcome)>, extra_skips: int) -> bool {
    &&& s.total_size == sum_by(log, |e| freed_bytes(e))
    &&& s.total_files == sum_by(log, |e| freed_files(e))
    &&& s.total_dirs == sum_by(log, |e| is_freed(e))
    &&& forall|k: CleanTarget| #[trigger] s.kind_count(k) == sum_by(log, freed_of_kind(k))
    &&& s.failed_dirs == sum_by(log, |e| is_failed(e))
    &&& s.skipped_dirs == sum_by(log, |e| is_skipped(e)) + extra_skips
}

/// The outcomes of one batch of `total` directories, gathered one at a time, from any
/// number of workers that share it under a lock.
pub struct Batch {
    stats: CleanStats,
    total: usize,
    log: Ghost<Seq<(ScanResult, ItemOutcome)>>,
}

impl Batch {
    pub closed spec fn spec_total(self) -> int {
        self.total as int
    }

    /// The outcomes recorded so far, in the order they came.
    pub closed spec fn spec_log(self) -> Seq<(ScanResult, ItemOutcome)> {
        self.log@
    }

    pub closed spec fn spec_stats(self) -> CleanStats {
        self.stats
    }

    pub closed spec fn wf(self) -> bool {
        &&& self.log@.len() <= self.total
        &&& tallies(self.stats, self.log@, 0)
    }

    /// A batch of `total` directories with nothing recorded.
    pub fn new(total: usize) -> (b: Batch)
        ensures
            b.wf(),
            b.spec_total() == total,
            b.spec_log() == Seq::<(ScanResult, ItemOutcome)>::empty(),
            b.spec_stats().is_empty(),
    {
        let stats = CleanStats::default();
        let b = Batch { stats, total, log: Ghost(Seq::empty()) };
        proof {
            assert forall|k: CleanTarget| #[trigger] b.stats.kind_count(k) == sum_by(
                b.log@,
                freed_of_kind(k),
            ) by {}
        }
        b
    }

    /// How many outcomes were recorded.
    pub fn processed(&self) -> (r: usize)
        requires
            self.wf(),
        ensures
            r == self.spec_log().len(),
    {
        proof {
            lemma_counts(self.log@);
        }
        self.stats.total_dirs + self.stats.failed_dirs + self.stats.skipped_dirs
    }

    pub fn total(&self) -> (r: usize)
        ensures
            r == self.spec_total(),
    {
        self.total
    }

    /// The totals recorded so far.
    pub fn stats(&self) -> (r: &CleanStats)
        ensures
            *r == self.spec_stats(),
    {
        &self.stats
    }

    /// Whether the next directory may be started, given whether the interrupt flag
    /// was seen set: only before any interrupt, and while some directory has no outcome.
    pub fn may_start(&self, interrupted: bool) -> (r: bool)
        requires
            self.wf(),
        ensures
            r == (!interrupted && self.spec_log().len() < self.spec_total()),
    {
        !interrupted && self.processed() < self.total
    }

    /// Whether recording `outcome` for `result` keeps the byte and file totals within their types.
    pub open spec fn spec_can_record(self, result: ScanResult, outcome: ItemOutcome) -> bool {
        outcome is Freed ==> {
            &&& self.spec_stats().total_size + result.size <= u64::MAX
            &&& self.spec_stats().total_files + result.file_count <= usize::MAX
        }
    }

    pub fn can_record(&self, result: &ScanResult, outcome: ItemOutcome) -> (r: bool)
        ensures
            r == self.spec_can_record(*result, outcome),
    {
        match outcome {
            ItemOutcome::Freed => result.size <= u64::MAX - self.stats.total_size
                && result.file_count <= usize::MAX - self.stats.total_files,
            _ => true,
        }
    }

    /// Records the outcome of one directory.
    pub fn record(&mut self, result: &ScanResult, outcome: ItemOutcome)
        requires
            old(self).wf(),
            old(self).spec_log().len() < old(self).spec_total(),
            old(self).spec_can_record(*result, outcome),
        ensures
            final(self).wf(),
            final(self).spec_total() == old(self).spec_total(),
            final(self).spec_log() == old(self).spec_log().push((*result, outcome)),
            outcome is Freed ==> {
                &&& final(self).spec_stats().total_size == old(self).spec_stats().total_size
                    + result.size
                &&& final(self).spec_stats().total_files == old(self).spec_stats().total_files
                    + result.file_count
                &&& final(self).spec_stats().total_dirs == old(self).spec_stats().total_dirs + 1
                &&& forall|k: CleanTarget|
                    #[trigger] final(self).spec_stats().kind_count(k) == old(
                        self,
                    ).spec_stats().kind_count(k) + (if k == result.target_type && is_concrete(k) {
                        1int
                    } else {
                        0int
                    })
                &&& final(self).spec_stats().failed_dirs == old(self).spec_stats().failed_dirs
                &&& final(self).spec_stats().skipped_dirs == old(self).spec_stats().skipped_dirs
            },
            outcome is Failed ==> final(self).spec_stats() == (CleanStats {
                failed_dirs: (old(self).spec_stats().failed_dirs + 1) as usize,
                ..old(self).spec_stats()
            }),
            outcome is Skipped ==> final(self).spec_stats() == (CleanStats {
                skipped_dirs: (old(self).spec_stats().skipped_dirs + 1) as usize,
                ..old(self).spec_stats()
            }),
    {
        let ghost e = (*result, outcome);
        let ghost log2 = self.log@.push(e);
        let ghost before = self.stats;
        proof {
            lemma_counts(self.log@);
            assert(log2.drop_last() =~= self.log@);
            lemma_kind_le_freed(self.log@, result.target_type);
        }
        match outcome {
            ItemOutcome::Freed => self.stats.add_result(result),
            ItemOutcome::Failed => self.stats.add_failed(),
            ItemOutcome::Skipped => self.stats.add_skipped(),
        }
        self.log = Ghost(log2);
        proof {
            assert forall|k: CleanTarget| #[trigger] self.stats.kind_count(k) == sum_by(
                log2,
                freed_of_kind(k),
            ) by {
                assert(before.kind_count(k) == sum_by(old(self).log@, freed_of_kind(k)));
                assert(sum_by(log2, freed_of_kind(k)) == sum_by(old(self).log@, freed_of_kind(k))
                    + freed_of_kind(k)(e));
            }
        }
    }

    /// Ends the batch: every directory with no recorded outcome counts as skipped.
    pub fn finish(self) -> (r: CleanStats)
        requires
            self.wf(),
        ensures
            tallies(r, self.spec_log(), self.spec_total() - self.spec_log().len()),
            r.accounted() == self.spec_total(),
            r == (CleanStats {
                skipped_dirs: (self.spec_stats().skipped_dirs + self.spec_total()
                    - self.spec_log().len()) as usize,
                ..self.spec_stats()
            }),
    {
        proof {
            lemma_counts(self.log@);
        }
        let mut stats = self.stats;
        let rest = self.total - (stats.total_dirs + stats.failed_dirs + stats.skipped_dirs);
        stats.skipped_dirs = stats.skipped_dirs + rest;
        proof {
            assert forall|k: CleanTarget| #[trigger] stats.kind_count(k) == sum_by(
                self.log@,
                freed_of_kind(k),
            ) by {
                assert(self.stats.kind_count(k) == sum_by(self.log@, freed_of_kind(k)));
            }
        }
        stats
    }
}

/// Every entry of a log is freed, failed or skipped once, and no count is negative.
pub proof fn lemma_counts(log: Seq<(ScanResult, ItemOutcome)>)
    ensures
        sum_by(log, |e| is_freed(e)) + sum_by(log, |e| is_failed(e)) + sum_by(log, |e| is_skipped(e))
            == log.len(),
        sum_by(log, |e| is_freed(e)) >= 0,
        sum_by(log, |e| is_failed(e)) >= 0,
        sum_by(log, |e| is_skipped(e)) >= 0,
        sum_by(log, |e| freed_bytes(e)) >= 0,
        sum_by(log, |e| freed_files(e)) >= 0,
    decreases log.len(),
{
    if log.len() > 0 {
        lemma_counts(log.drop_last());
    }
}

/// No kind has more freed directories than there are freed directories.
pub proof fn lemma_kind_le_freed(log: Seq<(ScanResult, ItemOutcome)>, k: CleanTarget)
    ensures
        0 <= sum_by(log, freed_of_kind(k)) <= sum_by(log, |e| is_freed(e)),
    decreases log.len(),
{
    if log.len() > 0 {
        lemma_kind_le_freed(log.drop_last(), k);
    }
}


/// Sum of the sizes of all directories of a log, whatever became of them.
pub open spec fn scanned_bytes(log: Seq<(ScanResult, ItemOutcome)>) -> int {
    sum_by(log, |e: (ScanResult, ItemOutcome)| e.0.size as int)
}

/// A dry run removes nothing, whatever an inspection would have found, and counts
/// every directory as freed: its freed bytes are the sizes of all its directories,
/// and nothing fails or is skipped.
pub proof fn law_dry_run_removes_nothing(
    log: Seq<(ScanResult, ItemOutcome)>,
    states: Seq<PathState>,
)
    requires
        states.len() == log.len(),
        forall|i: int|
            0 <= i < log.len() ==> (#[trigger] log[i]).1 == outcome_of(
                true,
                log[i].0,
                states[i],
                false,
            ),
    ensures
        forall|i: int|
            0 <= i < log.len() ==> !removes(true, (#[trigger] log[i]).0, states[i]),
        sum_by(log, |e| freed_bytes(e)) == scanned_bytes(log),
        sum_by(log, |e| is_freed(e)) == log.len(),
        sum_by(log, |e| is_failed(e)) == 0,
        sum_by(log, |e| is_skipped(e)) == 0,
    decreases log.len(),
{
    if log.len() > 0 {
        let n = log.len() - 1;
        assert forall|i: int| 0 <= i < n implies (#[trigger] log.drop_last()[i]).1 == outcome_of(
            true,
            log.drop_last()[i].0,
            states.drop_last()[i],
            false,
        ) by {
            assert(log.drop_last()[i] == log[i]);
        }
        law_dry_run_removes_nothing(log.drop_last(), states.drop_last());
        assert(log[n].1 is Freed);
    }
}

/// Once a batch of `total` directories is finished, each of them is counted exactly
/// once: as freed, failed or skipped.
pub proof fn law_every_directory_accounted(
    s: CleanStats,
    log: Seq<(ScanResult, ItemOutcome)>,
    total: int,
)
    requires
        log.len() <= total,
        tallies(s, log, total - log.len()),
    ensures
        s.accounted() == total,
{
    lemma_counts(log);
}

/// A directory whose marker has gone since the scan is skipped, never removed, and
/// recording it adds one skipped directory and no failure or freed directory.
pub proof fn law_missing_marker_is_skipped(
    r: ScanResult,
    s: PathState,
    removed: bool,
    log: Seq<(ScanResult, ItemOutcome)>,
)
    requires
        s.exists,
        s.is_dir,
        s.writable,
        s.has_parent,
        !marker_holds(r.target_type, r.path@, s.markers),
    ensures
        verdict(r.target_type, r.path@, s) == Err::<(), SkipReason>(SkipReason::MarkerMissing),
        !removes(false, r, s),
        outcome_of(false, r, s, removed) == ItemOutcome::Skipped,
        sum_by(log.push((r, ItemOutcome::Skipped)), |e| is_skipped(e)) == sum_by(
            log,
            |e| is_skipped(e),
        ) + 1,
        sum_by(log.push((r, ItemOutcome::Skipped)), |e| is_failed(e)) == sum_by(
            log,
            |e| is_failed(e),
        ),
        sum_by(log.push((r, ItemOutcome::Skipped)), |e| is_freed(e)) == sum_by(
            log,
            |e| is_freed(e),
        ),
{
    assert(log.push((r, ItemOutcome::Skipped)).drop_last() =~= log);
}

/// Removing entry `i` of a log takes exactly its share out of a sum.
proof fn lemma_sum_remove(
    log: Seq<(ScanResult, ItemOutcome)>,
    i: int,
    f: spec_fn((ScanResult, ItemOutcome)) -> int,
)
    requires
        0 <= i < log.len(),
    ensures
        sum_by(log, f) == sum_by(log.remove(i), f) + f(log[i]),
    decreases log.len(),
{
    if i == log.len() - 1 {
        assert(log.remove(i) =~= log.drop_last());
    } else {
        lemma_sum_remove(log.drop_last(), i, f);
        assert(log.remove(i).drop_last() =~= log.drop_last().remove(i));
        assert(log.remove(i).last() == log.last());
    }
}

/// Two logs holding the same outcomes, in any order, have the same sums.
proof fn lemma_sum_any_order(
    a: Seq<(ScanResult, ItemOutcome)>,
    b: Seq<(ScanResult, ItemOutcome)>,
    f: spec_fn((ScanResult, ItemOutcome)) -> int,
)
    requires
        a.to_multiset() == b.to_multiset(),
    ensures
        sum_by(a, f) == sum_by(b, f),
    decreases a.len(),
{
    broadcast use group_to_multiset_ensures;

    assert(a.to_multiset().len() == a.len());
    assert(b.to_multiset().len() == b.len());
    if a.len() == 0 {
        assert(b.len() == 0);
    } else {
        let x = a.last();
        assert(a.drop_last().push(x) =~= a);
        assert(a.to_multiset().count(x) > 0);
        assert(b.contains(x));
        let j = choose|j: int| 0 <= j < b.len() && b[j] == x;
        assert(a.drop_last().to_multiset() =~= a.to_multiset().remove(x));
        assert(b.remove(j).to_multiset() =~= b.to_multiset().remove(x));
        lemma_sum_any_order(a.drop_last(), b.remove(j), f);
        lemma_sum_remove(b, j, f);
    }
}

/// The totals of a batch do not depend on the order its outcomes came in: two runs
/// over the same directories with the same outcomes, one in order and one spread
/// over workers, come to the same totals.
pub proof fn law_totals_ignore_order(a: Seq<(ScanResult, ItemOutcome)>, b: Seq<(ScanResult, ItemOutcome)>)
    requires
        a.to_multiset() == b.to_multiset(),
    ensures
        a.len() == b.len(),
        forall|s: CleanStats, extra: int| tallies(s, a, extra) <==> tallies(s, b, extra),
{
    broadcast use group_to_multiset_ensures;

    assert(a.to_multiset().len() == a.len());
    assert(b.to_multiset().len() == b.len());
    lemma_sum_any_order(a, b, |e| freed_bytes(e));
    lemma_sum_any_order(a, b, |e| freed_files(e));
    lemma_sum_any_order(a, b, |e| is_freed(e));
    lemma_sum_any_order(a, b, |e| is_failed(e));
    lemma_sum_any_order(a, b, |e| is_skipped(e));
    assert forall|k: CleanTarget| #[trigger] sum_by(a, freed_of_kind(k)) == sum_by(b, freed_of_kind(k)) by {
        lemma_sum_any_order(a, b, freed_of_kind(k));
    }
}

} // verus!
