use vstd::prelude::*;
use vstd::string::*;

verus! {

/// What sizing makes of one filesystem entry.
#[derive(Debug, Clone, Copy, PartialEq, Eq, Structural)]
pub enum EntryKind {
    /// A regular file of this many bytes.
    File(u64),
    /// A directory, not a symbolic link.
    Dir,
    /// A symbolic link, an entry whose metadata could not be read, or anything else:
    /// it adds nothing.
    Ignored,
}

/// One entry of a directory listing, as sizing sees it.
#[derive(Debug)]
pub struct SizedEntry {
    pub name: String,
    pub kind: EntryKind,
}

/// Bytes of the regular files of a listing.
pub open spec fn listing_bytes(s: Seq<SizedEntry>) -> int
    decreases s.len(),
{
    if s.len() == 0 {
        0
    } else {
        listing_bytes(s.drop_last()) + match s.last().kind {
            EntryKind::File(n) => n as int,
            _ => 0,
        }
    }
}

/// Number of regular files of a listing.
pub open spec fn listing_files(s: Seq<SizedEntry>) -> int
    decreases s.len(),
{
    if s.len() == 0 {
        0
    } else {
        listing_files(s.drop_last()) + if s.last().kind is File {
            1int
        } else {
            0int
        }
    }
}

/// The path to queue for entry `e` of the directory at `dir`, if it is a subdirectory.
pub open spec fn subdir_path(dir: Seq<char>, e: SizedEntry) -> Option<Seq<char>> {
    if e.kind is Dir {
        Some(dir + "/"@ + e.name@)
    } else {
        None
    }
}

/// Running byte and file totals of a directory tree, fed one listing at a time.
pub struct SizeCount {
    bytes: u64,
    files: usize,
    pending: Vec<String>,
}

impl SizeCount {
    pub closed spec fn spec_bytes(self) -> int {
        self.bytes as int
    }

    pub closed spec fn spec_files(self) -> int {
        self.files as int
    }

    /// The directories left to list; the last is listed next.
    pub closed spec fn pending_paths(self) -> Seq<Seq<char>> {
        self.pending@.map_values(|p: String| p@)
    }

    /// Starts sizing the entry at `path`: a file counts as itself, a directory is
    /// listed next, and anything else counts as nothing.
    pub fn start(path: String, kind: EntryKind) -> (r: SizeCount)
        ensures
            r.spec_bytes() == (match kind {
                EntryKind::File(n) => n as int,
                _ => 0int,
            }),
            r.spec_files() == (if kind is File {
                1int
            } else {
                0int
            }),
            r.pending_paths() == (if kind is Dir {
                seq![path@]
            } else {
                Seq::<Seq<char>>::empty()
            }),
    {
        proof {
            assert(Seq::<String>::empty().map_values(|p: String| p@) =~= Seq::<Seq<char>>::empty());
            assert(seq![path].map_values(|p: String| p@) =~= seq![path@]);
        }
        match kind {
            EntryKind::File(n) => SizeCount { bytes: n, files: 1, pending: Vec::new() },
            EntryKind::Dir => {
                let mut pending = Vec::new();
                pending.push(path);
                SizeCount { bytes: 0, files: 0, pending }
            },
            EntryKind::Ignored => SizeCount { bytes: 0, files: 0, pending: Vec::new() },
        }
    }

    /// The next directory to list, if any is left.
    pub fn next_dir(&mut self) -> (r: Option<String>)
        ensures
            final(self).spec_bytes() == old(self).spec_bytes(),
            final(self).spec_files() == old(self).spec_files(),
            old(self).pending_paths().len() == 0 ==> r is None && final(self).pending_paths().len() == 0,
            old(self).pending_paths().len() > 0 ==> (r matches Some(p) && p@ == old(
                self,
            ).pending_paths().last() && final(self).pending_paths() == old(
                self,
            ).pending_paths().drop_last()),
    {
        let r = self.pending.pop();
        proof {
            if old(self).pending@.len() > 0 {
                assert(self.pending@.map_values(|p: String| p@) =~= old(self).pending@.map_values(
                    |p: String| p@,
                ).drop_last());
            }
        }
        r
    }

    /// Whether taking in `entries` keeps both totals within their types.
    pub open spec fn spec_fits(self, entries: Seq<SizedEntry>) -> bool {
        &&& self.spec_bytes() + listing_bytes(entries) <= u64::MAX
        &&& self.spec_files() + listing_files(entries) <= usize::MAX
    }

    pub fn fits(&self, entries: &Vec<SizedEntry>) -> (r: bool)
        ensures
            r == self.spec_fits(entries@),
    {
        let mut b: u64 = self.bytes;
        let mut f: usize = self.files;
        let mut i: usize = 0;
        while i < entries.len()
            invariant
                i <= entries@.len(),
                b as int == self.bytes + listing_bytes(entries@.subrange(0, i as int)),
                f as int == self.files + listing_files(entries@.subrange(0, i as int)),
            decreases entries@.len() - i,
        {
            let ghost sub = entries@.subrange(0, i as int);
            assert(entries@.subrange(0, i + 1).drop_last() =~= sub);
            proof {
                lemma_listing_prefix(entries@, i as int + 1);
            }
            match entries[i].kind {
                EntryKind::File(n) => {
                    if n > u64::MAX - b || f == usize::MAX {
                        return false;
                    }
                    b = b + n;
                    f = f + 1;
                },
                _ => {},
            }
            i = i + 1;
        }
        assert(entries@.subrange(0, i as int) =~= entries@);
        true
    }

    /// Takes in the listing of a directory: adds its regular files and queues its subdirectories
    /// (the paths are `dir` joined with each name).
    pub fn add_listing(&mut self, dir: &String, entries: &Vec<SizedEntry>)
        requires
            old(self).spec_fits(entries@),
        ensures
            final(self).spec_bytes() == old(self).spec_bytes() + listing_bytes(entries@),
            final(self).spec_files() == old(self).spec_files() + listing_files(entries@),
            final(self).pending_paths() == old(self).pending_paths() + entries@.filter_map(
                |e: SizedEntry| subdir_path(dir@, e),
            ),
    {
        let mut i: usize = 0;
        while i < entries.len()
            invariant
                i <= entries@.len(),
                old(self).spec_fits(entries@),
                self.bytes as int == old(self).bytes + listing_bytes(entries@.subrange(0, i as int)),
                self.files as int == old(self).files + listing_files(entries@.subrange(0, i as int)),
                self.pending@.map_values(|p: String| p@) == old(self).pending@.map_values(
                    |p: String| p@,
                ) + entries@.subrange(0, i as int).filter_map(|e: SizedEntry| subdir_path(dir@, e)),
            decreases entries@.len() - i,
        {
            let ghost sub = entries@.subrange(0, i as int);
            assert(entries@.subrange(0, i + 1).drop_last() =~= sub);
            proof {
                lemma_listing_prefix(entries@, i as int + 1);
            }
            match entries[i].kind {
                EntryKind::File(n) => {
                    self.bytes = self.bytes + n;
                    self.files = self.files + 1;
                },
                EntryKind::Dir => {
                    let path = dir.clone().concat("/").concat(entries[i].name.as_str());
                    let ghost before = self.pending@;
                    self.pending.push(path);
                    proof {
                        assert(self.pending@.map_values(|p: String| p@) =~= before.map_values(
                            |p: String| p@,
                        ).push(path@));
                    }
                },
                EntryKind::Ignored => {},
            }
            i = i + 1;
        }
        assert(entries@.subrange(0, i as int) =~= entries@);
    }

    /// The totals: bytes, then files.
    pub fn totals(&self) -> (r: (u64, usize))
        ensures
            r.0 == self.spec_bytes(),
            r.1 == self.spec_files(),
    {
        (self.bytes, self.files)
    }
}

/// The totals of a prefix never exceed those of the whole listing.
proof fn lemma_listing_prefix(s: Seq<SizedEntry>, n: int)
    requires
        0 <= n <= s.len(),
    ensures
        0 <= listing_bytes(s.subrange(0, n)) <= listing_bytes(s),
        0 <= listing_files(s.subrange(0, n)) <= listing_files(s),
    decreases s.len(),
{
    if s.len() > 0 {
        if n == s.len() {
            assert(s.subrange(0, n) =~= s);
            lemma_listing_prefix(s.drop_last(), n - 1);
            assert(s.drop_last().subrange(0, n - 1) =~= s.drop_last());
        } else {
            lemma_listing_prefix(s.drop_last(), n);
            assert(s.drop_last().subrange(0, n) =~= s.subrange(0, n));
        }
    }
}

} // verus!
