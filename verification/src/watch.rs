//! Watch mode: which directories are scanned, the snapshot of modification
//! times a scan produces, and the decision to rebuild when it changes.

use vstd::prelude::*;
use crate::text::str_eq;

verus! {

/// The directories that a scan does not enter.
pub open spec fn skipped_dir(name: Seq<char>) -> bool {
    name == "target"@ || name == "dist"@ || name == ".git"@
}

/// The directories of the project that a scan walks, in order.
pub fn watched_dirs() -> (r: Vec<&'static str>)
    ensures
        r@.len() == 3,
        r@[0]@ == "src"@,
        r@[1]@ == "scripts"@,
        r@[2]@ == "tests"@,
{
    let mut r: Vec<&'static str> = Vec::new();
    r.push("src");
    r.push("scripts");
    r.push("tests");
    r
}

/// The files of the project root that a scan records, in order.
pub fn watched_files() -> (r: Vec<&'static str>)
    ensures
        r@.len() == 2,
        r@[0]@ == "Cargo.toml"@,
        r@[1]@ == "renpy-plugin.toml"@,
{
    let mut r: Vec<&'static str> = Vec::new();
    r.push("Cargo.toml");
    r.push("renpy-plugin.toml");
    r
}

/// Whether a scan enters the directory named `name`.
pub fn should_scan_dir(name: &str) -> (r: bool)
    ensures
        r == !skipped_dir(name@),
{
    !(str_eq(name, "target") || str_eq(name, "dist") || str_eq(name, ".git"))
}

/// A modification time: whether it lies before the Unix epoch, and its
/// distance from the epoch in seconds and nanoseconds.
pub type Stamp = (bool, u64, u32);

/// A file's path (its raw bytes) and modification time.
pub struct FileStamp {
    pub path: Vec<u8>,
    pub before_epoch: bool,
    pub secs: u64,
    pub nanos: u32,
}

/// The modification time recorded in `e`.
pub open spec fn stamp_of(e: FileStamp) -> Stamp {
    (e.before_epoch, e.secs, e.nanos)
}

/// No two entries share a path.
pub open spec fn distinct_paths(es: Seq<FileStamp>) -> bool {
    forall|i: int, j: int|
        0 <= i < es.len() && 0 <= j < es.len() && i != j ==> #[trigger] es[i].path@
            != #[trigger] es[j].path@
}

/// The map from path to modification time that the entries record.
pub open spec fn snapshot_map(es: Seq<FileStamp>) -> Map<Seq<u8>, Stamp>
    decreases es.len(),
{
    if es.len() == 0 {
        Map::empty()
    } else {
        snapshot_map(es.drop_last()).insert(es.last().path@, stamp_of(es.last()))
    }
}

proof fn lemma_snapshot_map(es: Seq<FileStamp>)
    requires
        distinct_paths(es),
    ensures
        forall|p: Seq<u8>|
            #[trigger] snapshot_map(es).contains_key(p) <==> exists|i: int|
                0 <= i < es.len() && es[i].path@ == p,
        forall|i: int|
            0 <= i < es.len() ==> #[trigger] snapshot_map(es)[es[i].path@] == stamp_of(es[i]),
    decreases es.len(),
{
    if es.len() > 0 {
        let init = es.drop_last();
        assert(distinct_paths(init)) by {
            assert forall|i: int, j: int|
                0 <= i < init.len() && 0 <= j < init.len() && i != j implies #[trigger] init[i].path@
                != #[trigger] init[j].path@ by {
                assert(init[i] == es[i] && init[j] == es[j]);
            }
        }
        lemma_snapshot_map(init);
        assert forall|p: Seq<u8>| #[trigger]
            snapshot_map(es).contains_key(p) <==> exists|i: int|
                0 <= i < es.len() && es[i].path@ == p by {
            if snapshot_map(init).contains_key(p) {
                let i = choose|i: int| 0 <= i < init.len() && init[i].path@ == p;
                assert(es[i].path@ == p);
            }
            if exists|i: int| 0 <= i < es.len() && es[i].path@ == p {
                let i = choose|i: int| 0 <= i < es.len() && es[i].path@ == p;
                if i < init.len() {
                    assert(init[i].path@ == p);
                }
            }
        }
        assert forall|i: int| 0 <= i < es.len() implies #[trigger] snapshot_map(es)[es[i].path@]
            == stamp_of(es[i]) by {
            if i < init.len() {
                assert(init[i] == es[i]);
                assert(es[i].path@ != es[es.len() - 1].path@);
                assert(exists|k: int| 0 <= k < init.len() && init[k].path@ == init[i].path@);
                assert(snapshot_map(init).contains_key(init[i].path@));
            }
        }
    }
}

/// `m` records the time in `e` for the path in `e`.
pub open spec fn records(m: Map<Seq<u8>, Stamp>, e: FileStamp) -> bool {
    m.contains_key(e.path@) && m[e.path@] == stamp_of(e)
}

/// The files seen by one scan, each with its modification time.
pub struct FileSnapshot {
    entries: Vec<FileStamp>,
}

impl FileSnapshot {
    #[verifier::type_invariant]
    closed spec fn paths_distinct(self) -> bool {
        distinct_paths(self.entries@)
    }
}

impl View for FileSnapshot {
    type V = Map<Seq<u8>, Stamp>;

    closed spec fn view(&self) -> Map<Seq<u8>, Stamp> {
        snapshot_map(self.entries@)
    }
}

fn bytes_eq(a: &Vec<u8>, b: &Vec<u8>) -> (r: bool)
    ensures
        r == (a@ == b@),
{
    if a.len() != b.len() {
        return false;
    }
    let mut i: usize = 0;
    while i < a.len()
        invariant
            a@.len() == b@.len(),
            i <= a.len(),
            forall|j: int| 0 <= j < i ==> a@[j] == b@[j],
        decreases a.len() - i,
    {
        if a[i] != b[i] {
            return false;
        }
        i = i + 1;
    }
    assert(a@ =~= b@);
    true
}

/// The position of the entry for `path` among `entries`, if there is one.
fn position_of(entries: &Vec<FileStamp>, path: &Vec<u8>) -> (r: Option<usize>)
    ensures
        r matches Some(i) ==> i < entries@.len() && entries@[i as int].path@ == path@,
        r is None ==> forall|i: int| 0 <= i < entries@.len() ==> entries@[i].path@ != path@,
{
    let mut i: usize = 0;
    while i < entries.len()
        invariant
            i <= entries@.len(),
            forall|j: int| 0 <= j < i ==> entries@[j].path@ != path@,
        decreases entries.len() - i,
    {
        if bytes_eq(&entries[i].path, path) {
            return Some(i);
        }
        i = i + 1;
    }
    None
}

impl FileSnapshot {
    /// A snapshot of no files.
    pub fn new() -> (r: Self)
        ensures
            r@ == Map::<Seq<u8>, Stamp>::empty(),
    {
        FileSnapshot { entries: Vec::new() }
    }

    /// The modification time recorded for `path`, if any.
    pub fn lookup(&self, path: &Vec<u8>) -> (r: Option<Stamp>)
        ensures
            self@.contains_key(path@) ==> r == Some(self@[path@]),
            !self@.contains_key(path@) ==> r is None,
    {
        proof {
            use_type_invariant(self);
            lemma_snapshot_map(self.entries@);
        }
        match position_of(&self.entries, path) {
            Some(i) => {
                let e = &self.entries[i];
                Some((e.before_epoch, e.secs, e.nanos))
            },
            None => None,
        }
    }

    /// Records `stamp`, replacing what was recorded for its path.
    pub fn insert(&mut self, stamp: FileStamp)
        ensures
            final(self)@ == old(self)@.insert(stamp.path@, stamp_of(stamp)),
    {
        proof {
            use_type_invariant(&*self);
            lemma_snapshot_map(self.entries@);
        }
        let ghost old_map = self@;
        let ghost key = stamp.path@;
        let ghost value = stamp_of(stamp);
        let ghost st = stamp;
        let mut entries: Vec<FileStamp> = Vec::new();
        std::mem::swap(&mut entries, &mut self.entries);
        let ghost old_entries = entries@;
        let ghost mut pos: int = 0;
        match position_of(&entries, &stamp.path) {
            Some(i) => {
                proof {
                    pos = i as int;
                }
                entries.set(i, stamp);
            },
            None => {
                proof {
                    pos = entries@.len() as int;
                }
                entries.push(stamp);
            },
        }
        proof {
            let es = entries@;
            assert(es[pos] == st);
            assert(pos < old_entries.len() ==> old_entries[pos].path@ == key);
            assert(forall|i: int| 0 <= i < es.len() && i != pos ==> es[i] == old_entries[i]);
            assert(distinct_paths(es)) by {
                assert forall|i: int, j: int|
                    0 <= i < es.len() && 0 <= j < es.len() && i != j implies #[trigger] es[i].path@
                    != #[trigger] es[j].path@ by {
                    if i != pos && j != pos {
                        assert(es[i] == old_entries[i] && es[j] == old_entries[j]);
                    } else if i == pos {
                        assert(es[j] == old_entries[j]);
                    } else {
                        assert(es[i] == old_entries[i]);
                    }
                }
            }
            lemma_snapshot_map(es);
            assert(snapshot_map(es) =~= old_map.insert(key, value)) by {
                assert forall|p: Seq<u8>| #[trigger] snapshot_map(es).contains_key(p)
                    <==> old_map.insert(key, value).contains_key(p) by {
                    if snapshot_map(es).contains_key(p) && p != key {
                        let i = choose|i: int| 0 <= i < es.len() && es[i].path@ == p;
                        assert(i != pos);
                        assert(es[i] == old_entries[i]);
                        assert(exists|k: int|
                            0 <= k < old_entries.len() && old_entries[k].path@ == p);
                    }
                    if old_map.contains_key(p) && p != key {
                        let i = choose|i: int|
                            0 <= i < old_entries.len() && old_entries[i].path@ == p;
                        assert(i != pos);
                        assert(es[i] == old_entries[i]);
                        assert(exists|k: int| 0 <= k < es.len() && es[k].path@ == p);
                    }
                    if p == key {
                        assert(es[pos].path@ == key);
                        assert(exists|k: int| 0 <= k < es.len() && es[k].path@ == p);
                    }
                }
                assert forall|p: Seq<u8>| #[trigger] snapshot_map(es).contains_key(p) implies
                    snapshot_map(es)[p] == old_map.insert(key, value)[p] by {
                    let i = choose|i: int| 0 <= i < es.len() && es[i].path@ == p;
                    assert(snapshot_map(es)[es[i].path@] == stamp_of(es[i]));
                    if p != key {
                        assert(i != pos);
                        assert(es[i] == old_entries[i]);
                        assert(old_map[old_entries[i].path@] == stamp_of(old_entries[i]));
                    } else {
                        if i != pos {
                            assert(es[i].path@ == es[pos].path@);
                        }
                    }
                }
            }
        }
        self.entries = entries;
    }

    /// Whether this snapshot records exactly the files and times of `other`.
    pub fn same_as(&self, other: &FileSnapshot) -> (r: bool)
        ensures
            r == (self@ == other@),
    {
        proof {
            use_type_invariant(self);
            use_type_invariant(other);
            lemma_snapshot_map(self.entries@);
            lemma_snapshot_map(other.entries@);
        }
        let mut i: usize = 0;
        while i < self.entries.len()
            invariant
                distinct_paths(self.entries@),
                forall|p: Seq<u8>|
                    #[trigger] self@.contains_key(p) <==> exists|k: int|
                        0 <= k < self.entries@.len() && self.entries@[k].path@ == p,
                forall|k: int|
                    0 <= k < self.entries@.len() ==> #[trigger] self@[self.entries@[k].path@]
                        == stamp_of(self.entries@[k]),
                i <= self.entries@.len(),
                forall|k: int| 0 <= k < i ==> #[trigger] records(other@, self.entries@[k]),
            decreases self.entries.len() - i,
        {
            let e = &self.entries[i];
            let found = other.lookup(&e.path);
            let same = match found {
                Some(s) => s.0 == e.before_epoch && s.1 == e.secs && s.2 == e.nanos,
                None => false,
            };
            proof {
                if same {
                    assert(self.entries@[i as int] == *e);
                    assert(other@.contains_key(e.path@));
                    assert(found == Some(other@[e.path@]));
                    assert(other@[e.path@] == stamp_of(*e));
                    assert(records(other@, self.entries@[i as int]));
                }
            }
            if !same {
                proof {
                    assert(self@.contains_key(e.path@));
                    assert(self@[e.path@] == stamp_of(*e));
                }
                return false;
            }
            i = i + 1;
        }
        let mut j: usize = 0;
        while j < other.entries.len()
            invariant
                forall|p: Seq<u8>|
                    #[trigger] other@.contains_key(p) <==> exists|k: int|
                        0 <= k < other.entries@.len() && other.entries@[k].path@ == p,
                j <= other.entries@.len(),
                forall|k: int|
                    0 <= k < j ==> #[trigger] self@.contains_key(other.entries@[k].path@),
            decreases other.entries.len() - j,
        {
            if self.lookup(&other.entries[j].path).is_none() {
                proof {
                    assert(other@.contains_key(other.entries@[j as int].path@));
                }
                return false;
            }
            j = j + 1;
        }
        proof {
            assert forall|p: Seq<u8>| #[trigger] other@.contains_key(p) implies self@.contains_key(
                p,
            ) by {
                let k = choose|k: int| 0 <= k < other.entries@.len() && other.entries@[k].path@ == p;
            }
            assert forall|p: Seq<u8>| #[trigger] self@.contains_key(p) implies other@.contains_key(
                p,
            ) && other@[p] == self@[p] by {
                let k = choose|k: int| 0 <= k < self.entries@.len() && self.entries@[k].path@ == p;
                assert(records(other@, self.entries@[k]));
            }
            assert(self@ =~= other@);
        }
        true
    }
}

/// Decides when watch mode rebuilds: whenever a scan differs from the last
/// one that differed.
pub struct ChangeWatcher {
    pub last: FileSnapshot,
}

impl ChangeWatcher {
    /// A watcher whose first comparison is against `initial`.
    pub fn new(initial: FileSnapshot) -> (r: Self)
        ensures
            r.last@ == initial@,
    {
        ChangeWatcher { last: initial }
    }

    /// Takes a new scan; returns whether it differs from the last one, in
    /// which case a rebuild is due. The watcher then remembers the new scan.
    pub fn observe(&mut self, current: FileSnapshot) -> (changed: bool)
        ensures
            changed == (current@ != old(self).last@),
            final(self).last@ == current@,
    {
        let same = current.same_as(&self.last);
        if !same {
            self.last = current;
        }
        !same
    }
}

} // verus!
