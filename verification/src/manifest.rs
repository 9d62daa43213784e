//! The per-directory manifest (filename to provenance record), the
//! canonical-filename planner with its collision policy, and the
//! run-wide deduplication index from content hash to resident path.

use vstd::prelude::*;
use crate::hexfmt::{spec_hex, push_hex_range};
use crate::metadata::DateExtracted;
use crate::strutil::{spec_padded, spec_contains_str, push_padded, push_char, contains_name};

verus! {

/// One provenance record, persisted per physical copy placed in a
/// directory.
#[derive(Debug)]
pub struct FileEntry {
    pub sha256: String,
    pub original_path: String,
    pub original_name: String,
    pub date_source: Option<String>,
    pub source_group: Option<String>,
    pub imported_at: String,
    pub file_size_bytes: u64,
}

impl Clone for FileEntry {
    fn clone(&self) -> (r: Self)
        ensures
            r == *self,
    {
        FileEntry {
            sha256: self.sha256.clone(),
            original_path: self.original_path.clone(),
            original_name: self.original_name.clone(),
            date_source: match &self.date_source {
                Some(s) => Some(s.clone()),
                None => None,
            },
            source_group: match &self.source_group {
                Some(s) => Some(s.clone()),
                None => None,
            },
            imported_at: self.imported_at.clone(),
            file_size_bytes: self.file_size_bytes,
        }
    }
}

/// Association-list lookup, later pairs shadowing earlier ones.
pub open spec fn spec_lookup<V>(s: Seq<(String, V)>, k: Seq<char>) -> Option<V>
    decreases s.len(),
{
    if s.len() == 0 {
        None
    } else if s.last().0@ == k {
        Some(s.last().1)
    } else {
        spec_lookup(s.drop_last(), k)
    }
}

pub open spec fn spec_contains_key<V>(s: Seq<(String, V)>, k: Seq<char>) -> bool {
    spec_lookup(s, k) is Some
}

/// A found value is held by some pair of the list.
pub proof fn lemma_lookup_some_exists<V>(s: Seq<(String, V)>, k: Seq<char>)
    requires
        spec_lookup(s, k) is Some,
    ensures
        exists|i: int|
            0 <= i < s.len() && s[i].0@ == k && s[i].1 == spec_lookup(s, k)->0,
    decreases s.len(),
{
    if s.len() > 0 {
        if s.last().0@ == k {
            assert(s[s.len() - 1].0@ == k && s[s.len() - 1].1 == spec_lookup(s, k)->0);
        } else {
            lemma_lookup_some_exists(s.drop_last(), k);
            let i = choose|i: int|
                0 <= i < s.drop_last().len() && s.drop_last()[i].0@ == k && s.drop_last()[i].1
                    == spec_lookup(s.drop_last(), k)->0;
            assert(s[i].0@ == k && s[i].1 == spec_lookup(s, k)->0);
        }
    }
}

/// A key some pair holds is found.
pub proof fn lemma_lookup_present<V>(s: Seq<(String, V)>, i: int)
    requires
        0 <= i < s.len(),
    ensures
        spec_lookup(s, s[i].0@) is Some,
    decreases s.len(),
{
    if s.last().0@ != s[i].0@ {
        lemma_lookup_present(s.drop_last(), i);
    }
}

/// A key no pair holds is not found.
pub proof fn lemma_lookup_none<V>(s: Seq<(String, V)>, k: Seq<char>)
    requires
        forall|i: int| 0 <= i < s.len() ==> s[i].0@ != k,
    ensures
        spec_lookup(s, k) is None,
    decreases s.len(),
{
    if s.len() > 0 {
        assert(s[s.len() - 1].0@ != k);
        assert(forall|i: int| 0 <= i < s.drop_last().len() ==> s.drop_last()[i].0@ != k);
        lemma_lookup_none(s.drop_last(), k);
    }
}

/// Replacing the one pair that holds a key changes that key's value
/// and nothing else.
pub proof fn lemma_lookup_update<V>(s: Seq<(String, V)>, i: int, p: (String, V), h: Seq<char>)
    requires
        0 <= i < s.len(),
        s[i].0@ == p.0@,
        forall|j: int| 0 <= j < s.len() && j != i ==> s[j].0@ != s[i].0@,
    ensures
        spec_lookup(s.update(i, p), h) == if h == p.0@ {
            Some(p.1)
        } else {
            spec_lookup(s, h)
        },
    decreases s.len(),
{
    let t = s.update(i, p);
    if i == s.len() - 1 {
        assert(t.last() == p);
        assert(t.drop_last() =~= s.drop_last());
        if h != p.0@ {
            assert(s.last().0@ == p.0@);
        }
    } else {
        assert(t.last() == s.last());
        assert(t.drop_last() =~= s.drop_last().update(i, p));
        if t.last().0@ == h {
            assert(s.last().0@ != s[i].0@);
        } else {
            assert(forall|j: int|
                0 <= j < s.drop_last().len() && j != i ==> s.drop_last()[j].0@
                    == s[j].0@ && s[j].0@ != s[i].0@);
            lemma_lookup_update(s.drop_last(), i, p, h);
        }
    }
}

/// The mapping from filename to provenance record for one directory.
pub struct FileMap {
    entries: Vec<(String, FileEntry)>,
}

impl FileMap {
    /// The pairs, one per filename, in order of first insertion.
    pub closed spec fn view(&self) -> Seq<(String, FileEntry)> {
        self.entries@
    }

    /// The filenames on file are pairwise distinct.
    pub open spec fn wf(&self) -> bool {
        forall|i: int, j: int| 0 <= i < j < self@.len() ==> self@[i].0@ != self@[j].0@
    }

    /// The record filed under a filename.
    pub open spec fn spec_get(&self, k: Seq<char>) -> Option<FileEntry> {
        spec_lookup(self@, k)
    }

    pub fn new() -> (r: FileMap)
        ensures
            r@ =~= Seq::<(String, FileEntry)>::empty(),
            r.wf(),
    {
        FileMap { entries: Vec::new() }
    }

    pub fn len(&self) -> (r: usize)
        ensures
            r == self@.len(),
    {
        self.entries.len()
    }

    /// Files a record under a filename; an existing record under the
    /// same filename is replaced in place, every other filename keeps
    /// its record.
    #[verifier::loop_isolation(false)]
    pub fn insert(&mut self, k: String, v: FileEntry)
        requires
            old(self).wf(),
        ensures
            final(self).wf(),
            final(self).spec_get(k@) == Some(v),
            forall|h: Seq<char>| h != k@ ==> final(self).spec_get(h) == old(self).spec_get(h),
            final(self)@.len() == old(self)@.len() + (if old(self).spec_get(k@) is Some {
                0int
            } else {
                1int
            }),
    {
        let ghost pre = self.entries@;
        let ghost kk = k@;
        let n = self.entries.len();
        let mut i: usize = 0;
        while i < n
            invariant
                n == self.entries@.len(),
                i <= n,
                self.entries@ == pre,
                kk == k@,
                forall|j: int| 0 <= j < i ==> self.entries@[j].0@ != kk,
            decreases n - i,
        {
            if crate::strutil::str_eq(self.entries[i].0.as_str(), k.as_str()) {
                proof {
                    lemma_lookup_present(pre, i as int);
                    let ii = i as int;
                    assert forall|j: int|
                        0 <= j < pre.len() && j != ii implies pre[j].0@ != pre[ii].0@ by {
                        if j < ii {
                        } else {
                            assert(old(self).wf());
                        }
                    }
                }
                self.entries.remove(i);
                self.entries.insert(i, (k, v));
                proof {
                    assert(self.entries@ =~= pre.update(i as int, (k, v)));
                    assert forall|h: Seq<char>| true implies spec_lookup(
                        pre.update(i as int, (k, v)),
                        h,
                    ) == (if h == kk {
                        Some(v)
                    } else {
                        spec_lookup(pre, h)
                    }) by {
                        lemma_lookup_update(pre, i as int, (k, v), h);
                    }
                }
                return ;
            }
            i = i + 1;
        }
        proof {
            lemma_lookup_none(pre, kk);
        }
        self.entries.push((k, v));
        proof {
            assert(self.entries@.drop_last() =~= pre);
            assert(self.entries@.last().0@ == kk);
            assert forall|h: Seq<char>| h != kk implies spec_lookup(self.entries@, h)
                == spec_lookup(pre, h) by {
                assert(self.entries@.last().0@ != h);
            }
        }
    }

    /// Looks a filename up.
    pub fn get(&self, k: &str) -> (r: Option<&FileEntry>)
        ensures
            match r {
                Some(v) => self.spec_get(k@) == Some(*v),
                None => self.spec_get(k@) is None,
            },
    {
        let n = self.entries.len();
        let mut i: usize = n;
        proof {
            assert(self@.take(n as int) =~= self@);
        }
        while i > 0
            invariant
                n == self@.len(),
                i <= n,
                spec_lookup(self@, k@) == spec_lookup(self@.take(i as int), k@),
            decreases i,
        {
            proof {
                assert(self@.take(i as int).last() == self@[i - 1]);
                assert(self@.take(i as int).drop_last() =~= self@.take(i - 1));
            }
            i = i - 1;
            if crate::strutil::str_eq(self.entries[i].0.as_str(), k) {
                return Some(&self.entries[i].1);
            }
        }
        proof {
            assert(self@.take(0) =~= Seq::<(String, FileEntry)>::empty());
        }
        None
    }

    /// The stored pairs, for persisting in order.
    pub fn items(&self) -> (r: &Vec<(String, FileEntry)>)
        ensures
            r@ == self@,
    {
        &self.entries
    }
}

/// A per-directory manifest: a schema version and the filename
/// mapping.
pub struct Manifest {
    pub version: u8,
    pub files: FileMap,
}

impl Manifest {
    /// The empty manifest every directory starts from; the schema
    /// version is always one.
    pub fn new() -> (r: Manifest)
        ensures
            r.version == 1,
            r.files@ =~= Seq::<(String, FileEntry)>::empty(),
    {
        Manifest { version: 1, files: FileMap::new() }
    }
}

// ---------------------------------------------------------------------
// Canonical filename planning
// ---------------------------------------------------------------------

/// The timestamp-derived base of a canonical filename.
pub open spec fn spec_base_name(y: int, mo: int, d: int, h: int, mi: int, s: int) -> Seq<char> {
    spec_padded(y as nat, 4) + spec_padded(mo as nat, 2) + spec_padded(d as nat, 2) + seq!['_']
        + spec_padded(h as nat, 2) + spec_padded(mi as nat, 2) + spec_padded(s as nat, 2)
}

/// Candidate `k` of the collision policy: the bare timestamp name,
/// then ten names with a two-byte hex suffix drawn from successive
/// hash byte pairs, then the long eight-digit suffix accepted
/// unconditionally.
pub open spec fn spec_candidate(
    y: int,
    mo: int,
    d: int,
    h: int,
    mi: int,
    s: int,
    ext: Seq<char>,
    hash: Seq<u8>,
    k: int,
) -> Seq<char> {
    let base = spec_base_name(y, mo, d, h, mi, s);
    if k == 0 {
        base + seq!['.'] + ext
    } else if 1 <= k <= 10 {
        base + seq!['_'] + spec_hex(hash.subrange(k - 1, k + 1)) + seq!['.'] + ext
    } else {
        base + seq!['_'] + spec_hex(hash.subrange(0, 4)) + seq!['.'] + ext
    }
}

/// The first candidate index whose name is not yet taken, starting
/// from `k`; the long suffix (index eleven) is the unconditional last
/// resort.
pub open spec fn spec_first_free_from(
    existing: Seq<String>,
    y: int,
    mo: int,
    d: int,
    h: int,
    mi: int,
    s: int,
    ext: Seq<char>,
    hash: Seq<u8>,
    k: int,
) -> int
    decreases 11 - k,
{
    if k >= 11 {
        11
    } else if !spec_contains_str(existing, spec_candidate(y, mo, d, h, mi, s, ext, hash, k)) {
        k
    } else {
        spec_first_free_from(existing, y, mo, d, h, mi, s, ext, hash, k + 1)
    }
}

proof fn lemma_first_free(
    existing: Seq<String>,
    y: int,
    mo: int,
    d: int,
    h: int,
    mi: int,
    s: int,
    ext: Seq<char>,
    hash: Seq<u8>,
    k: int,
    upto: int,
)
    requires
        0 <= k <= upto <= 11,
        forall|j: int|
            k <= j < upto ==> spec_contains_str(
                existing,
                spec_candidate(y, mo, d, h, mi, s, ext, hash, j),
            ),
        upto == 11 || !spec_contains_str(
            existing,
            spec_candidate(y, mo, d, h, mi, s, ext, hash, upto),
        ),
    ensures
        spec_first_free_from(existing, y, mo, d, h, mi, s, ext, hash, k) == upto,
    decreases upto - k,
{
    if k < upto {
        lemma_first_free(existing, y, mo, d, h, mi, s, ext, hash, k + 1, upto);
    }
}

fn build_candidate(
    y: u16,
    mo: u8,
    d: u8,
    h: u8,
    mi: u8,
    s: u8,
    extension: &str,
    hash: &[u8; 32],
    k: usize,
) -> (r: String)
    requires
        k <= 11,
    ensures
        r@ == spec_candidate(
            y as int,
            mo as int,
            d as int,
            h as int,
            mi as int,
            s as int,
            extension@,
            hash@,
            k as int,
        ),
{
    let mut r = String::new();
    push_padded(&mut r, y as u64, 4);
    push_padded(&mut r, mo as u64, 2);
    push_padded(&mut r, d as u64, 2);
    push_char(&mut r, '_');
    push_padded(&mut r, h as u64, 2);
    push_padded(&mut r, mi as u64, 2);
    push_padded(&mut r, s as u64, 2);
    if k == 0 {
        push_char(&mut r, '.');
        r.append(extension);
    } else if k <= 10 {
        push_char(&mut r, '_');
        push_hex_range(&mut r, hash, k - 1, k + 1);
        push_char(&mut r, '.');
        r.append(extension);
    } else {
        push_char(&mut r, '_');
        push_hex_range(&mut r, hash, 0, 4);
        push_char(&mut r, '.');
        r.append(extension);
    }
    proof {
        assert(r@ =~= spec_candidate(
            y as int,
            mo as int,
            d as int,
            h as int,
            mi as int,
            s as int,
            extension@,
            hash@,
            k as int,
        ));
    }
    r
}

/// Plans the canonical filename for a file, given the names already
/// taken in the destination directory.  For a resolved date the
/// candidates are tried in order and the first unused one wins; the
/// long-suffix last resort is accepted unconditionally.  Without a
/// resolved date the name is a fixed one (the undated planner builds
/// its name from the stem instead, before this is consulted).
#[verifier::loop_isolation(false)]
pub fn generate_filename(
    date: &DateExtracted,
    extension: &str,
    hash: &[u8; 32],
    existing: &Vec<String>,
) -> (r: String)
    ensures
        match *date {
            DateExtracted::Found { year, month, day, hour, minute, second, source } => {
                let free = spec_first_free_from(
                    existing@,
                    year as int,
                    month as int,
                    day as int,
                    hour as int,
                    minute as int,
                    second as int,
                    extension@,
                    hash@,
                    0,
                );
                &&& r@ == spec_candidate(
                    year as int,
                    month as int,
                    day as int,
                    hour as int,
                    minute as int,
                    second as int,
                    extension@,
                    hash@,
                    free,
                )
                &&& (free <= 10 ==> !spec_contains_str(existing@, r@))
            },
            DateExtracted::NotFound => r@ == "undated"@ + seq!['.'] + extension@,
        },
{
    match date {
        DateExtracted::Found { year, month, day, hour, minute, second, source: _ } => {
            let y = *year;
            let mo = *month;
            let d = *day;
            let h = *hour;
            let mi = *minute;
            let s = *second;
            let mut k: usize = 0;
            while k <= 10
                invariant
                    k <= 11,
                    forall|j: int|
                        0 <= j < k ==> spec_contains_str(
                            existing@,
                            spec_candidate(
                                y as int,
                                mo as int,
                                d as int,
                                h as int,
                                mi as int,
                                s as int,
                                extension@,
                                hash@,
                                j,
                            ),
                        ),
                decreases 11 - k,
            {
                let candidate = build_candidate(y, mo, d, h, mi, s, extension, hash, k);
                if !contains_name(existing, candidate.as_str()) {
                    proof {
                        lemma_first_free(
                            existing@,
                            y as int,
                            mo as int,
                            d as int,
                            h as int,
                            mi as int,
                            s as int,
                            extension@,
                            hash@,
                            0,
                            k as int,
                        );
                    }
                    return candidate;
                }
                k = k + 1;
            }
            proof {
                lemma_first_free(
                    existing@,
                    y as int,
                    mo as int,
                    d as int,
                    h as int,
                    mi as int,
                    s as int,
                    extension@,
                    hash@,
                    0,
                    11,
                );
            }
            build_candidate(y, mo, d, h, mi, s, extension, hash, 11)
        },
        DateExtracted::NotFound => {
            let mut r = String::new();
            r.append("undated");
            push_char(&mut r, '.');
            r.append(extension);
            proof {
                assert(r@ =~= "undated"@ + seq!['.'] + extension@);
            }
            r
        },
    }
}

// ---------------------------------------------------------------------
// Deduplication index
// ---------------------------------------------------------------------

/// A path built by joining a directory and a name with `'/'`.
pub open spec fn spec_join(dir: Seq<char>, name: Seq<char>) -> Seq<char> {
    dir + seq!['/'] + name
}

/// Joins a directory and a file name.
pub fn join_path(dir: &str, name: &str) -> (r: String)
    ensures
        r@ == spec_join(dir@, name@),
{
    let mut r = String::new();
    r.append(dir);
    push_char(&mut r, '/');
    r.append(name);
    proof {
        assert(r@ =~= spec_join(dir@, name@));
    }
    r
}

/// The run-wide table from content hash to the path already holding
/// that content; built once before a run, read-only afterwards.
pub struct DedupIndex {
    entries: Vec<(String, String)>,
}

/// Whether any manifest in the list holds a record with the given
/// content hash.
pub open spec fn spec_manifests_contain(ms: Seq<(String, Manifest)>, h: Seq<char>) -> bool {
    exists|a: int, b: int| spec_record_at(ms, a, b, h)
}

impl DedupIndex {
    /// The pairs in insertion order; a later pair for the same hash
    /// shadows an earlier one.
    pub closed spec fn view(&self) -> Seq<(String, String)> {
        self.entries@
    }

    /// The resident path recorded for a content hash.
    pub open spec fn spec_lookup_hash(&self, h: Seq<char>) -> Option<String> {
        spec_lookup(self@, h)
    }

    pub open spec fn spec_contains(&self, h: Seq<char>) -> bool {
        spec_contains_key(self@, h)
    }

    pub fn new() -> (r: DedupIndex)
        ensures
            r@ =~= Seq::<(String, String)>::empty(),
    {
        DedupIndex { entries: Vec::new() }
    }

    /// Records that a path holds content with the given hash.
    pub fn insert(&mut self, hash: String, path: String)
        ensures
            final(self)@ == old(self)@.push((hash, path)),
            final(self).spec_lookup_hash(hash@) == Some(path),
            forall|h: Seq<char>|
                h != hash@ ==> final(self).spec_lookup_hash(h) == old(self).spec_lookup_hash(h),
    {
        let ghost pre = self.entries@;
        let ghost kk = hash@;
        self.entries.push((hash, path));
        proof {
            assert(self.entries@.drop_last() =~= pre);
            assert(self.entries@.last().0@ == kk);
            assert forall|h: Seq<char>| h != kk implies spec_lookup(self.entries@, h)
                == spec_lookup(pre, h) by {
                assert(self.entries@.last().0@ != h);
            }
        }
    }

    /// Looks a content hash up.
    pub fn lookup(&self, hash: &str) -> (r: Option<String>)
        ensures
            r == self.spec_lookup_hash(hash@),
    {
        let n = self.entries.len();
        let mut i: usize = n;
        proof {
            assert(self@.take(n as int) =~= self@);
        }
        while i > 0
            invariant
                n == self@.len(),
                i <= n,
                spec_lookup(self@, hash@) == spec_lookup(self@.take(i as int), hash@),
            decreases i,
        {
            proof {
                assert(self@.take(i as int).last() == self@[i - 1]);
                assert(self@.take(i as int).drop_last() =~= self@.take(i - 1));
            }
            i = i - 1;
            if crate::strutil::str_eq(self.entries[i].0.as_str(), hash) {
                let p = self.entries[i].1.clone();
                return Some(p);
            }
        }
        proof {
            assert(self@.take(0) =~= Seq::<(String, String)>::empty());
        }
        None
    }
}

/// Record `b` of manifest `a` in the list carries hash `h`.
pub open spec fn spec_record_at(
    ms: Seq<(String, Manifest)>,
    a: int,
    b: int,
    h: Seq<char>,
) -> bool {
    &&& 0 <= a < ms.len()
    &&& 0 <= b < ms[a].1.files@.len()
    &&& ms[a].1.files@[b].1.sha256@ == h
}

/// Whether record `(a, b)` has already been folded in when the walk
/// stands at manifest `i`, record `j`.
pub open spec fn spec_seen(a: int, b: int, i: int, j: int) -> bool {
    a < i || (a == i && b < j)
}

/// Folds every loaded manifest into one hash-to-path table: the index
/// knows a hash exactly when some record carries it, and every path it
/// returns is a carrying record's directory joined with its filename.
pub fn build_dedup_index(manifests: &Vec<(String, Manifest)>) -> (r: DedupIndex)
    ensures
        forall|h: Seq<char>| r.spec_contains(h) <==> spec_manifests_contain(manifests@, h),
        forall|h: Seq<char>|
            r.spec_contains(h) ==> exists|a: int, b: int|
                spec_record_at(manifests@, a, b, h) && r.spec_lookup_hash(h)->0@ == spec_join(
                    manifests@[a].0@,
                    manifests@[a].1.files@[b].0@,
                ),
{
    let ghost ms = manifests@;
    let mut index = DedupIndex::new();
    let n = manifests.len();
    let mut i: usize = 0;
    while i < n
        invariant
            ms == manifests@,
            n == ms.len(),
            i <= n,
            forall|h: Seq<char>|
                index.spec_contains(h) <==> exists|a: int, b: int|
                    spec_record_at(ms, a, b, h) && spec_seen(a, b, i as int, 0),
            forall|h: Seq<char>|
                index.spec_contains(h) ==> exists|a: int, b: int|
                    spec_record_at(ms, a, b, h) && spec_seen(a, b, i as int, 0)
                        && index.spec_lookup_hash(h)->0@ == spec_join(
                        ms[a].0@,
                        ms[a].1.files@[b].0@,
                    ),
        decreases n - i,
    {
        let dir = &manifests[i].0;
        let items = manifests[i].1.files.items();
        let m = items.len();
        let mut j: usize = 0;
        while j < m
            invariant
                ms == manifests@,
                n == ms.len(),
                i < n,
                m == ms[i as int].1.files@.len(),
                items@ == ms[i as int].1.files@,
                dir@ == ms[i as int].0@,
                j <= m,
                forall|h: Seq<char>|
                    index.spec_contains(h) <==> exists|a: int, b: int|
                        spec_record_at(ms, a, b, h) && spec_seen(a, b, i as int, j as int),
                forall|h: Seq<char>|
                    index.spec_contains(h) ==> exists|a: int, b: int|
                        spec_record_at(ms, a, b, h) && spec_seen(a, b, i as int, j as int)
                            && index.spec_lookup_hash(h)->0@ == spec_join(
                            ms[a].0@,
                            ms[a].1.files@[b].0@,
                        ),
            decreases m - j,
        {
            let ghost pre = index;
            let path = join_path(dir.as_str(), items[j].0.as_str());
            let ghost pathv = path@;
            index.insert(items[j].1.sha256.clone(), path);
            proof {
                let ii = i as int;
                let jj = j as int;
                let sha = ms[ii].1.files@[jj].1.sha256@;
                assert(spec_record_at(ms, ii, jj, sha));
                assert(index.spec_lookup_hash(sha)->0@ == pathv);
                assert(pathv == spec_join(ms[ii].0@, ms[ii].1.files@[jj].0@));
                assert forall|h: Seq<char>| index.spec_contains(h) implies exists|a: int, b: int|
                    spec_record_at(ms, a, b, h) && spec_seen(a, b, ii, jj + 1)
                        && index.spec_lookup_hash(h)->0@ == spec_join(
                        ms[a].0@,
                        ms[a].1.files@[b].0@,
                    ) by {
                    if h == sha {
                        assert(spec_record_at(ms, ii, jj, h) && spec_seen(ii, jj, ii, jj + 1)
                            && index.spec_lookup_hash(h)->0@ == spec_join(
                            ms[ii].0@,
                            ms[ii].1.files@[jj].0@,
                        ));
                    } else {
                        assert(index.spec_lookup_hash(h) == pre.spec_lookup_hash(h));
                        assert(pre.spec_contains(h));
                        let (a, b) = choose|a: int, b: int|
                            spec_record_at(ms, a, b, h) && spec_seen(a, b, ii, jj)
                                && pre.spec_lookup_hash(h)->0@ == spec_join(
                                ms[a].0@,
                                ms[a].1.files@[b].0@,
                            );
                        assert(spec_record_at(ms, a, b, h) && spec_seen(a, b, ii, jj + 1)
                            && index.spec_lookup_hash(h)->0@ == spec_join(
                            ms[a].0@,
                            ms[a].1.files@[b].0@,
                        ));
                    }
                }
                assert forall|h: Seq<char>|
                    (exists|a: int, b: int|
                        spec_record_at(ms, a, b, h) && spec_seen(a, b, ii, jj + 1))
                        implies index.spec_contains(h) by {
                    if h == sha {
                        assert(index.spec_lookup_hash(h) is Some);
                    } else {
                        let (a, b) = choose|a: int, b: int|
                            spec_record_at(ms, a, b, h) && spec_seen(a, b, ii, jj + 1);
                        assert(!(a == ii && b == jj));
                        assert(spec_record_at(ms, a, b, h) && spec_seen(a, b, ii, jj));
                        assert(pre.spec_contains(h));
                        assert(index.spec_lookup_hash(h) == pre.spec_lookup_hash(h));
                    }
                }
            }
            j = j + 1;
        }
        proof {
            let ii = i as int;
            assert forall|h: Seq<char>| index.spec_contains(h) implies exists|a: int, b: int|
                spec_record_at(ms, a, b, h) && spec_seen(a, b, ii + 1, 0)
                    && index.spec_lookup_hash(h)->0@ == spec_join(
                    ms[a].0@,
                    ms[a].1.files@[b].0@,
                ) by {
                let (a, b) = choose|a: int, b: int|
                    spec_record_at(ms, a, b, h) && spec_seen(a, b, ii, m as int)
                        && index.spec_lookup_hash(h)->0@ == spec_join(
                        ms[a].0@,
                        ms[a].1.files@[b].0@,
                    );
                assert(spec_seen(a, b, ii + 1, 0));
                assert(spec_record_at(ms, a, b, h) && spec_seen(a, b, ii + 1, 0)
                    && index.spec_lookup_hash(h)->0@ == spec_join(ms[a].0@, ms[a].1.files@[b].0@));
            }
            assert forall|h: Seq<char>|
                (exists|a: int, b: int| spec_record_at(ms, a, b, h) && spec_seen(a, b, ii + 1, 0))
                    implies index.spec_contains(h) by {
                let (a, b) = choose|a: int, b: int|
                    spec_record_at(ms, a, b, h) && spec_seen(a, b, ii + 1, 0);
                if a == ii {
                    assert(b < ms[ii].1.files@.len());
                    assert(spec_seen(a, b, ii, m as int));
                } else {
                    assert(spec_seen(a, b, ii, m as int));
                }
                assert(spec_record_at(ms, a, b, h) && spec_seen(a, b, ii, m as int));
            }
        }
        i = i + 1;
    }
    proof {
        assert forall|h: Seq<char>|
            spec_manifests_contain(ms, h) implies index.spec_contains(h) by {
            let (a, b) = choose|a: int, b: int| spec_record_at(ms, a, b, h);
            assert(spec_record_at(ms, a, b, h) && spec_seen(a, b, n as int, 0));
        }
        assert forall|h: Seq<char>| index.spec_contains(h) implies spec_manifests_contain(ms, h) by {
            let (a, b) = choose|a: int, b: int|
                spec_record_at(ms, a, b, h) && spec_seen(a, b, n as int, 0);
            assert(spec_record_at(ms, a, b, h));
        }
    }
    index
}

} // verus!
