//! The per-file import state machine and the run-level accounting.
//!
//! Each candidate file runs through the stages hash, dedup check, date
//! resolution, destination planning, and copy conclusion.  The stages
//! here are pure decisions over plain values; the surrounding process
//! performs each decided filesystem action and feeds its result into
//! the next stage.

use vstd::prelude::*;
use crate::hexfmt::{spec_hex, format_hash};
use crate::manifest::{
    DedupIndex, FileEntry, Manifest, spec_manifests_contain, spec_record_at,
    lemma_lookup_some_exists,
};
use crate::metadata::{
    DateExtracted, civil_utc_of, jiff_timestamp_range, civil_from_epoch_seconds,
    now_epoch_seconds,
};
use crate::strutil::{
    spec_padded, spec_dec, spec_stem, spec_file_name, spec_contains_str, push_padded, push_char,
    u64_to_string, contains_name, str_to_chars, find_last_char, chars_subrange, chars_to_string,
};

verus! {

/// What hashing a source file yielded: a content hash, or the reason
/// there is none.
pub enum HashOutcome {
    Hashed { hash: [u8; 32] },
    /// The source disappeared between discovery and hashing.
    SourceMissing,
    /// The source could not be opened or read.
    ReadFailed,
}

/// A manifest record destined for one directory's sidecar.
#[derive(Debug)]
pub struct ManifestEntry {
    pub dir: String,
    pub filename: String,
    pub entry: FileEntry,
}

impl Clone for ManifestEntry {
    fn clone(&self) -> (r: Self)
        ensures
            r == *self,
    {
        ManifestEntry {
            dir: self.dir.clone(),
            filename: self.filename.clone(),
            entry: self.entry.clone(),
        }
    }
}

/// The mutually exclusive outcome of one processed file; a record is
/// attached when an execute-mode operation placed a copy.
pub enum FileProcessingResult {
    Imported { manifest_entry: Option<ManifestEntry> },
    Duplicate { manifest_entry: Option<ManifestEntry> },
    Undated { manifest_entry: Option<ManifestEntry> },
    Corrupt,
    /// The source vanished before it could be read: dropped silently,
    /// counted in no category.
    Vanished,
}

/// Where a file is routed once its hash outcome and the dedup index
/// have been consulted.
pub enum Route {
    /// Drop the file silently with a warning.
    Vanished,
    /// The file is unreadable; quarantine it into the named directory
    /// when executing.
    CorruptFile { quarantine_dir: Option<String> },
    /// Content already resident at `existing`; copy into the named
    /// duplicates directory when executing.
    DuplicateFound { existing: String, copy_dir: Option<String> },
    /// New content: continue with date resolution and planning.
    Fresh { hex: String },
}

/// The reserved quarantine directory for unreadable files.
pub open spec fn spec_corrupt_dir(target: Seq<char>) -> Seq<char> {
    target + seq!['/'] + "corrupt"@
}

/// The reserved quarantine directory for duplicate content.
pub open spec fn spec_duplicates_dir(target: Seq<char>) -> Seq<char> {
    target + seq!['/'] + "duplicates"@
}

fn join_target(target: &str, sub: &str) -> (r: String)
    ensures
        r@ == target@ + seq!['/'] + sub@,
{
    let mut r = String::new();
    r.append(target);
    push_char(&mut r, '/');
    r.append(sub);
    proof {
        assert(r@ =~= target@ + seq!['/'] + sub@);
    }
    r
}

/// Routes a file from its hash outcome: a vanished source is dropped,
/// an unreadable one is quarantined (in execute mode only), known
/// content is sent to the duplicates directory (in execute mode only),
/// and fresh content goes on to planning.  No destination directory is
/// named in dry-run mode.
pub fn stage_route(
    outcome: &HashOutcome,
    execute: bool,
    target: &str,
    index: &DedupIndex,
) -> (r: Route)
    ensures
        match *outcome {
            HashOutcome::SourceMissing => r is Vanished,
            HashOutcome::ReadFailed => {
                &&& r is CorruptFile
                &&& (execute ==> (r->CorruptFile_quarantine_dir matches Some(d) && d@
                    == spec_corrupt_dir(target@)))
                &&& (!execute ==> r->CorruptFile_quarantine_dir is None)
            },
            HashOutcome::Hashed { hash } => {
                if index.spec_contains(spec_hex(hash@)) {
                    &&& r is DuplicateFound
                    &&& Some(r->DuplicateFound_existing) == index.spec_lookup_hash(
                        spec_hex(hash@),
                    )
                    &&& (execute ==> (r->DuplicateFound_copy_dir matches Some(d) && d@
                        == spec_duplicates_dir(target@)))
                    &&& (!execute ==> r->DuplicateFound_copy_dir is None)
                } else {
                    &&& r is Fresh
                    &&& r->Fresh_hex@ == spec_hex(hash@)
                }
            },
        },
{
    match outcome {
        HashOutcome::SourceMissing => Route::Vanished,
        HashOutcome::ReadFailed => {
            let quarantine_dir = if execute {
                Some(join_target(target, "corrupt"))
            } else {
                None
            };
            Route::CorruptFile { quarantine_dir }
        },
        HashOutcome::Hashed { hash } => {
            let hex = format_hash(hash);
            match index.lookup(hex.as_str()) {
                Some(existing) => {
                    let copy_dir = if execute {
                        Some(join_target(target, "duplicates"))
                    } else {
                        None
                    };
                    Route::DuplicateFound { existing, copy_dir }
                },
                None => Route::Fresh { hex },
            }
        },
    }
}

/// The planned destination directory of fresh content: a year/month
/// directory under the target for a resolved date, the reserved
/// undated directory otherwise.
pub open spec fn spec_dest_dir(target: Seq<char>, date: DateExtracted) -> Seq<char> {
    match date {
        DateExtracted::Found { year, month, .. } => target + seq!['/'] + spec_padded(
            year as nat,
            4,
        ) + seq!['/'] + spec_padded(month as nat, 2),
        DateExtracted::NotFound => target + seq!['/'] + "undated"@,
    }
}

/// Plans the destination directory for fresh content from its resolved
/// date.
pub fn stage_destination(date: &DateExtracted, target: &str) -> (r: String)
    ensures
        r@ == spec_dest_dir(target@, *date),
{
    match date {
        DateExtracted::Found { year, month, .. } => {
            let mut r = String::new();
            r.append(target);
            push_char(&mut r, '/');
            push_padded(&mut r, *year as u64, 4);
            push_char(&mut r, '/');
            push_padded(&mut r, *month as u64, 2);
            proof {
                assert(r@ =~= spec_dest_dir(target@, *date));
            }
            r
        },
        DateExtracted::NotFound => {
            let r = join_target(target, "undated");
            proof {
                assert(r@ =~= spec_dest_dir(target@, *date));
            }
            r
        },
    }
}

/// The fixed name of an undated file: its stem, a two-byte hex suffix
/// from the head of its content hash, and its extension.
pub open spec fn spec_undated_name(
    stem: Seq<char>,
    hash: Seq<u8>,
    ext: Seq<char>,
) -> Seq<char> {
    stem + seq!['_'] + spec_hex(hash.subrange(0, 2)) + seq!['.'] + ext
}

/// Builds the undated filename; no collision probing is performed for
/// undated files.
pub fn undated_filename(path: &str, extension: &str, hash: &[u8; 32]) -> (r: String)
    ensures
        r@ == spec_undated_name(spec_stem(spec_file_name(path@)), hash@, extension@),
{
    let chars = str_to_chars(path);
    let n = chars.len();
    let name_start: usize = match find_last_char(&chars, '/') {
        Some(i) => i + 1,
        None => 0,
    };
    let name = chars_subrange(&chars, name_start, n);
    proof {
        match chars@.index_of_last('/') {
            Some(i) => {
                assert(name@ == spec_file_name(path@));
            },
            None => {
                assert(chars@.subrange(0, chars@.len() as int) =~= chars@);
                assert(name@ == spec_file_name(path@));
            },
        }
    }
    let stem = match find_last_char(&name, '.') {
        Some(i) => {
            if i > 0 {
                chars_subrange(&name, 0, i)
            } else {
                chars_subrange(&name, 0, name.len())
            }
        },
        None => chars_subrange(&name, 0, name.len()),
    };
    proof {
        assert(name@.subrange(0, name@.len() as int) =~= name@);
        assert(stem@ == spec_stem(name@));
    }
    let mut r = chars_to_string(&stem);
    push_char(&mut r, '_');
    crate::hexfmt::push_hex_range(&mut r, hash, 0, 2);
    push_char(&mut r, '.');
    r.append(extension);
    proof {
        assert(r@ =~= spec_undated_name(spec_stem(spec_file_name(path@)), hash@, extension@));
    }
    r
}

/// Plans the destination filename for fresh content: the collision-
/// probed timestamp name for a dated file, the stem-and-hash-suffix
/// name for an undated one.
pub fn stage_filename(
    date: &DateExtracted,
    path: &str,
    extension: &str,
    hash: &[u8; 32],
    existing: &Vec<String>,
) -> (r: String)
    ensures
        match *date {
            DateExtracted::Found { year, month, day, hour, minute, second, source } => {
                let free = crate::manifest::spec_first_free_from(
                    existing@,
                    year as int,
                    month as int,
                    day as int,
                    hour as int,
                    minute as int,
                    second as int,
                    extension@,
                    hash@,
                    0,
                );
                &&& r@ == crate::manifest::spec_candidate(
                    year as int,
                    month as int,
                    day as int,
                    hour as int,
                    minute as int,
                    second as int,
                    extension@,
                    hash@,
                    free,
                )
                &&& (free <= 10 ==> !spec_contains_str(existing@, r@))
            },
            DateExtracted::NotFound => r@ == spec_undated_name(
                spec_stem(spec_file_name(path@)),
                hash@,
                extension@,
            ),
        },
{
    match date {
        DateExtracted::Found { .. } => crate::manifest::generate_filename(
            date,
            extension,
            hash,
            existing,
        ),
        DateExtracted::NotFound => undated_filename(path, extension, hash),
    }
}

/// The dated-versus-undated split of a successful fresh import: both
/// are imports, kept distinct because undated files follow the other
/// path-planning rule.
pub fn categorize_fresh(
    date: &DateExtracted,
    manifest_entry: Option<ManifestEntry>,
) -> (r: FileProcessingResult)
    ensures
        (*date) is Found ==> (r matches FileProcessingResult::Imported { manifest_entry: e }
            && e == manifest_entry),
        (*date) is NotFound ==> (r matches FileProcessingResult::Undated { manifest_entry: e }
            && e == manifest_entry),
{
    match date {
        DateExtracted::Found { .. } => FileProcessingResult::Imported { manifest_entry },
        DateExtracted::NotFound => FileProcessingResult::Undated { manifest_entry },
    }
}

/// What one attempted copy reported, as read off the I/O error.
pub enum CopyOutcome {
    Copied,
    /// The destination device reported exhausted storage.
    DiskFull,
    /// The source disappeared before it could be copied.
    SourceGone,
    Failed,
}

/// Whether an operating-system error code means exhausted storage.
pub fn is_disk_full(raw_os_error: Option<i32>) -> (r: bool)
    ensures
        r == (raw_os_error == Some(28i32)),
{
    match raw_os_error {
        Some(c) => c == 28,
        None => false,
    }
}

/// How the run proceeds after one attempted copy.
pub enum Conclusion {
    /// The copy succeeded: record a manifest entry and count the file.
    Recorded,
    /// Exhausted storage: remove the partial destination, report this
    /// file as corrupt, and stop dispatching further files.
    FatalDiskFull,
    /// This copy failed for a local reason: the file is corrupt, the
    /// run continues.
    FileCorrupt,
}

/// Concludes an execute-mode copy: success is recorded, exhausted
/// storage is fatal for the whole run, anything else is a per-file
/// corrupt outcome.
pub fn stage_conclude(copy: &CopyOutcome) -> (r: Conclusion)
    ensures
        match *copy {
            CopyOutcome::Copied => r is Recorded,
            CopyOutcome::DiskFull => r is FatalDiskFull,
            CopyOutcome::SourceGone => r is FileCorrupt,
            CopyOutcome::Failed => r is FileCorrupt,
        },
{
    match copy {
        CopyOutcome::Copied => Conclusion::Recorded,
        CopyOutcome::DiskFull => Conclusion::FatalDiskFull,
        CopyOutcome::SourceGone => Conclusion::FileCorrupt,
        CopyOutcome::Failed => Conclusion::FileCorrupt,
    }
}

/// The move-mode safety guard: a source may be deleted exactly when
/// moving was asked for, the destination exists, and both sizes were
/// read and agree; any mismatch or missing reading leaves the source
/// in place.
pub fn should_remove_source(
    move_files: bool,
    dest_exists: bool,
    dest_size: Option<u64>,
    src_size: Option<u64>,
) -> (r: bool)
    ensures
        r <==> (move_files && dest_exists && dest_size is Some && src_size is Some && dest_size->0
            == src_size->0),
{
    match (dest_size, src_size) {
        (Some(d), Some(s)) => move_files && dest_exists && d == s,
        _ => false,
    }
}

/// A pure record constructor; every field is stored as handed in.
pub fn create_manifest_entry(
    dir: String,
    filename: String,
    hex_hash: String,
    source_path: String,
    original_name: String,
    date_source: Option<String>,
    source_group: Option<String>,
    imported_at: String,
    file_size_bytes: u64,
) -> (r: ManifestEntry)
    ensures
        r.dir == dir,
        r.filename == filename,
        r.entry.sha256 == hex_hash,
        r.entry.original_path == source_path,
        r.entry.original_name == original_name,
        r.entry.date_source == date_source,
        r.entry.source_group == source_group,
        r.entry.imported_at == imported_at,
        r.entry.file_size_bytes == file_size_bytes,
{
    ManifestEntry {
        dir,
        filename,
        entry: FileEntry {
            sha256: hex_hash,
            original_path: source_path,
            original_name,
            date_source,
            source_group,
            imported_at,
            file_size_bytes,
        },
    }
}

// ---------------------------------------------------------------------
// Quarantine collision naming
// ---------------------------------------------------------------------

/// Candidate `c` of the quarantine naming policy: the bare name for
/// zero, else stem, counter and extension.
pub open spec fn spec_counter_name(
    stem: Seq<char>,
    ext: Seq<char>,
    c: int,
) -> Seq<char> {
    if c == 0 {
        if ext.len() == 0 {
            stem
        } else {
            stem + seq!['.'] + ext
        }
    } else {
        if ext.len() == 0 {
            stem + seq!['_'] + spec_dec(c as nat)
        } else {
            stem + seq!['_'] + spec_dec(c as nat) + seq!['.'] + ext
        }
    }
}

/// The first counter in `from..=1000` whose name is unused, else 1000.
pub open spec fn spec_first_free_counter(
    existing: Seq<String>,
    stem: Seq<char>,
    ext: Seq<char>,
    from: int,
) -> int
    decreases 1001 - from,
{
    if from >= 1000 {
        1000
    } else if !spec_contains_str(existing, spec_counter_name(stem, ext, from)) {
        from
    } else {
        spec_first_free_counter(existing, stem, ext, from + 1)
    }
}

proof fn lemma_first_free_counter(
    existing: Seq<String>,
    stem: Seq<char>,
    ext: Seq<char>,
    from: int,
    upto: int,
)
    requires
        1 <= from <= upto <= 1000,
        forall|j: int|
            from <= j < upto ==> spec_contains_str(existing, spec_counter_name(stem, ext, j)),
        upto == 1000 || !spec_contains_str(existing, spec_counter_name(stem, ext, upto)),
    ensures
        spec_first_free_counter(existing, stem, ext, from) == upto,
    decreases upto - from,
{
    if from < upto {
        lemma_first_free_counter(existing, stem, ext, from + 1, upto);
    }
}

fn build_counter_name(stem: &Vec<char>, ext: &Vec<char>, c: u64) -> (r: String)
    requires
        c <= 1000,
    ensures
        r@ == spec_counter_name(stem@, ext@, c as int),
{
    let mut r = chars_to_string(stem);
    if c > 0 {
        push_char(&mut r, '_');
        let digits = u64_to_string(c);
        r.append(digits.as_str());
    }
    if ext.len() > 0 {
        push_char(&mut r, '.');
        let e = chars_to_string(ext);
        r.append(e.as_str());
    }
    proof {
        assert(r@ =~= spec_counter_name(stem@, ext@, c as int));
    }
    r
}

/// Resolves a quarantine-directory name against the names already
/// present: the bare name when free, else the first counter suffix in
/// `1..=1000` that is free, else the counter `1000` name accepted as
/// the bounded-retry last resort.
#[verifier::loop_isolation(false)]
pub fn resolve_collision_name(name: &str, existing: &Vec<String>) -> (r: String)
    ensures
        ({
            let stem = spec_stem(spec_file_name(name@));
            let ext = crate::strutil::spec_extension(spec_file_name(name@));
            if !spec_contains_str(existing@, name@) {
                r@ == name@
            } else {
                let free = spec_first_free_counter(existing@, stem, ext, 1);
                &&& r@ == spec_counter_name(stem, ext, free)
                &&& (free < 1000 ==> !spec_contains_str(existing@, r@))
            }
        }),
{
    if !contains_name(existing, name) {
        let chars = str_to_chars(name);
        return chars_to_string(&chars);
    }
    let chars = str_to_chars(name);
    let n = chars.len();
    let name_start: usize = match find_last_char(&chars, '/') {
        Some(i) => i + 1,
        None => 0,
    };
    let comp = chars_subrange(&chars, name_start, n);
    proof {
        match chars@.index_of_last('/') {
            Some(i) => {
                assert(comp@ == spec_file_name(name@));
            },
            None => {
                assert(chars@.subrange(0, chars@.len() as int) =~= chars@);
                assert(comp@ == spec_file_name(name@));
            },
        }
    }
    let (stem, ext) = match find_last_char(&comp, '.') {
        Some(i) => {
            if i > 0 {
                (chars_subrange(&comp, 0, i), chars_subrange(&comp, i + 1, comp.len()))
            } else {
                (chars_subrange(&comp, 0, comp.len()), Vec::new())
            }
        },
        None => (chars_subrange(&comp, 0, comp.len()), Vec::new()),
    };
    proof {
        assert(comp@.subrange(0, comp@.len() as int) =~= comp@);
        assert(stem@ == spec_stem(comp@));
        assert(ext@ == crate::strutil::spec_extension(comp@));
    }
    let mut c: u64 = 1;
    while c < 1000
        invariant
            1 <= c <= 1000,
            forall|j: int|
                1 <= j < c ==> spec_contains_str(existing@, spec_counter_name(stem@, ext@, j)),
        decreases 1000 - c,
    {
        let candidate = build_counter_name(&stem, &ext, c);
        if !contains_name(existing, candidate.as_str()) {
            proof {
                lemma_first_free_counter(existing@, stem@, ext@, 1, c as int);
            }
            return candidate;
        }
        c = c + 1;
    }
    proof {
        lemma_first_free_counter(existing@, stem@, ext@, 1, 1000);
    }
    build_counter_name(&stem, &ext, 1000)
}

// ---------------------------------------------------------------------
// Run accounting
// ---------------------------------------------------------------------

/// The five final counts of a run.
pub struct Summary {
    pub imported: usize,
    pub duplicates: usize,
    pub corrupt: usize,
    pub undated: usize,
    pub skipped: usize,
}

pub open spec fn spec_count_imported(rs: Seq<FileProcessingResult>) -> int
    decreases rs.len(),
{
    if rs.len() == 0 {
        0
    } else {
        spec_count_imported(rs.drop_last()) + if rs.last() is Imported {
            1int
        } else {
            0int
        }
    }
}

pub open spec fn spec_count_duplicate(rs: Seq<FileProcessingResult>) -> int
    decreases rs.len(),
{
    if rs.len() == 0 {
        0
    } else {
        spec_count_duplicate(rs.drop_last()) + if rs.last() is Duplicate {
            1int
        } else {
            0int
        }
    }
}

pub open spec fn spec_count_corrupt(rs: Seq<FileProcessingResult>) -> int
    decreases rs.len(),
{
    if rs.len() == 0 {
        0
    } else {
        spec_count_corrupt(rs.drop_last()) + if rs.last() is Corrupt {
            1int
        } else {
            0int
        }
    }
}

pub open spec fn spec_count_undated(rs: Seq<FileProcessingResult>) -> int
    decreases rs.len(),
{
    if rs.len() == 0 {
        0
    } else {
        spec_count_undated(rs.drop_last()) + if rs.last() is Undated {
            1int
        } else {
            0int
        }
    }
}

/// Folds per-file results into the five counts.  A vanished source is
/// counted in no category; skipped files were counted at
/// classification time and are handed in.
pub fn summarize(results: &Vec<FileProcessingResult>, skipped: usize) -> (r: Summary)
    ensures
        r.imported == spec_count_imported(results@),
        r.duplicates == spec_count_duplicate(results@),
        r.corrupt == spec_count_corrupt(results@),
        r.undated == spec_count_undated(results@),
        r.skipped == skipped,
{
    let n = results.len();
    let mut imported: usize = 0;
    let mut duplicates: usize = 0;
    let mut corrupt: usize = 0;
    let mut undated: usize = 0;
    let mut i: usize = 0;
    while i < n
        invariant
            n == results@.len(),
            i <= n,
            imported == spec_count_imported(results@.take(i as int)),
            duplicates == spec_count_duplicate(results@.take(i as int)),
            corrupt == spec_count_corrupt(results@.take(i as int)),
            undated == spec_count_undated(results@.take(i as int)),
            imported + duplicates + corrupt + undated <= i,
        decreases n - i,
    {
        proof {
            assert(results@.take(i + 1).drop_last() =~= results@.take(i as int));
            assert(results@.take(i + 1).last() == results@[i as int]);
        }
        match &results[i] {
            FileProcessingResult::Imported { .. } => {
                imported = imported + 1;
            },
            FileProcessingResult::Duplicate { .. } => {
                duplicates = duplicates + 1;
            },
            FileProcessingResult::Undated { .. } => {
                undated = undated + 1;
            },
            FileProcessingResult::Corrupt => {
                corrupt = corrupt + 1;
            },
            FileProcessingResult::Vanished => {},
        }
        i = i + 1;
    }
    proof {
        assert(results@.take(n as int) =~= results@);
    }
    Summary { imported, duplicates, corrupt, undated, skipped }
}

/// The one-line run summary, with the dry-run prefix when nothing was
/// executed.
pub open spec fn spec_summary_line(s: Summary, execute: bool) -> Seq<char> {
    (if execute {
        Seq::<char>::empty()
    } else {
        "[DRY RUN] "@
    }) + spec_dec(s.imported as nat) + " imported, "@ + spec_dec(s.duplicates as nat)
        + " duplicates, "@ + spec_dec(s.corrupt as nat) + " corrupt, "@ + spec_dec(
        s.undated as nat,
    ) + " undated, "@ + spec_dec(s.skipped as nat) + " skipped"@
}

/// Renders the final summary line.
pub fn summary_line(s: &Summary, execute: bool) -> (r: String)
    ensures
        r@ == spec_summary_line(*s, execute),
{
    let mut r = String::new();
    if !execute {
        r.append("[DRY RUN] ");
    }
    let d = u64_to_string(s.imported as u64);
    r.append(d.as_str());
    r.append(" imported, ");
    let d = u64_to_string(s.duplicates as u64);
    r.append(d.as_str());
    r.append(" duplicates, ");
    let d = u64_to_string(s.corrupt as u64);
    r.append(d.as_str());
    r.append(" corrupt, ");
    let d = u64_to_string(s.undated as u64);
    r.append(d.as_str());
    r.append(" undated, ");
    let d = u64_to_string(s.skipped as u64);
    r.append(d.as_str());
    r.append(" skipped");
    proof {
        assert(r@ =~= spec_summary_line(*s, execute));
    }
    r
}



// ---------------------------------------------------------------------
// Manifest batching
// ---------------------------------------------------------------------

/// The records among `entries` destined for one directory, in order.
pub open spec fn spec_entries_for(entries: Seq<ManifestEntry>, dir: Seq<char>) -> Seq<
    (String, FileEntry),
>
    decreases entries.len(),
{
    if entries.len() == 0 {
        Seq::empty()
    } else {
        spec_entries_for(entries.drop_last(), dir) + (if entries.last().dir@ == dir {
            seq![(entries.last().filename, entries.last().entry)]
        } else {
            Seq::empty()
        })
    }
}

/// Some group of the batch carries this directory.
pub open spec fn spec_has_group(
    r: Seq<(String, Vec<(String, FileEntry)>)>,
    dir: Seq<char>,
) -> bool {
    exists|g: int| 0 <= g < r.len() && r[g].0@ == dir
}

/// Some record of the run names this directory.
pub open spec fn spec_some_entry_dir(entries: Seq<ManifestEntry>, dir: Seq<char>) -> bool {
    exists|i: int| 0 <= i < entries.len() && entries[i].dir@ == dir
}

/// Groups the run's manifest records by destination directory, so that
/// each touched directory is loaded and saved exactly once: the groups
/// carry pairwise distinct directories, each group holds exactly the
/// records bound for its directory in order, and a group exists for
/// every record's directory and for nothing else.
#[verifier::loop_isolation(false)]
pub fn group_manifest_entries(entries: &Vec<ManifestEntry>) -> (r: Vec<
    (String, Vec<(String, FileEntry)>),
>)
    ensures
        forall|g1: int, g2: int| 0 <= g1 < g2 < r@.len() ==> r@[g1].0@ != r@[g2].0@,
        forall|g: int| 0 <= g < r@.len() ==> r@[g].1@ == spec_entries_for(entries@, r@[g].0@),
        forall|i: int|
            #![trigger entries@[i]]
            0 <= i < entries@.len() ==> spec_has_group(r@, entries@[i].dir@),
        forall|g: int|
            #![trigger r@[g]]
            0 <= g < r@.len() ==> spec_some_entry_dir(entries@, r@[g].0@),
{
    let n = entries.len();
    let mut dirs: Vec<String> = Vec::new();
    let mut i: usize = 0;
    while i < n
        invariant
            n == entries@.len(),
            i <= n,
            forall|g1: int, g2: int| 0 <= g1 < g2 < dirs@.len() ==> dirs@[g1]@ != dirs@[g2]@,
            forall|j: int| 0 <= j < i ==> spec_contains_str(dirs@, entries@[j].dir@),
            forall|g: int|
                #![trigger dirs@[g]]
                0 <= g < dirs@.len() ==> exists|j: int|
                    0 <= j < i && entries@[j].dir@ == dirs@[g]@,
        decreases n - i,
    {
        let ghost pre = dirs@;
        if !contains_name(&dirs, entries[i].dir.as_str()) {
            dirs.push(entries[i].dir.clone());
            proof {
                assert(dirs@.drop_last() =~= pre);
                assert forall|g: int| #![trigger dirs@[g]] 0 <= g < dirs@.len() implies exists|
                    j: int,
                |
                    0 <= j < i + 1 && entries@[j].dir@ == dirs@[g]@ by {
                    if g < pre.len() {
                        let j = choose|j: int| 0 <= j < i && entries@[j].dir@ == pre[g]@;
                        assert(0 <= j < i + 1 && entries@[j].dir@ == dirs@[g]@);
                    } else {
                        assert(entries@[i as int].dir@ == dirs@[g]@);
                    }
                }
                assert forall|j: int| 0 <= j < i + 1 implies spec_contains_str(
                    dirs@,
                    entries@[j].dir@,
                ) by {
                    if j < i {
                        let x = choose|x: int|
                            0 <= x < pre.len() && pre[x]@ == entries@[j].dir@;
                        assert(dirs@[x]@ == entries@[j].dir@);
                    } else {
                        assert(dirs@[dirs@.len() - 1]@ == entries@[j].dir@);
                    }
                }
            }
        } else {
            proof {
                assert forall|g: int| #![trigger dirs@[g]] 0 <= g < dirs@.len() implies exists|
                    j: int,
                |
                    0 <= j < i + 1 && entries@[j].dir@ == dirs@[g]@ by {
                    let j = choose|j: int| 0 <= j < i && entries@[j].dir@ == dirs@[g]@;
                    assert(0 <= j < i + 1 && entries@[j].dir@ == dirs@[g]@);
                }
            }
        }
        i = i + 1;
    }
    let m = dirs.len();
    let mut r: Vec<(String, Vec<(String, FileEntry)>)> = Vec::new();
    let mut g: usize = 0;
    while g < m
        invariant
            n == entries@.len(),
            m == dirs@.len(),
            g <= m,
            r@.len() == g,
            forall|g1: int, g2: int| 0 <= g1 < g2 < dirs@.len() ==> dirs@[g1]@ != dirs@[g2]@,
            forall|x: int| 0 <= x < g ==> r@[x].0@ == dirs@[x]@,
            forall|x: int| 0 <= x < g ==> r@[x].1@ == spec_entries_for(entries@, r@[x].0@),
        decreases m - g,
    {
        let dir = dirs[g].clone();
        let mut group: Vec<(String, FileEntry)> = Vec::new();
        let mut j: usize = 0;
        while j < n
            invariant
                n == entries@.len(),
                j <= n,
                dir@ == dirs@[g as int]@,
                g < m,
                m == dirs@.len(),
                group@ == spec_entries_for(entries@.take(j as int), dir@),
            decreases n - j,
        {
            proof {
                assert(entries@.take(j + 1).drop_last() =~= entries@.take(j as int));
                assert(entries@.take(j + 1).last() == entries@[j as int]);
            }
            if crate::strutil::str_eq(entries[j].dir.as_str(), dir.as_str()) {
                let pair = (entries[j].filename.clone(), entries[j].entry.clone());
                group.push(pair);
                proof {
                    assert(group@ =~= spec_entries_for(entries@.take(j + 1), dir@));
                }
            } else {
                proof {
                    assert(group@ =~= spec_entries_for(entries@.take(j + 1), dir@));
                }
            }
            j = j + 1;
        }
        proof {
            assert(entries@.take(n as int) =~= entries@);
        }
        r.push((dir, group));
        g = g + 1;
    }
    proof {
        assert forall|g1: int, g2: int| 0 <= g1 < g2 < r@.len() implies r@[g1].0@ != r@[g2].0@ by {
            assert(r@[g1].0@ == dirs@[g1]@);
            assert(r@[g2].0@ == dirs@[g2]@);
        }
        assert forall|i: int| #![trigger entries@[i]] 0 <= i < entries@.len() implies
            spec_has_group(r@, entries@[i].dir@) by {
            assert(spec_contains_str(dirs@, entries@[i].dir@));
            let x = choose|x: int| 0 <= x < dirs@.len() && dirs@[x]@ == entries@[i].dir@;
            assert(0 <= x < r@.len() && r@[x].0@ == entries@[i].dir@);
        }
        assert forall|x: int| #![trigger r@[x]] 0 <= x < r@.len() implies spec_some_entry_dir(
            entries@,
            r@[x].0@,
        ) by {
            let j = choose|j: int| 0 <= j < entries@.len() && entries@[j].dir@ == dirs@[x]@;
            assert(0 <= j < entries@.len() && entries@[j].dir@ == r@[x].0@);
        }
    }
    r
}

// ---------------------------------------------------------------------
// Laws
// ---------------------------------------------------------------------

/// Law (idempotent re-import, counting half): a run in which every
/// file came back as a duplicate reports exactly as many duplicates as
/// files, and nothing imported, corrupt or undated.
pub proof fn lemma_all_duplicates_count(rs: Seq<FileProcessingResult>)
    requires
        forall|i: int| 0 <= i < rs.len() ==> rs[i] is Duplicate,
    ensures
        spec_count_duplicate(rs) == rs.len(),
        spec_count_imported(rs) == 0,
        spec_count_corrupt(rs) == 0,
        spec_count_undated(rs) == 0,
    decreases rs.len(),
{
    if rs.len() > 0 {
        assert(rs.last() is Duplicate);
        lemma_all_duplicates_count(rs.drop_last());
    }
}

/// Law (idempotent re-import, index half): a record filed in any
/// manifest of the target tree makes its content hash known to the
/// index built from those manifests, so the router sends a file with
/// that hash to duplicates, never to a fresh import.
pub proof fn lemma_filed_record_is_indexed(
    ms: Seq<(String, Manifest)>,
    idx: DedupIndex,
    a: int,
    name: Seq<char>,
)
    requires
        forall|h: Seq<char>| idx.spec_contains(h) <==> spec_manifests_contain(ms, h),
        0 <= a < ms.len(),
        ms[a].1.files.spec_get(name) is Some,
    ensures
        idx.spec_contains(ms[a].1.files.spec_get(name)->0.sha256@),
{
    lemma_lookup_some_exists(ms[a].1.files@, name);
    let b = choose|b: int|
        0 <= b < ms[a].1.files@.len() && ms[a].1.files@[b].0@ == name && ms[a].1.files@[b].1
            == ms[a].1.files.spec_get(name)->0;
    assert(spec_record_at(ms, a, b, ms[a].1.files.spec_get(name)->0.sha256@));
}

/// Law (dedup correctness): the hex key under which content is
/// deduplicated identifies the content hash exactly — equal hashes
/// give one key and distinct hashes give distinct keys — so two
/// byte-identical files always meet the same index verdict, and
/// records of distinct content never collapse onto one key.
pub proof fn lemma_dedup_key_faithful(idx: DedupIndex, h1: [u8; 32], h2: [u8; 32])
    ensures
        (h1@ == h2@) <==> (spec_hex(h1@) == spec_hex(h2@)),
        h1@ == h2@ ==> (idx.spec_contains(spec_hex(h1@)) <==> idx.spec_contains(spec_hex(h2@))),
        h1@ == h2@ ==> idx.spec_lookup_hash(spec_hex(h1@)) == idx.spec_lookup_hash(spec_hex(h2@)),
{
    if spec_hex(h1@) == spec_hex(h2@) {
        crate::hexfmt::lemma_hex_injective(h1@, h2@);
    }
}

/// Law (hash stability): the digest is a function of the byte stream
/// alone, so byte-identical content always carries one digest, one hex
/// key, and one index verdict — wherever one copy is routed to
/// duplicates, so is the other.
pub proof fn lemma_identical_content_one_verdict(idx: DedupIndex, b1: Seq<u8>, b2: Seq<u8>)
    requires
        b1 == b2,
    ensures
        crate::hashing::sha256_of(b1) == crate::hashing::sha256_of(b2),
        spec_hex(crate::hashing::sha256_of(b1)) == spec_hex(crate::hashing::sha256_of(b2)),
        idx.spec_contains(spec_hex(crate::hashing::sha256_of(b1))) <==> idx.spec_contains(
            spec_hex(crate::hashing::sha256_of(b2)),
        ),
{
}

/// Law (collision resolution preserves distinct content): when every
/// planned destination name is added to the taken set before the next
/// file is planned, and each plan found a free name, the planned
/// names are pairwise distinct — no later file overwrites an earlier
/// one.
pub proof fn lemma_planned_names_distinct(existing: Seq<Seq<String>>, names: Seq<Seq<char>>)
    requires
        existing.len() == names.len(),
        forall|i: int| 0 <= i < names.len() ==> !spec_contains_str(existing[i], names[i]),
        forall|i: int, j: int|
            0 <= i < j < names.len() ==> spec_contains_str(existing[j], names[i]),
    ensures
        forall|i: int, j: int| 0 <= i < j < names.len() ==> names[i] != names[j],
{
    assert forall|i: int, j: int| 0 <= i < j < names.len() implies names[i] != names[j] by {
        assert(spec_contains_str(existing[j], names[i]));
        assert(!spec_contains_str(existing[j], names[j]));
    }
}

// ---------------------------------------------------------------------
// Timestamps for provenance records
// ---------------------------------------------------------------------

/// A civil timestamp rendered as an RFC 3339 UTC line with a trailing
/// `Z`.
pub open spec fn spec_iso8601(c: (u16, u8, u8, u8, u8, u8)) -> Seq<char> {
    spec_padded(c.0 as nat, 4) + seq!['-'] + spec_padded(c.1 as nat, 2) + seq!['-'] + spec_padded(
        c.2 as nat,
        2,
    ) + seq!['T'] + spec_padded(c.3 as nat, 2) + seq![':'] + spec_padded(c.4 as nat, 2) + seq![':']
        + spec_padded(c.5 as nat, 2) + seq!['Z']
}

fn format_iso8601(c: (u16, u8, u8, u8, u8, u8)) -> (r: String)
    ensures
        r@ == spec_iso8601(c),
{
    let mut r = String::new();
    push_padded(&mut r, c.0 as u64, 4);
    push_char(&mut r, '-');
    push_padded(&mut r, c.1 as u64, 2);
    push_char(&mut r, '-');
    push_padded(&mut r, c.2 as u64, 2);
    push_char(&mut r, 'T');
    push_padded(&mut r, c.3 as u64, 2);
    push_char(&mut r, ':');
    push_padded(&mut r, c.4 as u64, 2);
    push_char(&mut r, ':');
    push_padded(&mut r, c.5 as u64, 2);
    push_char(&mut r, 'Z');
    proof {
        assert(r@ =~= spec_iso8601(c));
    }
    r
}

/// The moment of import rendered as an RFC 3339 UTC timestamp: the
/// civil reading, in UTC, of some epoch second within jiff's window.
/// It always ends with `'Z'`.
pub fn now_iso8601() -> (r: String)
    ensures
        exists|secs: int|
            jiff_timestamp_range(secs) && r@ == spec_iso8601(civil_utc_of(secs)),
        r@.len() > 0 && r@.last() == 'Z',
{
    let secs = now_epoch_seconds();
    let c = match civil_from_epoch_seconds(secs) {
        Some(c) => c,
        None => (1970u16, 1u8, 1u8, 0u8, 0u8, 0u8),
    };
    let r = format_iso8601(c);
    proof {
        assert(jiff_timestamp_range(secs as int) && r@ == spec_iso8601(civil_utc_of(secs as int)));
        assert(r@.last() == 'Z');
    }
    r
}

} // verus!
