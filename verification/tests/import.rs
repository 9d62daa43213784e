// Scenario tests for the import engine, driven through its decision
// stages with simulated filesystem observations.

use image_organiser::engine::{
    CopyOutcome, Conclusion, FileProcessingResult, HashOutcome, Route, create_manifest_entry,
    now_iso8601, should_remove_source, stage_conclude, stage_destination, stage_route, summarize,
    summary_line,
};
use image_organiser::hexfmt::format_hash;
use image_organiser::manifest::{DedupIndex, FileEntry, Manifest, build_dedup_index,
    generate_filename};
use image_organiser::metadata::{DateExtracted, DateProbe, DateSource, extract_date};
use image_organiser::scan::{MediaFile, classify_file, extract_source_group};

fn hash_of(seed: u8) -> [u8; 32] {
    let mut h = [0u8; 32];
    for (i, b) in h.iter_mut().enumerate() {
        *b = seed.wrapping_add(i as u8).wrapping_mul(37);
    }
    h
}

fn probe_with_mtime(secs: i64) -> DateProbe {
    DateProbe {
        exif_datetime_original: None,
        exif_create_date: None,
        exif_modify_date: None,
        qt_creation_date: None,
        qt_media_create_date: None,
        fs_created_epoch: None,
        fs_modified_epoch: Some(secs),
    }
}

fn empty_probe() -> DateProbe {
    DateProbe {
        exif_datetime_original: None,
        exif_create_date: None,
        exif_modify_date: None,
        qt_creation_date: None,
        qt_media_create_date: None,
        fs_created_epoch: None,
        fs_modified_epoch: None,
    }
}

fn entry_for(dest_dir: &str, filename: &str, hash: &[u8; 32], path: &str) -> (String, FileEntry) {
    let e = create_manifest_entry(
        dest_dir.to_string(),
        filename.to_string(),
        format_hash(hash),
        path.to_string(),
        path.to_string(),
        Some("filesystem_modified".to_string()),
        extract_source_group(path),
        now_iso8601(),
        42,
    );
    (e.filename, e.entry)
}

/// Imports one fresh, dated file in execute mode and returns the
/// destination directory, the chosen filename and the record pair.
fn import_fresh(
    path: &str,
    extension: &str,
    hash: &[u8; 32],
    index: &DedupIndex,
    target: &str,
    existing: &Vec<String>,
    mtime: i64,
) -> (String, String, (String, FileEntry)) {
    let route = stage_route(&HashOutcome::Hashed { hash: *hash }, true, target, index);
    match route {
        Route::Fresh { .. } => {}
        _ => panic!("content must be fresh"),
    }
    let date = extract_date(&probe_with_mtime(mtime));
    let dir = stage_destination(&date, target);
    let name = generate_filename(&date, extension, hash, existing);
    let pair = entry_for(&dir, &name, hash, path);
    (dir, name, pair)
}

// --- S1: First Import (Happy Path) ---

#[test]
fn dry_run_produces_no_files() {
    // photo.jpg and video.mov, both fresh: in dry-run mode no stage
    // names a directory to write into, so nothing can be created.
    let index = DedupIndex::new();
    let results = vec![
        stage_route(
            &HashOutcome::Hashed { hash: hash_of(1) },
            false,
            "target",
            &index,
        ),
        stage_route(
            &HashOutcome::Hashed { hash: hash_of(2) },
            false,
            "target",
            &index,
        ),
    ];
    for r in &results {
        match r {
            Route::Fresh { .. } => {}
            Route::CorruptFile { quarantine_dir } => {
                assert!(quarantine_dir.is_none(), "dry-run must not create any files in target")
            }
            Route::DuplicateFound { copy_dir, .. } => {
                assert!(copy_dir.is_none(), "dry-run must not create any files in target")
            }
            Route::Vanished => {}
        }
    }
    let summary = summarize(
        &vec![
            FileProcessingResult::Imported { manifest_entry: None },
            FileProcessingResult::Imported { manifest_entry: None },
        ],
        0,
    );
    let line = summary_line(&summary, false);
    assert!(line.starts_with("[DRY RUN]"));
}

#[test]
fn dry_run_shows_per_file_operations() {
    // photo.jpg is recognized, notes.txt is not: the text file is
    // skipped and reported with its extension.
    match classify_file("photo.jpg") {
        MediaFile::Recognized { .. } => {}
        MediaFile::Unrecognized { .. } => panic!(".jpg must be recognized"),
    }
    match classify_file("notes.txt") {
        MediaFile::Unrecognized { extension, .. } => {
            assert_eq!(extension, "txt", ".txt unrecognized");
        }
        MediaFile::Recognized { .. } => panic!(".txt must be unrecognized"),
    }
}

#[test]
fn execute_creates_organized_structure_with_manifests() {
    // a.png and b.jpg, both fresh and dated: both are planned into a
    // dated directory and recorded with full provenance.
    let index = DedupIndex::new();
    let target = "target";
    let existing: Vec<String> = Vec::new();
    let (dir_a, name_a, pair_a) =
        import_fresh("a.png", "png", &hash_of(1), &index, target, &existing, 1700000000);
    let (dir_b, name_b, pair_b) =
        import_fresh("b.jpg", "jpg", &hash_of(2), &index, target, &existing, 1700000000);
    assert_eq!(dir_a, "target/2023/11");
    assert_eq!(dir_b, "target/2023/11");
    let mut manifest = Manifest::new();
    manifest.files.insert(name_a.clone(), pair_a.1.clone());
    manifest.files.insert(name_b.clone(), pair_b.1.clone());
    let summary = summarize(
        &vec![
            FileProcessingResult::Imported { manifest_entry: None },
            FileProcessingResult::Imported { manifest_entry: None },
        ],
        0,
    );
    assert_eq!(summary.imported, 2, "2 imported");
    assert_eq!(manifest.version, 1);
    for (_, entry) in manifest.files.items() {
        assert_eq!(entry.sha256.len(), 64, "sha256 must be present");
        assert!(!entry.original_path.is_empty(), "original_path must be present");
        assert!(!entry.original_name.is_empty(), "original_name must be present");
        assert!(!entry.imported_at.is_empty(), "imported_at must be present");
        assert_eq!(entry.file_size_bytes, 42, "file_size_bytes must be present");
    }
    assert_eq!(manifest.files.len(), 2, "manifest with files should be created in dated folder");
    let looked_up = manifest.files.get(&name_a).expect("the record is filed under its name");
    assert_eq!(looked_up.sha256, pair_a.1.sha256);
    assert!(manifest.files.get("absent.jpg").is_none());
}

// --- S2: Deduplication Across Multiple Imports ---

#[test]
fn second_import_detects_duplicates() {
    let target = "target";
    let empty_index = DedupIndex::new();
    let existing: Vec<String> = Vec::new();
    // First import: photo.jpg and video.mov.
    let (dir_p, name_p, pair_p) =
        import_fresh("photo.jpg", "jpg", &hash_of(10), &empty_index, target, &existing, 1700000000);
    let (_dir_v, name_v, pair_v) =
        import_fresh("video.mov", "mov", &hash_of(20), &empty_index, target, &existing, 1700000000);
    let mut dated = Manifest::new();
    dated.files.insert(name_p, pair_p.1);
    dated.files.insert(name_v, pair_v.1);
    let manifests = vec![(dir_p, dated)];
    let index = build_dedup_index(&manifests);

    // Second import: copy_of_photo.jpg repeats photo.jpg's content,
    // new_file.png is brand new.
    let route_copy = stage_route(
        &HashOutcome::Hashed { hash: hash_of(10) },
        true,
        target,
        &index,
    );
    let mut duplicates = Manifest::new();
    match route_copy {
        Route::DuplicateFound { copy_dir, .. } => {
            assert_eq!(
                copy_dir.as_deref(),
                Some("target/duplicates"),
                "duplicates/ directory must be created"
            );
            let pair = entry_for("target/duplicates", "copy_of_photo.jpg", &hash_of(10),
                "copy_of_photo.jpg");
            duplicates.files.insert(pair.0, pair.1);
        }
        _ => panic!("repeated content must be found in the index"),
    }
    let route_new = stage_route(
        &HashOutcome::Hashed { hash: hash_of(30) },
        true,
        target,
        &index,
    );
    match route_new {
        Route::Fresh { .. } => {}
        _ => panic!("new content must be fresh"),
    }
    let summary = summarize(
        &vec![
            FileProcessingResult::Duplicate { manifest_entry: None },
            FileProcessingResult::Imported { manifest_entry: None },
        ],
        0,
    );
    assert_eq!(summary.imported, 1, "1 imported");
    assert_eq!(summary.duplicates, 1, "1 duplicates");
    assert_eq!(duplicates.files.len(), 1, "one duplicate should be quarantined");
}

#[test]
fn idempotent_rerun_shows_all_duplicates() {
    let target = "target";
    let empty_index = DedupIndex::new();
    let existing: Vec<String> = Vec::new();
    let inputs = [("a.jpg", "jpg", 1u8), ("b.png", "png", 2u8), ("c.mov", "mov", 3u8)];
    let mut dated = Manifest::new();
    let mut dir = String::new();
    let mut first_results = Vec::new();
    for (path, ext, seed) in &inputs {
        let (d, name, pair) =
            import_fresh(path, ext, &hash_of(*seed), &empty_index, target, &existing, 1700000000);
        dir = d;
        dated.files.insert(name, pair.1);
        first_results.push(FileProcessingResult::Imported { manifest_entry: None });
    }
    let first = summarize(&first_results, 0);
    assert_eq!(first.imported, 3, "3 imported");

    let manifests = vec![(dir, dated)];
    let index = build_dedup_index(&manifests);
    let mut second_results = Vec::new();
    for (_, _, seed) in &inputs {
        match stage_route(&HashOutcome::Hashed { hash: hash_of(*seed) }, false, target, &index) {
            Route::DuplicateFound { .. } => {
                second_results.push(FileProcessingResult::Duplicate { manifest_entry: None })
            }
            _ => panic!("rerun content must be duplicate"),
        }
    }
    let second = summarize(&second_results, 0);
    assert_eq!(second.duplicates, 3, "3 duplicates");
    assert_eq!(second.imported, 0);
}

// --- S5: Timestamp Collision Resolution ---

#[test]
fn collision_resolution_preserves_all_files() {
    // Three burst shots with distinct content but one capture second.
    let target = "target";
    let index = DedupIndex::new();
    let date = extract_date(&probe_with_mtime(1700000000));
    let mut existing: Vec<String> = Vec::new();
    let mut manifest = Manifest::new();
    let mut names = Vec::new();
    for seed in [1u8, 2, 3] {
        match stage_route(&HashOutcome::Hashed { hash: hash_of(seed) }, true, target, &index) {
            Route::Fresh { .. } => {}
            _ => panic!("burst shots are fresh"),
        }
        let h = hash_of(seed);
        let name = generate_filename(&date, "png", &h, &existing);
        assert!(!existing.contains(&name), "all 3 burst files must be preserved");
        existing.push(name.clone());
        let pair = entry_for("target/2023/11", &name, &h, "burst.png");
        manifest.files.insert(pair.0, pair.1);
        names.push(name);
    }
    assert_eq!(manifest.files.len(), 3, "all 3 burst files must be preserved (found files)");
    let mut hashes: Vec<String> = manifest
        .files
        .items()
        .iter()
        .map(|(_, e)| e.sha256.clone())
        .collect();
    hashes.sort();
    hashes.dedup();
    assert_eq!(hashes.len(), 3, "all 3 files must have distinct hashes");
}

// --- S6: Move vs Copy Semantics ---

#[test]
fn copy_preserves_source_files() {
    // keep_me.jpg is imported in copy mode: the removal guard never
    // fires without the move flag, whatever the sizes say.
    assert!(
        !should_remove_source(false, true, Some(13), Some(13)),
        "source file must still exist after copy"
    );
    assert!(!should_remove_source(false, true, Some(13), Some(14)));
    assert!(!should_remove_source(false, false, None, None));
}

#[test]
fn move_removes_source_files() {
    let target = "target";
    let index = DedupIndex::new();
    let existing: Vec<String> = Vec::new();
    let (dir, name, pair) =
        import_fresh("move_me.jpg", "jpg", &hash_of(7), &index, target, &existing, 1700000000);
    assert!(matches!(stage_conclude(&CopyOutcome::Copied), Conclusion::Recorded));
    // The copy landed with matching sizes: the source goes.
    assert!(
        should_remove_source(true, true, Some(12), Some(12)),
        "source file must be removed after move"
    );
    let mut manifest = Manifest::new();
    manifest.files.insert(name, pair.1);
    assert_eq!(manifest.files.len(), 1, "file must be in target");
    assert_eq!(dir, "target/2023/11");
}

// --- S7: Undated File Handling ---

#[test]
fn files_without_metadata_use_filesystem_dates() {
    // screenshot.png has no embedded metadata; the filesystem
    // timestamp still dates it.
    let date = extract_date(&probe_with_mtime(1700000000));
    match date {
        DateExtracted::Found { year, month, day, hour, minute, second, source } => {
            assert_eq!(
                (year, month, day, hour, minute, second),
                (2023, 11, 14, 22, 13, 20),
                "file without metadata should use filesystem date and be in dated folder"
            );
            assert_eq!(source, DateSource::FilesystemModified);
        }
        DateExtracted::NotFound => {
            panic!("file without metadata should use filesystem date and be in dated folder")
        }
    }
    let summary = summarize(&vec![FileProcessingResult::Imported { manifest_entry: None }], 0);
    assert_eq!(summary.imported, 1, "1 imported");
    assert_eq!(summary.undated, 0, "0 undated");
}

#[test]
fn filesystem_dates_preferred_over_undated() {
    let date = extract_date(&probe_with_mtime(1700000000));
    let dir = stage_destination(&date, "target");
    assert_eq!(
        dir, "target/2023/11",
        "file should be in dated folder (YYYY/MM/), not undated/"
    );
    // Only a file with no timestamp at all is undated.
    let undated = extract_date(&empty_probe());
    assert_eq!(undated, DateExtracted::NotFound);
    assert_eq!(stage_destination(&undated, "target"), "target/undated");
}

// --- S8: Unrecognized File Types ---

#[test]
fn unrecognized_extensions_skipped_with_warning() {
    let mut skipped = 0usize;
    for path in ["document.pdf", "archive.zip"] {
        match classify_file(path) {
            MediaFile::Unrecognized { extension, .. } => {
                assert!(extension == "pdf" || extension == "zip", "unrecognized extension");
                skipped += 1;
            }
            MediaFile::Recognized { .. } => panic!("must be unrecognized"),
        }
    }
    match classify_file("photo.jpg") {
        MediaFile::Recognized { .. } => {}
        MediaFile::Unrecognized { .. } => panic!(".jpg must be recognized"),
    }
    let summary = summarize(
        &vec![FileProcessingResult::Imported { manifest_entry: None }],
        skipped,
    );
    assert_eq!(summary.skipped, 2, "2 skipped");
    assert_eq!(summary.imported, 1, "1 imported");
}

// --- S10: Source Group Tracking ---

#[test]
fn source_group_tracked_in_manifest() {
    let mut groups = Vec::new();
    for name in ["IMG_1234.heic", "IMG_1234.mov", "IMG_1234.aae"] {
        groups.push(extract_source_group(name).expect("stem must be non-empty"));
    }
    assert_eq!(groups.len(), 3, "should have 3 files with source_group");
    for g in groups {
        assert_eq!(g, "IMG_1234", "all related files must share source_group");
    }
}

// --- S12: Source File Disappears ---

#[test]
fn disappearing_source_does_not_crash() {
    let index = DedupIndex::new();
    match stage_route(&HashOutcome::SourceMissing, true, "target", &index) {
        Route::Vanished => {}
        _ => panic!("a vanished source is dropped"),
    }
    // A vanished file is counted in no category.
    let summary = summarize(&vec![FileProcessingResult::Vanished], 0);
    assert_eq!(summary.imported + summary.duplicates + summary.corrupt + summary.undated, 0);
}

// --- Manifest Schema ---

#[test]
fn manifest_version_is_always_1() {
    let manifest = Manifest::new();
    assert_eq!(manifest.version, 1);
}

#[test]
fn manifest_imported_at_is_utc() {
    let imported_at = now_iso8601();
    assert!(imported_at.ends_with('Z'), "imported_at must end with Z (UTC)");
    assert!(imported_at.contains('T'), "imported_at must be ISO 8601");
}

// --- Summary Format ---

#[test]
fn summary_format_matches_spec() {
    let summary = summarize(
        &vec![FileProcessingResult::Imported { manifest_entry: None }],
        1,
    );
    let line = summary_line(&summary, false);
    assert_eq!(
        line, "[DRY RUN] 1 imported, 0 duplicates, 0 corrupt, 0 undated, 1 skipped",
        "summary line must match spec format"
    );
    let line = summary_line(&summary, true);
    assert_eq!(line, "1 imported, 0 duplicates, 0 corrupt, 0 undated, 1 skipped");
}

// --- Extension Coverage ---

#[test]
fn all_30_spec_extensions_are_recognized() {
    let extensions = [
        "heic", "heif", "jpeg", "jpg", "png", "tiff", "tif", "webp", "bmp", "gif", "avif", "cr2",
        "cr3", "nef", "arw", "raf", "rw2", "dng", "orf", "pef", "srw", "3fr", "mov", "mp4", "m4v",
        "avi", "mkv", "3gp", "aae",
    ];

    for ext in &extensions {
        let path = format!("test.{}", ext);
        match classify_file(&path) {
            MediaFile::Recognized { .. } => {}
            MediaFile::Unrecognized { .. } => {
                panic!(".{} must be recognized per spec", ext);
            }
        }
    }
}

#[test]
fn case_insensitive_extensions() {
    let cases = ["JPG", "Heic", "MOV", "Png", "AAE"];
    for ext in &cases {
        let path = format!("test.{}", ext);
        match classify_file(&path) {
            MediaFile::Recognized { .. } => {}
            MediaFile::Unrecognized { .. } => {
                panic!(".{} must be recognized (case insensitive)", ext);
            }
        }
    }
}

// --- The concrete three-file scenario ---

#[test]
fn identical_content_scenario_rerun_quarantines_all() {
    // a.jpg and b.png share content "X", c.mov holds "Y".  The index
    // is built once before the run, so within one run both copies of
    // "X" are fresh; on the rerun every file, b included, is caught.
    let target = "target";
    let empty_index = DedupIndex::new();
    let existing: Vec<String> = Vec::new();
    let x = hash_of(9);
    let y = hash_of(5);
    let mut dated = Manifest::new();
    let (dir, name_a, pair_a) =
        import_fresh("a.jpg", "jpg", &x, &empty_index, target, &existing, 1700000000);
    dated.files.insert(name_a, pair_a.1);
    let taken = vec![dated.files.items()[0].0.clone()];
    let name_b = generate_filename(
        &extract_date(&probe_with_mtime(1700000000)),
        "png",
        &x,
        &taken,
    );
    let pair_b = entry_for(&dir, &name_b, &x, "b.png");
    dated.files.insert(name_b, pair_b.1);
    let (_, name_c, pair_c) =
        import_fresh("c.mov", "mov", &y, &empty_index, target, &existing, 1700000000);
    dated.files.insert(name_c, pair_c.1);

    let manifests = vec![(dir, dated)];
    let index = build_dedup_index(&manifests);
    let mut rerun = Vec::new();
    for h in [x, x, y] {
        match stage_route(&HashOutcome::Hashed { hash: h }, true, target, &index) {
            Route::DuplicateFound { .. } => {
                rerun.push(FileProcessingResult::Duplicate { manifest_entry: None })
            }
            _ => panic!("rerun content must be duplicate"),
        }
    }
    let summary = summarize(&rerun, 0);
    assert_eq!(summary.duplicates, 3);
}
