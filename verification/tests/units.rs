// Unit tests for the parsers, planners and formatters.

use image_organiser::engine::{
    Conclusion, CopyOutcome, FileProcessingResult, HashOutcome, Route, is_disk_full,
    resolve_collision_name, stage_conclude, stage_destination, stage_route, summarize,
    summary_line, undated_filename,
};
use image_organiser::hashing::{hasher_finalize, hasher_new, hasher_update, sha256_bytes};
use image_organiser::hexfmt::format_hash;
use image_organiser::manifest::{DedupIndex, build_dedup_index, generate_filename, join_path,
    Manifest};
use image_organiser::metadata::{
    DateExtracted, DateProbe, DateSource, EntryText, date_source_string, extract_date,
    parse_date_string, try_exif_dates, try_filesystem_dates, try_quicktime_dates,
};
use image_organiser::scan::{MediaFile, classify_file, extract_source_group};

fn found(date: DateExtracted) -> (u16, u8, u8, u8, u8, u8) {
    match date {
        DateExtracted::Found { year, month, day, hour, minute, second, .. } => {
            (year, month, day, hour, minute, second)
        }
        DateExtracted::NotFound => panic!("expected a resolved date"),
    }
}

// --- Timestamp string parsing ---

#[test]
fn parses_every_fixed_format() {
    let expect = Some((2023u16, 7u8, 14u8, 9u8, 30u8, 5u8));
    assert_eq!(parse_date_string("2023:07:14 09:30:05"), expect);
    assert_eq!(parse_date_string("2023-07-14 09:30:05"), expect);
    assert_eq!(parse_date_string("2023/07/14 09:30:05"), expect);
    assert_eq!(parse_date_string("2023:07:14T09:30:05"), expect);
    assert_eq!(parse_date_string("2023-07-14T09:30:05"), expect);
    assert_eq!(parse_date_string("2023-07-14T09:30:05Z"), expect);
    assert_eq!(parse_date_string("2023:07:14 09:30"), Some((2023, 7, 14, 9, 30, 0)));
    assert_eq!(parse_date_string("2023-07-14"), Some((2023, 7, 14, 0, 0, 0)));
}

#[test]
fn parse_trims_whitespace() {
    assert_eq!(
        parse_date_string("  2023-07-14 09:30:05\n"),
        Some((2023, 7, 14, 9, 30, 5))
    );
}

#[test]
fn parse_rejects_malformed_strings() {
    assert_eq!(parse_date_string(""), None);
    assert_eq!(parse_date_string("not a date"), None);
    assert_eq!(parse_date_string("2023-07-14 09:30:05 trailing"), None);
    assert_eq!(parse_date_string("23-07-14 09:30:05"), None);
    assert_eq!(parse_date_string("2023-7-14 09:30:05"), None);
    assert_eq!(parse_date_string("2023-07-14 09:30:05+02:00"), None);
}

#[test]
fn parse_rejects_impossible_dates() {
    assert_eq!(parse_date_string("2023-02-30 10:00:00"), None);
    assert_eq!(parse_date_string("2023-13-01 10:00:00"), None);
    assert_eq!(parse_date_string("2023-00-10 10:00:00"), None);
    assert_eq!(parse_date_string("2023-04-31 10:00:00"), None);
    assert_eq!(parse_date_string("2023-07-14 24:00:00"), None);
    assert_eq!(parse_date_string("2023-07-14 10:60:00"), None);
    assert_eq!(parse_date_string("2023-07-14 10:00:60"), None);
}

#[test]
fn parse_knows_leap_years() {
    assert_eq!(parse_date_string("2024-02-29 01:02:03"), Some((2024, 2, 29, 1, 2, 3)));
    assert_eq!(parse_date_string("2023-02-29 01:02:03"), None);
    assert_eq!(parse_date_string("2000-02-29 01:02:03"), Some((2000, 2, 29, 1, 2, 3)));
    assert_eq!(parse_date_string("1900-02-29 01:02:03"), None);
}

// --- The fallback chain ---

fn probe(
    exif_original: Option<EntryText>,
    qt_creation: Option<EntryText>,
    fs_created: Option<i64>,
    fs_modified: Option<i64>,
) -> DateProbe {
    DateProbe {
        exif_datetime_original: exif_original,
        exif_create_date: None,
        exif_modify_date: None,
        qt_creation_date: qt_creation,
        qt_media_create_date: None,
        fs_created_epoch: fs_created,
        fs_modified_epoch: fs_modified,
    }
}

fn text(s: &str) -> Option<EntryText> {
    Some(EntryText { time_text: None, raw_text: Some(s.to_string()) })
}

#[test]
fn exif_outranks_container_and_filesystem() {
    let p = probe(
        text("2020:01:02 03:04:05"),
        text("2021:01:02 03:04:05"),
        Some(1700000000),
        Some(1700000000),
    );
    let d = extract_date(&p);
    assert_eq!(found(d.clone()).0, 2020);
    match d {
        DateExtracted::Found { source, .. } => {
            assert_eq!(source, DateSource::ExifDateTimeOriginal)
        }
        _ => unreachable!(),
    }
}

#[test]
fn container_outranks_filesystem() {
    let p = probe(None, text("2021-06-01T10:20:30Z"), Some(1700000000), None);
    match extract_date(&p) {
        DateExtracted::Found { year, source, .. } => {
            assert_eq!(year, 2021);
            assert_eq!(source, DateSource::QuickTimeCreationDate);
        }
        _ => panic!("container tag must win"),
    }
}

#[test]
fn unparseable_exif_falls_through() {
    let p = probe(text("garbled"), None, None, Some(1700000000));
    match extract_date(&p) {
        DateExtracted::Found { source, .. } => {
            assert_eq!(source, DateSource::FilesystemModified)
        }
        _ => panic!("filesystem timestamp must catch the fallthrough"),
    }
}

#[test]
fn time_text_outranks_raw_text() {
    let e = EntryText {
        time_text: Some("2019:05:06 07:08:09".to_string()),
        raw_text: Some("2011:01:01 01:01:01".to_string()),
    };
    let p = probe(Some(e), None, None, None);
    assert_eq!(found(extract_date(&p)).0, 2019);
}

#[test]
fn created_time_preferred_over_modified() {
    let d = try_filesystem_dates(Some(1600000000), Some(1700000000));
    match d {
        Some(DateExtracted::Found { year, source, .. }) => {
            assert_eq!(year, 2020);
            assert_eq!(source, DateSource::FilesystemCreated);
        }
        _ => panic!("creation time must be preferred"),
    }
    assert_eq!(try_filesystem_dates(None, None), None);
}

#[test]
fn empty_probes_resolve_nothing() {
    assert_eq!(try_exif_dates(&probe(None, None, None, None)), None);
    assert_eq!(try_quicktime_dates(&probe(None, None, None, None)), None);
    assert_eq!(extract_date(&probe(None, None, None, None)), DateExtracted::NotFound);
}

#[test]
fn provenance_tags_spell_their_sources() {
    assert_eq!(
        date_source_string(&DateSource::ExifDateTimeOriginal),
        "exif_datetime_original"
    );
    assert_eq!(
        date_source_string(&DateSource::ExifDateTimeDigitized),
        "exif_datetime_digitized"
    );
    assert_eq!(date_source_string(&DateSource::ExifDateTime), "exif_datetime");
    assert_eq!(
        date_source_string(&DateSource::QuickTimeCreationDate),
        "quicktime_creation_date"
    );
    assert_eq!(
        date_source_string(&DateSource::QuickTimeMediaCreateDate),
        "quicktime_media_create_date"
    );
    assert_eq!(date_source_string(&DateSource::FilesystemCreated), "filesystem_created");
    assert_eq!(date_source_string(&DateSource::FilesystemModified), "filesystem_modified");
}

#[test]
fn filesystem_dates_outside_the_calendar_window_resolve_nothing() {
    // The civil conversion accepts epoch seconds up to the end of year
    // 9999 and no further; beyond it the chain falls through.
    assert!(matches!(
        try_filesystem_dates(Some(253402207200), None),
        Some(DateExtracted::Found { year: 9999, .. })
    ));
    assert_eq!(try_filesystem_dates(Some(253402207201), None), None);
    assert!(matches!(
        try_filesystem_dates(Some(253402207201), Some(0)),
        Some(DateExtracted::Found { year: 1970, month: 1, day: 1, .. })
    ));
}

// --- Content hashing ---

#[test]
fn digest_matches_known_answers() {
    let abc = sha256_bytes(&b"abc".to_vec());
    assert_eq!(
        format_hash(&abc),
        "ba7816bf8f01cfea414140de5dae2223b00361a396177a9cb410ff61f20015ad"
    );
    let empty = sha256_bytes(&Vec::new());
    assert_eq!(
        format_hash(&empty),
        "e3b0c44298fc1c149afbf4c8996fb92427ae41e4649b934ca495991b7852b855"
    );
}

#[test]
fn streaming_equals_one_shot_hashing() {
    let mut h = hasher_new();
    hasher_update(&mut h, b"same ");
    hasher_update(&mut h, b"content");
    let streamed = hasher_finalize(h);
    let whole = sha256_bytes(&b"same content".to_vec());
    assert_eq!(streamed, whole);
    assert_ne!(whole, sha256_bytes(&b"other content".to_vec()));
}

// --- Hash rendering ---

#[test]
fn hash_renders_as_lowercase_hex() {
    let mut h = [0u8; 32];
    h[0] = 0xab;
    h[1] = 0x01;
    h[31] = 0xff;
    let hex = format_hash(&h);
    assert_eq!(hex.len(), 64);
    assert!(hex.starts_with("ab01"));
    assert!(hex.ends_with("ff"));
    assert_eq!(&hex[4..62], "0".repeat(58));
}

// --- Filename planning ---

fn sample_date() -> DateExtracted {
    DateExtracted::Found {
        year: 2023,
        month: 7,
        day: 14,
        hour: 9,
        minute: 30,
        second: 5,
        source: DateSource::ExifDateTimeOriginal,
    }
}

fn sample_hash() -> [u8; 32] {
    let mut h = [0u8; 32];
    for (i, b) in h.iter_mut().enumerate() {
        *b = (i as u8) + 1;
    }
    h
}

#[test]
fn bare_timestamp_name_when_unused() {
    let existing: Vec<String> = Vec::new();
    let name = generate_filename(&sample_date(), "jpg", &sample_hash(), &existing);
    assert_eq!(name, "20230714_093005.jpg");
}

#[test]
fn collision_takes_hash_suffixes_in_order() {
    let h = sample_hash();
    let mut existing = vec!["20230714_093005.jpg".to_string()];
    let name = generate_filename(&sample_date(), "jpg", &h, &existing);
    assert_eq!(name, "20230714_093005_0102.jpg");
    existing.push(name);
    let name = generate_filename(&sample_date(), "jpg", &h, &existing);
    assert_eq!(name, "20230714_093005_0203.jpg");
}

#[test]
fn exhausted_suffixes_take_the_long_one() {
    let h = sample_hash();
    let mut existing = vec!["20230714_093005.jpg".to_string()];
    for i in 0u8..10 {
        existing.push(format!(
            "20230714_093005_{:02x}{:02x}.jpg",
            i + 1,
            i + 2
        ));
    }
    let name = generate_filename(&sample_date(), "jpg", &h, &existing);
    assert_eq!(name, "20230714_093005_01020304.jpg");
    // The last resort stands even when taken.
    existing.push(name.clone());
    assert_eq!(generate_filename(&sample_date(), "jpg", &h, &existing), name);
}

#[test]
fn undated_names_carry_a_hash_suffix() {
    let h = sample_hash();
    let name = undated_filename("shots/screenshot.png", "png", &h);
    assert_eq!(name, "screenshot_0102.png");
    let existing: Vec<String> = Vec::new();
    assert_eq!(
        generate_filename(&DateExtracted::NotFound, "png", &h, &existing),
        "undated.png"
    );
}

#[test]
fn month_and_day_are_zero_padded() {
    let date = DateExtracted::Found {
        year: 987,
        month: 1,
        day: 2,
        hour: 3,
        minute: 4,
        second: 5,
        source: DateSource::FilesystemModified,
    };
    let existing: Vec<String> = Vec::new();
    assert_eq!(
        generate_filename(&date, "dng", &sample_hash(), &existing),
        "09870102_030405.dng"
    );
    assert_eq!(stage_destination(&date, "t"), "t/0987/01");
}

// --- Quarantine collision naming ---

#[test]
fn quarantine_names_count_upward() {
    let existing: Vec<String> = Vec::new();
    assert_eq!(resolve_collision_name("photo.jpg", &existing), "photo.jpg");
    let existing = vec!["photo.jpg".to_string()];
    assert_eq!(resolve_collision_name("photo.jpg", &existing), "photo_1.jpg");
    let existing = vec![
        "photo.jpg".to_string(),
        "photo_1.jpg".to_string(),
        "photo_2.jpg".to_string(),
    ];
    assert_eq!(resolve_collision_name("photo.jpg", &existing), "photo_3.jpg");
    let existing = vec!["README".to_string()];
    assert_eq!(resolve_collision_name("README", &existing), "README_1");
}

// --- Routing and conclusions ---

#[test]
fn read_failure_quarantines_only_when_executing() {
    let index = DedupIndex::new();
    match stage_route(&HashOutcome::ReadFailed, true, "t", &index) {
        Route::CorruptFile { quarantine_dir } => {
            assert_eq!(quarantine_dir.as_deref(), Some("t/corrupt"))
        }
        _ => panic!("read failure is corrupt"),
    }
    match stage_route(&HashOutcome::ReadFailed, false, "t", &index) {
        Route::CorruptFile { quarantine_dir } => assert!(quarantine_dir.is_none()),
        _ => panic!("read failure is corrupt"),
    }
}

#[test]
fn duplicate_route_names_the_resident_path() {
    let mut dated = Manifest::new();
    let entry = image_organiser::engine::create_manifest_entry(
        "t/2023/11".to_string(),
        "20231114_221320.jpg".to_string(),
        format_hash(&sample_hash()),
        "orig.jpg".to_string(),
        "orig.jpg".to_string(),
        None,
        None,
        "2023-11-14T22:13:20Z".to_string(),
        3,
    );
    dated.files.insert(entry.filename.clone(), entry.entry);
    let manifests = vec![("t/2023/11".to_string(), dated)];
    let index = build_dedup_index(&manifests);
    match stage_route(
        &HashOutcome::Hashed { hash: sample_hash() },
        false,
        "t",
        &index,
    ) {
        Route::DuplicateFound { existing, copy_dir } => {
            assert_eq!(existing, "t/2023/11/20231114_221320.jpg");
            assert!(copy_dir.is_none());
        }
        _ => panic!("indexed content must be a duplicate"),
    }
    assert_eq!(join_path("a/b", "c.jpg"), "a/b/c.jpg");
}

#[test]
fn disk_full_is_fatal_other_failures_are_local() {
    assert!(matches!(stage_conclude(&CopyOutcome::DiskFull), Conclusion::FatalDiskFull));
    assert!(matches!(stage_conclude(&CopyOutcome::Copied), Conclusion::Recorded));
    assert!(matches!(stage_conclude(&CopyOutcome::SourceGone), Conclusion::FileCorrupt));
    assert!(matches!(stage_conclude(&CopyOutcome::Failed), Conclusion::FileCorrupt));
    assert!(is_disk_full(Some(28)));
    assert!(!is_disk_full(Some(2)));
    assert!(!is_disk_full(None));
}

// --- Classification edges ---

#[test]
fn extensionless_and_dotfiles_are_unrecognized() {
    for path in ["README", ".manifest", "dir.d/file", "trailingdot."] {
        match classify_file(path) {
            MediaFile::Unrecognized { extension, .. } => assert_eq!(extension, ""),
            MediaFile::Recognized { .. } => panic!("{} must be unrecognized", path),
        }
    }
    match classify_file("photos/2020/.hidden.jpg") {
        MediaFile::Recognized { extension, .. } => assert_eq!(extension, "jpg"),
        _ => panic!("a hidden file with a media extension is recognized"),
    }
}

#[test]
fn source_group_edges() {
    assert_eq!(extract_source_group(""), None);
    assert_eq!(extract_source_group("IMG_1.jpg").as_deref(), Some("IMG_1"));
    assert_eq!(extract_source_group("noext").as_deref(), Some("noext"));
    assert_eq!(extract_source_group(".hidden").as_deref(), Some(".hidden"));
}

// --- Summary rendering ---

#[test]
fn summary_counts_every_category() {
    let results = vec![
        FileProcessingResult::Imported { manifest_entry: None },
        FileProcessingResult::Duplicate { manifest_entry: None },
        FileProcessingResult::Duplicate { manifest_entry: None },
        FileProcessingResult::Corrupt,
        FileProcessingResult::Undated { manifest_entry: None },
        FileProcessingResult::Vanished,
    ];
    let s = summarize(&results, 4);
    assert_eq!(
        (s.imported, s.duplicates, s.corrupt, s.undated, s.skipped),
        (1, 2, 1, 1, 4)
    );
    assert_eq!(
        summary_line(&s, true),
        "1 imported, 2 duplicates, 1 corrupt, 1 undated, 4 skipped"
    );
    let zero = summarize(&Vec::new(), 0);
    assert_eq!(
        summary_line(&zero, false),
        "[DRY RUN] 0 imported, 0 duplicates, 0 corrupt, 0 undated, 0 skipped"
    );
}
