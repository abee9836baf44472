use imgviewer::catalog::{
    catalog_from_listing, ListedEntry,
    checked_count, drive_letter, ensure_local_disk_path, is_allowed, natural_path_compare, open_validation_error,
    require_path, require_supported_extension, sort_paths, CatalogBuilder, DRIVE_CDROM, DRIVE_FIXED,
    DRIVE_NO_ROOT_DIR, DRIVE_RAMDISK, DRIVE_REMOTE, DRIVE_REMOVABLE, DRIVE_UNKNOWN, MAX_CATALOG_FILES,
    MAX_DIRECTORY_ENTRIES,
};
use imgviewer::error::ViewerError;
use imgviewer::format::SupportedFormat;
use imgviewer::natural::natural_string_compare;
use std::cmp::Ordering;

#[test]
fn drive_type_decision_allows_only_local_backed_storage() {
    for drive_type in [DRIVE_REMOVABLE, DRIVE_FIXED, DRIVE_CDROM, DRIVE_RAMDISK] {
        assert!(is_allowed(drive_type), "{drive_type}");
    }
    for drive_type in [DRIVE_UNKNOWN, DRIVE_NO_ROOT_DIR, DRIVE_REMOTE, u32::MAX] {
        assert!(!is_allowed(drive_type), "{drive_type}");
    }
}

#[test]
fn extension_matching_is_case_insensitive() {
    for name in ["a.GIF", "a.JpG", "a.JPEG", "a.PNG", "a.TIF", "a.TIFF", "a.WEBP", "a.HEIC", "a.HEIF"] {
        assert!(SupportedFormat::from_path(name).is_some(), "{name}");
    }
    assert!(SupportedFormat::from_path("a.bmp").is_none());
    assert!(SupportedFormat::from_path("a.jpg.exe").is_none());
    assert_eq!(SupportedFormat::from_path("a.jpg\\"), Some(SupportedFormat::Jpeg));
    assert_eq!(SupportedFormat::from_path("dir\\a.png\\."), Some(SupportedFormat::Png));
    assert!(SupportedFormat::from_path("dir\\.png").is_none());
    assert!(SupportedFormat::from_path("C:\\").is_none());
}

#[test]
fn unc_and_device_paths_are_rejected_without_touching_the_network() {
    for path in [r"\\server\share\image.png", r"\\?\UNC\server\share\image.png", r"\\.\C:\image.png"] {
        let error = ensure_local_disk_path(path, |_letter: u8| -> u32 {
            panic!("a network path must not reach the drive query")
        })
        .unwrap_err();
        assert_eq!(error.code, "network_path_not_allowed");
    }
    ensure_local_disk_path(r"C:\images\photo.png", |_letter: u8| DRIVE_FIXED).unwrap();
}

#[test]
fn catalog_count_limits_fail_closed_with_stable_parameters() {
    assert_eq!(
        checked_count(
            MAX_DIRECTORY_ENTRIES - 1,
            MAX_DIRECTORY_ENTRIES,
            "directory_entry_limit_exceeded",
            "limit",
            "maxEntries",
        )
        .unwrap(),
        MAX_DIRECTORY_ENTRIES
    );
    let error = checked_count(
        MAX_DIRECTORY_ENTRIES,
        MAX_DIRECTORY_ENTRIES,
        "directory_entry_limit_exceeded",
        "limit",
        "maxEntries",
    )
    .unwrap_err();
    assert_eq!(error.code, "directory_entry_limit_exceeded");
    assert_eq!(error.parameter("maxEntries"), Some(MAX_DIRECTORY_ENTRIES as u64));
}

#[test]
fn catalog_uses_windows_logical_number_order() {
    let mut builder = CatalogBuilder::new();
    for name in ["10.jpg", "2.jpg", "1.jpg", "ignored.txt"] {
        builder.visit_entry().unwrap();
        let path = format!("C:\\photos\\{name}");
        if CatalogBuilder::is_candidate(&path) {
            builder.add_file(path).unwrap();
        }
    }
    let catalog = builder.finish("C:\\photos\\2.jpg").unwrap();
    let names: Vec<_> = catalog.files.iter().map(|path| path.rsplit('\\').next().unwrap().to_owned()).collect();
    assert_eq!(names, ["1.jpg", "2.jpg", "10.jpg"]);
    assert_eq!(catalog.index, 1);
}

// Additional scenarios.

#[test]
fn natural_order_compares_digit_runs_as_numbers() {
    assert_eq!(natural_string_compare("2.jpg", "10.jpg"), Ordering::Less);
    assert_eq!(natural_string_compare("10.jpg", "2.jpg"), Ordering::Greater);
    assert_eq!(natural_string_compare("a.jpg", "B.jpg"), Ordering::Less);
    assert_eq!(natural_string_compare("A.jpg", "a.jpg"), Ordering::Equal);
    assert_eq!(natural_string_compare("007.jpg", "7.jpg"), Ordering::Greater);
    assert_eq!(natural_string_compare("img", "img2"), Ordering::Less);
    assert_eq!(natural_path_compare("C:\\x\\A.jpg", "C:\\x\\a.jpg"), Ordering::Less);
}

#[test]
fn natural_order_compares_the_character_after_a_digit_run() {
    assert_eq!(natural_string_compare("1a", "1b"), Ordering::Less);
    assert_eq!(natural_string_compare("x1b", "x1A"), Ordering::Greater);
    assert_eq!(natural_string_compare("img2.png", "img2.jpg"), Ordering::Greater);
    assert_eq!(natural_string_compare("2a10", "2a9"), Ordering::Greater);
}

#[test]
fn sorted_paths_keep_every_entry() {
    let files = vec!["d/b10.png".to_owned(), "d/b9.png".to_owned(), "d/a.png".to_owned()];
    assert_eq!(sort_paths(&files), ["d/a.png", "d/b9.png", "d/b10.png"]);
}

#[test]
fn entry_and_file_limits_stop_the_scan() {
    let mut builder = CatalogBuilder::new();
    for _ in 0..MAX_DIRECTORY_ENTRIES {
        builder.visit_entry().unwrap();
    }
    let error = builder.visit_entry().unwrap_err();
    assert_eq!(error.code, "directory_entry_limit_exceeded");
    assert_eq!(error.parameter("maxEntries"), Some(100_000));

    let mut builder = CatalogBuilder::new();
    for i in 0..MAX_CATALOG_FILES {
        builder.add_file(format!("{i}.png")).unwrap();
    }
    let error = builder.add_file("last.png".to_owned()).unwrap_err();
    assert_eq!(error.code, "catalog_file_limit_exceeded");
    assert_eq!(error.parameter("maxFiles"), Some(20_000));
}

#[test]
fn target_missing_from_the_catalog_is_refused() {
    let mut builder = CatalogBuilder::new();
    builder.add_file("C:\\a\\1.png".to_owned()).unwrap();
    let error = builder.finish("C:\\a\\2.png").unwrap_err();
    assert_eq!(error.code, "invalid_path");
}

#[test]
fn drive_letters_are_read_from_disk_and_verbatim_prefixes() {
    assert_eq!(drive_letter(r"c:\x.png"), Some(b'C'));
    assert_eq!(drive_letter(r"\\?\D:\x.png"), Some(b'D'));
    assert_eq!(drive_letter(r"\\server\share\x.png"), None);
    assert_eq!(drive_letter("relative.png"), None);
    let error = ensure_local_disk_path(r"Z:\x.png", |_letter: u8| DRIVE_REMOTE).unwrap_err();
    assert_eq!(error.code, "network_path_not_allowed");
    assert_eq!(error.parameter("driveType"), Some(DRIVE_REMOTE as u64));
}

#[test]
fn missing_entry_at_open_is_an_io_error_but_policy_errors_stay() {
    let gone = open_validation_error(ViewerError::invalid_path("gone"));
    assert_eq!(gone.code, "io_error");
    assert_eq!(gone.message, "gone");
    let policy = open_validation_error(ViewerError::new("reparse_point_not_allowed", "no"));
    assert_eq!(policy.code, "reparse_point_not_allowed");
}

#[test]
fn empty_path_and_unsupported_extension_are_refused() {
    assert_eq!(require_path("").unwrap_err().code, "invalid_path");
    assert!(require_path("a.png").is_ok());
    assert_eq!(require_supported_extension("a.bmp").unwrap_err().code, "unsupported_extension");
    assert!(require_supported_extension("a.webp").is_ok());
}

#[test]
fn catalog_order_does_not_depend_on_listing_order() {
    let names = ["img10.png", "IMG2.png", "img1.png", "a.gif", "img02.png"];
    let forward: Vec<String> = names.iter().map(|name| format!("D:\\p\\{name}")).collect();
    let mut backward = forward.clone();
    backward.reverse();
    let sorted = sort_paths(&forward);
    assert_eq!(sorted, sort_paths(&backward));
    let sorted_names: Vec<_> = sorted.iter().map(|path| path.rsplit('\\').next().unwrap().to_owned()).collect();
    assert_eq!(sorted_names, ["a.gif", "img1.png", "IMG2.png", "img02.png", "img10.png"]);
}

#[test]
fn catalog_matches_windows_paths_case_insensitively_without_canonicalizing() {
    let mut builder = CatalogBuilder::new();
    builder.visit_entry().unwrap();
    builder.add_file(String::from("C:\\photos\\Photo.PNG")).unwrap();
    let catalog = builder.finish("C:\\photos\\photo.png").unwrap();
    assert_eq!(catalog.index, 0);
    assert_eq!(catalog.files[0].rsplit('\\').next().unwrap(), "Photo.PNG");
}

fn listed(path: &str, regular_file: bool, reparse_point: bool) -> ListedEntry {
    ListedEntry::Entry { path: path.to_owned(), regular_file, reparse_point }
}

#[test]
fn listing_keeps_exactly_the_regular_supported_files_in_natural_order() {
    let entries = vec![
        listed("P/10.jpg", true, false),
        listed("P/2.jpg", true, false),
        ListedEntry::Unreadable,
        listed("P/1.jpg", true, false),
        listed("P/ignored.txt", true, false),
        listed("P/link.jpg", true, true),
        listed("P/folder.png", false, false),
    ];
    let catalog = catalog_from_listing(&entries, "P/2.jpg").unwrap();
    assert_eq!(catalog.files, ["P/1.jpg", "P/2.jpg", "P/10.jpg"]);
    assert_eq!(catalog.index, 1);
}

#[test]
fn listing_without_the_target_is_refused() {
    let entries = vec![listed("P/1.jpg", true, false), listed("P/2.jpg", true, true)];
    let error = catalog_from_listing(&entries, "P/2.jpg").unwrap_err();
    assert_eq!(error.code, "invalid_path");
}

#[test]
fn listing_reports_the_entry_limit() {
    let mut entries = vec![ListedEntry::Unreadable; MAX_DIRECTORY_ENTRIES];
    entries.push(listed("P/1.jpg", true, false));
    let error = catalog_from_listing(&entries, "P/1.jpg").unwrap_err();
    assert_eq!(error.code, "directory_entry_limit_exceeded");
    entries.pop();
    entries[0] = listed("P/1.jpg", true, false);
    assert_eq!(catalog_from_listing(&entries, "P/1.jpg").unwrap().files, ["P/1.jpg"]);
}

#[test]
fn listing_reports_the_file_limit_before_the_entry_limit() {
    let mut entries: Vec<ListedEntry> =
        (0..=MAX_CATALOG_FILES).map(|n| listed(&format!("P/{n}.jpg"), true, false)).collect();
    entries.extend(vec![ListedEntry::Unreadable; MAX_DIRECTORY_ENTRIES]);
    let error = catalog_from_listing(&entries, "P/1.jpg").unwrap_err();
    assert_eq!(error.code, "catalog_file_limit_exceeded");
}

#[test]
fn listing_selects_the_target_without_regard_to_case() {
    let entries = vec![listed("P/É.jpg", true, false), listed("P/a.JPG", true, false)];
    let catalog = catalog_from_listing(&entries, "p/é.jpg").unwrap();
    assert_eq!(catalog.files[catalog.index], "P/É.jpg");
    let catalog = catalog_from_listing(&entries, "P/A.jpg").unwrap();
    assert_eq!(catalog.files[catalog.index], "P/a.JPG");
}

#[test]
fn characters_with_expanding_uppercase_forms_match_only_themselves() {
    let entries = vec![listed("P/\u{FB05}.jpg", true, false), listed("P/Stra\u{DF}e.jpg", true, false)];
    assert!(catalog_from_listing(&entries, "P/\u{FB06}.jpg").is_err());
    assert_eq!(catalog_from_listing(&entries, "P/\u{FB05}.JPG").unwrap().index, 1);
    assert!(catalog_from_listing(&entries, "P/STRASSE.jpg").is_err());
    assert!(catalog_from_listing(&entries, "p/stra\u{DF}e.jpg").is_ok());
}

#[test]
fn characters_outside_the_basic_plane_match_only_themselves() {
    let entries = vec![listed("P/\u{10400}.jpg", true, false)];
    assert!(catalog_from_listing(&entries, "P/\u{10428}.jpg").is_err());
    assert!(catalog_from_listing(&entries, "P/\u{10400}.JPG").is_ok());
}
