use bettercoding::error::ApiError;
use bettercoding::file_policy::{
    MAX_LIST_ENTRIES, MAX_UPLOAD_FILE_BYTES, MAX_ZIP_ENTRIES, MAX_ZIP_UNCOMPRESSED_BYTES,
};
use bettercoding::files::{
    admit_upload, archive_head, archive_name, archive_visits, attachment_disposition,
    check_existing, download_head, download_name, finish_upload, list_directory, reject_relay,
    relative_to, require_directory, upload_target, upload_temp_name, uploaded_entry,
    zip_entry_name, DirItem, DirectoryUse, FileMeta, UploadMeter, UploadQuery, ZipBudget, ZipStep,
    ZIP_WALL_TIME_MS,
};

fn bad_request_text(e: ApiError) -> String {
    match e {
        ApiError::BadRequest(m) => m,
        other => panic!("unexpected {other:?}"),
    }
}

#[test]
fn attachment_disposition_is_injection_proof() {
    // CRLF + quote in a malicious filename must be percent-encoded away.
    let d = attachment_disposition("evil\r\nSet-Cookie: x=\"y\".txt");
    assert!(d.starts_with("attachment; filename*=UTF-8''"));
    assert!(!d.contains('\r'));
    assert!(!d.contains('\n'));
    assert!(!d.contains('"'));
    // unreserved chars survive; the ".txt" extension stays readable
    assert!(d.contains(".txt"));
    // a plain name round-trips its safe chars
    assert_eq!(
        attachment_disposition("report.csv"),
        "attachment; filename*=UTF-8''report.csv"
    );
    assert_eq!(
        attachment_disposition("\u{e9} ~_-"),
        "attachment; filename*=UTF-8''%C3%A9%20~_-"
    );
}

#[test]
fn zip_entry_name_rejects_backslash_and_traversal() {
    assert_eq!(zip_entry_name("/base", "/base/a/b.txt").unwrap(), "a/b.txt");
    // A Unix filename containing a backslash must be rejected, never
    // rewritten into a "/" separator (zip-slip on extraction).
    assert!(zip_entry_name("/base", "/base/..\\evil.txt").is_err());
    assert_eq!(
        bad_request_text(zip_entry_name("/base", "/base/a/../b").unwrap_err()),
        "Unsafe archive path"
    );
    match zip_entry_name("/base", "/other/a") {
        Err(ApiError::Io(m)) => assert_eq!(m, "prefix not found"),
        other => panic!("unexpected {other:?}"),
    }
}

#[test]
fn build_zip_excludes_denylisted_hidden_and_symlinks() {
    assert!(archive_visits(1, "keep.txt"));
    assert!(archive_visits(1, "sub"));
    assert!(!archive_visits(1, ".git"));
    assert!(!archive_visits(1, "node_modules"));
    assert!(!archive_visits(1, ".secret"));
    // The chosen root itself is never left out.
    assert!(archive_visits(0, ".git"));

    let mut budget = ZipBudget::new();
    let mut names: Vec<String> = vec![];
    for (symlink, file, path) in [
        (false, true, "/r/keep.txt"),
        (false, false, "/r/sub"),
        (false, true, "/r/sub/inner.txt"),
        (true, false, "/r/link.txt"),
        (true, true, "/r/link2.txt"),
        (false, true, "/r"),
    ] {
        match budget.meet(0, symlink, file, "/r", path) {
            ZipStep::Copy { name, .. } => {
                assert!(budget.copied(5));
                names.push(name);
            }
            ZipStep::Skip => {}
            ZipStep::Refuse(e) => panic!("unexpected {e:?}"),
        }
    }
    assert_eq!(names, vec!["keep.txt".to_string(), "sub/inner.txt".to_string()]);
    assert_eq!(budget, ZipBudget { entries: 2, total_bytes: 10 });
}

#[test]
fn archives_fail_loudly_at_their_limits() {
    let refusal = |budget: ZipBudget, elapsed: u64| {
        let mut b = budget;
        match b.meet(elapsed, false, true, "/r", "/r/x") {
            ZipStep::Refuse(e) => e,
            other => panic!("unexpected {other:?}"),
        }
    };
    let late = refusal(ZipBudget::new(), ZIP_WALL_TIME_MS + 1);
    assert_eq!(
        bad_request_text(late),
        "Archive generation timed out; select a smaller folder"
    );
    let many = refusal(ZipBudget { entries: MAX_ZIP_ENTRIES, total_bytes: 0 }, 0);
    assert_eq!(
        bad_request_text(many),
        "Folder has too many files to archive; select a smaller folder"
    );
    let full = refusal(
        ZipBudget { entries: 1, total_bytes: MAX_ZIP_UNCOMPRESSED_BYTES },
        ZIP_WALL_TIME_MS,
    );
    assert!(matches!(full, ApiError::PayloadTooLarge));

    let mut b = ZipBudget { entries: 1, total_bytes: MAX_ZIP_UNCOMPRESSED_BYTES - 3 };
    match b.meet(0, false, true, "/r", "/r/x") {
        ZipStep::Copy { name, remaining } => {
            assert_eq!(name, "x");
            assert_eq!(remaining, 3);
        }
        other => panic!("unexpected {other:?}"),
    }
    assert!(!b.copied(4));
    assert!(b.copied(3));
    assert_eq!(b.total_bytes, MAX_ZIP_UNCOMPRESSED_BYTES);
}

fn item(name: &str, is_dir: bool) -> DirItem {
    DirItem {
        name: name.to_string(),
        path: format!("d/{name}"),
        meta: Some(FileMeta { is_dir, is_symlink: false, len: 3, modified: Some(7) }),
    }
}

#[test]
fn listings_show_directories_first_and_ignore_case() {
    let items = vec![
        item("b.txt", false),
        item(".hidden", false),
        item("Zoo", true),
        item("A.txt", false),
        item(".git", true),
        item("apps", true),
        item("a.TXT", false),
        item(".bettercoding-uploads", true),
        item("\u{c4}rger", false),
    ];
    let listing = list_directory("d".to_string(), &items);
    let names: Vec<&str> = listing.entries.iter().map(|e| e.name.as_str()).collect();
    assert_eq!(
        names,
        vec![
            ".bettercoding-uploads",
            "apps",
            "Zoo",
            "A.txt",
            "a.TXT",
            "b.txt",
            "\u{c4}rger"
        ]
    );
    assert!(!listing.truncated);
    assert_eq!(listing.path, "d");
    assert_eq!(listing.entries[3].path, "d/A.txt");
    assert_eq!(listing.entries[3].size_bytes, 3);
    assert_eq!(listing.entries[3].modified, Some(7));
}

#[test]
fn entries_without_metadata_are_plain() {
    let listing = list_directory(
        String::new(),
        &vec![DirItem { name: "x".to_string(), path: "x".to_string(), meta: None }],
    );
    let e = &listing.entries[0];
    assert!(!e.is_dir && !e.is_symlink);
    assert_eq!((e.size_bytes, e.modified), (0, None));
}

#[test]
fn listings_stop_at_the_limit() {
    let mut items: Vec<DirItem> = (0..MAX_LIST_ENTRIES).map(|i| item(&format!("{i:05}"), false)).collect();
    let full = list_directory(String::new(), &items);
    assert!(!full.truncated);
    assert_eq!(full.entries.len(), MAX_LIST_ENTRIES);
    // What is left out anyway does not count.
    items.push(item(".hidden", false));
    assert!(!list_directory(String::new(), &items).truncated);
    items.push(item("one-more", false));
    let cut = list_directory(String::new(), &items);
    assert!(cut.truncated);
    assert_eq!(cut.entries.len(), MAX_LIST_ENTRIES);
    assert_eq!(cut.entries[MAX_LIST_ENTRIES - 1].name, "01999");
}

#[test]
fn relative_paths_never_show_the_server() {
    assert_eq!(relative_to("/ws", "/ws/a/b").unwrap(), "a/b");
    assert_eq!(relative_to("/ws", "/ws").unwrap(), "");
    assert_eq!(relative_to("/ws", "/ws/a\\b").unwrap(), "a/b");
    assert!(matches!(relative_to("/ws", "/else/a"), Err(ApiError::NotFound)));
}

#[test]
fn targets_have_to_be_what_is_asked_for() {
    assert_eq!(
        require_directory("/ws/d".to_string(), true, DirectoryUse::Listing).unwrap(),
        "/ws/d"
    );
    assert_eq!(
        bad_request_text(
            require_directory("/ws/f".to_string(), false, DirectoryUse::Listing).unwrap_err()
        ),
        "Path is not a directory"
    );
    assert_eq!(
        bad_request_text(
            require_directory("/ws/f".to_string(), false, DirectoryUse::Archive).unwrap_err()
        ),
        "Zip target is not a directory"
    );
}

#[test]
fn downloads_are_never_shown_inline() {
    let head = download_head("/ws/a/report.csv", true, 12).unwrap();
    assert_eq!(head.content_type, "application/octet-stream");
    assert_eq!(head.content_length, 12);
    assert_eq!(head.content_type_options, "nosniff");
    assert_eq!(head.content_disposition, "attachment; filename*=UTF-8''report.csv");
    assert!(matches!(download_head("/ws/a", false, 0), Err(ApiError::NotFound)));
    assert_eq!(download_name("/"), "download");

    let zip = archive_head("/ws/a b", 3);
    assert_eq!(zip.content_type, "application/zip");
    assert_eq!(zip.content_disposition, "attachment; filename*=UTF-8''a%20b.zip");
    assert_eq!(archive_name("/"), "workspace.zip");
}

#[test]
fn uploads_are_admitted_one_by_one() {
    assert_eq!(admit_upload(0, "a/b.txt").unwrap(), "b.txt");
    assert_eq!(admit_upload(49, "x").unwrap(), "x");
    assert_eq!(bad_request_text(admit_upload(50, "x").unwrap_err()), "Too many files (max 50)");
    assert_eq!(bad_request_text(admit_upload(0, "..").unwrap_err()), "Invalid file name");
    match admit_upload(0, ".git") {
        Err(ApiError::Forbidden(m)) => assert_eq!(m, "A file named '.git' is not allowed"),
        other => panic!("unexpected {other:?}"),
    }
    match check_existing("x", false, true) {
        Some(ApiError::Conflict(m)) => assert_eq!(m, "File 'x' already exists"),
        other => panic!("unexpected {other:?}"),
    }
    assert!(check_existing("x", true, true).is_none());
    assert!(check_existing("x", false, false).is_none());
    assert_eq!(upload_temp_name("id"), ".bc-upload-id.tmp");
}

#[test]
fn uploads_are_metered() {
    let mut m = UploadMeter::new();
    assert!(m.take(MAX_UPLOAD_FILE_BYTES - 1));
    assert!(!m.take(2));
    assert!(m.take(1));
    assert!(!m.take(1));
    let e = uploaded_entry("n".to_string(), "p/n".to_string(), None, m);
    assert_eq!(e.size_bytes, MAX_UPLOAD_FILE_BYTES as i64);
    let known = uploaded_entry(
        "n".to_string(),
        "p/n".to_string(),
        Some(FileMeta { is_dir: true, is_symlink: true, len: 5, modified: Some(1) }),
        UploadMeter::new(),
    );
    assert_eq!((known.size_bytes, known.modified), (5, Some(1)));
    assert!(!known.is_dir && !known.is_symlink);
}

#[test]
fn uploads_without_files_are_refused() {
    assert_eq!(bad_request_text(finish_upload(vec![]).unwrap_err()), "No files in upload");
}

#[test]
fn blank_targets_mean_the_default() {
    let target = |path: Option<&str>| {
        upload_target(&UploadQuery { path: path.map(str::to_string), overwrite: false })
    };
    assert_eq!(target(None), None);
    assert_eq!(target(Some(" \t")), None);
    assert_eq!(target(Some(" a ")), Some(" a ".to_string()));
}

#[test]
fn relayed_requests_are_refused() {
    match reject_relay(Some(" 1 ")) {
        Some(ApiError::Forbidden(m)) => {
            assert_eq!(m, "The Files browser is only available on local deployments")
        }
        other => panic!("unexpected {other:?}"),
    }
    assert!(reject_relay(Some("0")).is_none());
    assert!(reject_relay(None).is_none());
}
