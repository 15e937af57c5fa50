use bettercoding::error::ApiError;
use bettercoding::file_policy::{
    check_canonical, is_denied_component, is_hidden, resolve_existing_dir, resolve_existing_path,
    resolve_target, safe_basename, validate_relative, Canonical, PathPart, LEGACY_UPLOADS_DIR,
    MAX_FILENAME_LEN, UPLOADS_DIR,
};

fn is_bad_request(err: &ApiError) -> bool {
    matches!(err, ApiError::BadRequest(_))
}

fn is_forbidden(err: &ApiError) -> bool {
    matches!(err, ApiError::Forbidden(_))
}

fn is_not_found(err: &ApiError) -> bool {
    matches!(err, ApiError::NotFound)
}

fn at(path: &str) -> Canonical {
    Canonical::Path(path.to_string())
}

/// Resolves `rel` below `/ws`, where following the links of the joined path ends
/// at `target`.
fn resolve(rel: &str, target: &str) -> Result<String, ApiError> {
    match resolve_existing_path(rel, at(target), &at("/ws"))? {
        Canonical::Path(path) => Ok(path),
        other => panic!("a text was expected, got {other:?}"),
    }
}

/// A path by its components, some of which are no text.
fn mixed(parts: &[&[u8]]) -> Canonical {
    Canonical::Parts(
        parts
            .iter()
            .map(|part| match String::from_utf8(part.to_vec()) {
                Ok(text) => PathPart::Text(text),
                Err(_) => PathPart::Bytes(part.to_vec()),
            })
            .collect(),
    )
}

#[test]
fn upload_dirs_are_not_hidden_during_migration() {
    assert!(!is_hidden(UPLOADS_DIR));
    assert!(!is_hidden(LEGACY_UPLOADS_DIR));
    assert!(is_hidden(".gitignore"));
    assert!(is_hidden(".other-dotfile"));
    assert!(!is_hidden("visible.txt"));
}

#[test]
fn accepts_valid_nested_path() {
    assert_eq!(resolve_target("/ws", "a/b/c.txt").unwrap(), "/ws/a/b/c.txt");
    let resolved = resolve("a/b/c.txt", "/ws/a/b/c.txt").unwrap();
    assert!(resolved.ends_with("c.txt"));
    // The root resolves to the workspace itself.
    let root = resolve("", "/ws").unwrap();
    assert_eq!(root, "/ws");
}

#[test]
fn rejects_parent_traversal() {
    let err = resolve("../etc/passwd", "/etc/passwd").unwrap_err();
    assert!(is_bad_request(&err));
    assert!(is_bad_request(&resolve_target("/ws", "../etc/passwd").unwrap_err()));
}

#[test]
fn rejects_absolute_path() {
    let err = resolve("/etc/passwd", "/etc/passwd").unwrap_err();
    assert!(is_bad_request(&err));
}

#[test]
fn rejects_git_and_node_modules_components() {
    let g = resolve(".git/hooks/post-checkout", "/ws/.git/hooks/post-checkout").unwrap_err();
    assert!(is_forbidden(&g));
    let n = resolve("node_modules/pkg", "/ws/node_modules/pkg").unwrap_err();
    assert!(is_forbidden(&n));
}

#[test]
fn rejects_symlink_escape() {
    // The link leads out of the workspace.
    let err = resolve("link/secret.txt", "/outside/secret.txt").unwrap_err();
    assert!(is_not_found(&err));
    // A name that only begins like the workspace's is outside too.
    assert!(is_not_found(&resolve("link", "/ws-other").unwrap_err()));
}

#[test]
fn safe_basename_strips_dirs_and_rejects_traversal() {
    assert_eq!(safe_basename("report.txt").unwrap(), "report.txt");
    assert_eq!(safe_basename("a/b/c.txt").unwrap(), "c.txt");
    assert_eq!(safe_basename("  spaced.bin  ").unwrap(), "spaced.bin");
    // Traversal components are stripped to a safe basename (lands in the
    // target dir, never escapes it), not rejected.
    assert_eq!(safe_basename("../escape").unwrap(), "escape");
    assert_eq!(safe_basename("../../etc/passwd").unwrap(), "passwd");
    // A path that reduces to nothing usable IS rejected.
    assert!(safe_basename("..").is_err());
    assert!(safe_basename("a/b/..").is_err());
    assert!(safe_basename("").is_err());
    assert!(safe_basename("a\\b.txt").is_err());
    assert!(safe_basename(".git").is_err());
    assert!(safe_basename(&"x".repeat(MAX_FILENAME_LEN + 1)).is_err());
}

#[test]
fn file_names_are_measured_in_bytes() {
    assert!(safe_basename(&"x".repeat(MAX_FILENAME_LEN)).is_ok());
    assert!(safe_basename(&"\u{e9}".repeat(127)).is_ok());
    assert!(safe_basename(&"\u{e9}".repeat(128)).is_err());
    assert!(safe_basename("a\0b").is_err());
    assert!(is_forbidden(&safe_basename("x/Node_Modules").unwrap_err()));
    assert_eq!(safe_basename("dir/").unwrap(), "dir");
}

#[test]
fn resolve_existing_dir_rejects_file() {
    let file = resolve_existing_dir("f.txt", at("/ws/f.txt"), &at("/ws"), false);
    match file {
        Err(ApiError::BadRequest(m)) => assert_eq!(m, "Upload target is not a directory"),
        other => panic!("unexpected {other:?}"),
    }
    assert!(resolve_existing_dir("", at("/ws"), &at("/ws"), true).is_ok());
}

#[test]
fn rejects_symlink_to_denied_dir() {
    // The link stays in the workspace, but leads to a directory that is off limits.
    let err = resolve("link/config", "/ws/.git/config").unwrap_err();
    assert!(is_forbidden(&err));
    match err {
        ApiError::Forbidden(m) => assert_eq!(m, "Access to '.git' is not allowed"),
        other => panic!("unexpected {other:?}"),
    }
}

#[test]
fn what_is_missing_or_no_text_is_refused() {
    let odd = || mixed(&[b"/", b"ws", b"\xff"]);
    assert!(is_not_found(&check_canonical(Canonical::Missing, &at("/ws")).unwrap_err()));
    assert!(is_not_found(&check_canonical(at("/ws/a"), &Canonical::Missing).unwrap_err()));
    assert!(is_not_found(&check_canonical(odd(), &Canonical::Missing).unwrap_err()));
    match check_canonical(odd(), &at("/ws")) {
        Err(ApiError::BadRequest(m)) => assert_eq!(m, "Invalid path encoding"),
        other => panic!("unexpected {other:?}"),
    }
}

#[test]
fn a_path_that_is_no_text_is_judged_by_its_components() {
    // A workspace may be called anything.
    let base = mixed(&[b"/", b"\xff", b"ws"]);
    let inside = || mixed(&[b"/", b"\xff", b"ws", b"a.txt"]);
    assert_eq!(check_canonical(inside(), &base).unwrap(), inside());
    assert_eq!(resolve_existing_dir("a.txt", inside(), &base, true).unwrap(), inside());
    // Outside is outside, whatever it is called.
    let outside = mixed(&[b"/", b"\xfe", b"ws", b"a.txt"]);
    assert!(is_not_found(&check_canonical(outside, &base).unwrap_err()));
    assert!(is_not_found(&check_canonical(mixed(&[b"/", b"\xff"]), &at("/ws")).unwrap_err()));
    // The first component that offends decides.
    let denied_first = mixed(&[b"/", b"ws", b".git", b"\xff"]);
    assert!(is_forbidden(&check_canonical(denied_first, &at("/ws")).unwrap_err()));
    let odd_first = mixed(&[b"/", b"ws", b"\xff", b".git"]);
    assert!(is_bad_request(&check_canonical(odd_first, &at("/ws")).unwrap_err()));
}

#[test]
fn the_first_refused_component_decides() {
    assert!(is_forbidden(&validate_relative(".git/../x").unwrap_err()));
    assert!(is_bad_request(&validate_relative("a/../.git").unwrap_err()));
    assert_eq!(validate_relative("./a//b/./c/").unwrap(), "a/b/c");
    assert_eq!(validate_relative("").unwrap(), "");
}

#[test]
fn case_does_not_open_denied_directories() {
    assert!(is_denied_component(".GIT"));
    assert!(is_denied_component("Node_Modules"));
    assert!(!is_denied_component(".gitignore"));
}
