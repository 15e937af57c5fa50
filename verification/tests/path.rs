use std::path::PathBuf;

use bettercoding::env::absolute_or_same;
use bettercoding::path::{
    get_vibe_kanban_temp_dir, make_path_relative, normalize_macos_private_alias,
    normalize_override, resolve_worktree_base_dir, resolve_worktree_base_dir_with_reason,
    worktree_candidates, DirectoryOverride, DirectoryProbe, SystemPath, WorktreeBase,
    WorktreeBaseReason,
    ALWAYS_SKIP_DIRS,
};

const BETTERCODING: &str = "/root/bettercoding";
const LEGACY: &str = "/root/vibe-kanban";

fn text(path: &str) -> SystemPath {
    SystemPath::Text(path.to_string())
}

fn shown(path: SystemPath) -> String {
    match path {
        SystemPath::Text(path) => path,
        SystemPath::Bytes(bytes) => panic!("a text was expected, got {bytes:?}"),
    }
}

fn resolve(
    override_dir: Option<&str>,
    bettercoding: DirectoryProbe,
    legacy: DirectoryProbe,
) -> String {
    shown(resolve_worktree_base_dir(
        override_dir.map(text),
        BETTERCODING.to_string(),
        LEGACY.to_string(),
        |path: &str| if path == BETTERCODING { bettercoding } else { legacy },
    ))
}

fn nowhere(_: &str) -> Option<String> {
    None
}

#[test]
fn test_make_path_relative() {
    // A relative path stays unchanged.
    assert_eq!(
        make_path_relative("src/main.rs", "/tmp/test-worktree", false, nowhere),
        "src/main.rs"
    );

    // An absolute path becomes relative where it can.
    let test_worktree = "/tmp/test-worktree";
    let absolute_path = format!("{test_worktree}/src/main.rs");
    let result = make_path_relative(&absolute_path, test_worktree, false, nowhere);
    assert_eq!(result, "src/main.rs");

    // A path outside the worktree comes back as it is.
    assert_eq!(
        make_path_relative("/other/path/file.js", "/tmp/test-worktree", false, nowhere),
        "/other/path/file.js"
    );
}

#[test]
fn the_worktree_itself_is_shown_as_a_dot() {
    assert_eq!(make_path_relative("/w", "/w", false, nowhere), ".");
    assert_eq!(make_path_relative("/w/", "/w", false, nowhere), ".");
}

#[test]
fn links_are_followed_where_the_texts_do_not_show_it() {
    let canonical = |p: &str| match p {
        "/link/a.rs" => Some("/real/w/a.rs".to_string()),
        "/link" => Some("/real/w".to_string()),
        "/w" => Some("/real/w".to_string()),
        _ => None,
    };
    assert_eq!(make_path_relative("/link/a.rs", "/w", false, canonical), "a.rs");
    assert_eq!(make_path_relative("/link", "/w", false, canonical), ".");
    assert_eq!(make_path_relative("/gone/a.rs", "/w", false, canonical), "/gone/a.rs");
    assert_eq!(make_path_relative("/link/a.rs", "/gone", false, canonical), "/link/a.rs");
    assert_eq!(
        make_path_relative("/link/a.rs", "/x", false, |p: &str| Some(format!("{p}!"))),
        "/link/a.rs"
    );
}

#[test]
fn test_make_path_relative_macos_private_alias() {
    // A worktree under /var with a path reported under /private/var.
    let worktree = "/var/folders/zz/abc123/T/vibe-kanban-dev/worktrees/vk-test";
    let path_under_private = format!(
        "/private/var{}/hello-world.txt",
        worktree.strip_prefix("/var").unwrap()
    );
    assert_eq!(
        make_path_relative(&path_under_private, worktree, true, nowhere),
        "hello-world.txt"
    );

    // The inverse: a worktree under /private and a path under /var.
    let worktree_private = format!("/private{worktree}");
    let path_under_var = format!("{worktree}/hello-world.txt");
    assert_eq!(
        make_path_relative(&path_under_var, &worktree_private, true, nowhere),
        "hello-world.txt"
    );
}

#[test]
fn private_aliases_of_macos() {
    assert_eq!(normalize_macos_private_alias("/private/var", true), "/var");
    assert_eq!(normalize_macos_private_alias("/private/tmp", true), "/tmp");
    assert_eq!(normalize_macos_private_alias("/private/tmp/x", true), "/tmp/x");
    assert_eq!(normalize_macos_private_alias("/private/etc", true), "/private/etc");
    assert_eq!(normalize_macos_private_alias("/private/variable", true), "/private/variable");
    assert_eq!(normalize_macos_private_alias("/private/var/x", false), "/private/var/x");
}

#[test]
fn empty_override_is_treated_as_unset() {
    assert_eq!(normalize_override(Some(text(""))), DirectoryOverride::Unset);
    assert_eq!(normalize_override(None), DirectoryOverride::Unset);
    assert_eq!(normalize_override(Some(text("/abs"))), DirectoryOverride::Absolute(text("/abs")));
    // Unlike elsewhere, a tilde is an ordinary name here.
    assert_eq!(normalize_override(Some(text("~/x"))), DirectoryOverride::Relative(text("~/x")));
}

#[test]
fn an_override_need_not_be_text() {
    let rooted = || SystemPath::Bytes(vec![b'/', 0xff]);
    let relative = || SystemPath::Bytes(vec![0xff, b'/']);
    assert_eq!(normalize_override(Some(rooted())), DirectoryOverride::Absolute(rooted()));
    assert_eq!(normalize_override(Some(relative())), DirectoryOverride::Relative(relative()));
    let chosen = resolve_worktree_base_dir(
        Some(rooted()),
        BETTERCODING.to_string(),
        LEGACY.to_string(),
        |_: &str| DirectoryProbe::NonEmpty,
    );
    assert_eq!(chosen, rooted());
}

#[test]
fn relative_override_is_made_absolute() {
    let relative = "relative-worktree-base";
    let expected = std::path::absolute(relative).expect("make expected path absolute");
    let normalized = match normalize_override(Some(text(relative))) {
        DirectoryOverride::Relative(path) => {
            let path = shown(path);
            let made = std::path::absolute(&path).ok().map(|p| p.to_string_lossy().to_string());
            PathBuf::from(absolute_or_same(path, made))
        }
        other => panic!("a relative path was expected, got {other:?}"),
    };

    assert!(normalized.is_absolute());
    assert_eq!(normalized, expected);
}

#[test]
fn uses_legacy_dir_when_only_legacy_is_non_empty() {
    assert_eq!(
        resolve(None, DirectoryProbe::Absent, DirectoryProbe::NonEmpty),
        LEGACY
    );
}

#[test]
fn prefers_bettercoding_dir_when_both_are_non_empty() {
    assert_eq!(
        resolve(None, DirectoryProbe::NonEmpty, DirectoryProbe::NonEmpty),
        BETTERCODING
    );
}

#[test]
fn uses_and_creates_bettercoding_dir_when_both_are_absent() {
    assert_eq!(
        resolve(None, DirectoryProbe::Absent, DirectoryProbe::Absent),
        BETTERCODING
    );
    // The reason says that the directory has still to be created.
    let resolution = resolve_worktree_base_dir_with_reason(
        None,
        BETTERCODING.to_string(),
        LEGACY.to_string(),
        |_: &str| DirectoryProbe::Absent,
    );
    assert_eq!(resolution.reason, WorktreeBaseReason::Fresh);
    assert_eq!(resolution.reason.as_str(), "fresh");
}

#[test]
fn uses_legacy_dir_when_bettercoding_dir_is_empty() {
    assert_eq!(
        resolve(None, DirectoryProbe::Empty, DirectoryProbe::NonEmpty),
        LEGACY
    );
}

#[test]
fn override_wins_when_both_are_non_empty() {
    assert_eq!(
        resolve(
            Some("/root/override"),
            DirectoryProbe::NonEmpty,
            DirectoryProbe::NonEmpty
        ),
        "/root/override"
    );
}

#[test]
fn adopts_bettercoding_candidate_when_probe_is_unknown() {
    assert_eq!(
        resolve(None, DirectoryProbe::Unknown, DirectoryProbe::NonEmpty),
        BETTERCODING
    );
}

#[test]
fn adopts_legacy_candidate_when_probe_is_unknown() {
    assert_eq!(
        resolve(None, DirectoryProbe::Absent, DirectoryProbe::Unknown),
        LEGACY
    );
}

#[test]
fn worktrees_have_a_place_of_their_own_on_each_system() {
    let absent = |_: &str| DirectoryProbe::Absent;
    let linux = get_vibe_kanban_temp_dir(None, "/tmp", true, false, absent);
    assert_eq!(linux.path, text("/var/tmp/bettercoding"));
    let other = get_vibe_kanban_temp_dir(None, "/tmp", false, true, absent);
    assert_eq!(other.path, text("/tmp/bettercoding-dev"));
    let adopted = get_vibe_kanban_temp_dir(None, "/tmp", false, false, |p: &str| {
        if p == "/tmp/vibe-kanban" {
            DirectoryProbe::NonEmpty
        } else {
            DirectoryProbe::Empty
        }
    });
    assert_eq!(adopted.path, text("/tmp/vibe-kanban"));
    assert_eq!(adopted.reason, WorktreeBaseReason::LegacyAdopt);
    assert_eq!(
        worktree_candidates("/b", true),
        ("/b/bettercoding-dev".to_string(), "/b/vibe-kanban-dev".to_string())
    );
}

#[test]
fn directories_that_are_always_skipped() {
    assert_eq!(ALWAYS_SKIP_DIRS, [".git", "node_modules"]);
}

#[test]
fn the_first_worktree_base_is_kept() {
    let mut kept = WorktreeBase::new();
    let (dir, reason) = kept.path(None, "/tmp", false, false, |_: &str| DirectoryProbe::Absent);
    assert_eq!((dir, reason), (text("/tmp/bettercoding"), Some(WorktreeBaseReason::Fresh)));
    let (dir, reason) = kept.path(Some(text("/late")), "/other", true, true, |path: &str| {
        panic!("looked at {path}")
    });
    assert_eq!((dir, reason), (text("/tmp/bettercoding"), None));

    let odd = || SystemPath::Bytes(vec![b'/', 0xff]);
    let mut kept = WorktreeBase::new();
    for reason in [Some(WorktreeBaseReason::Override), None] {
        let given = kept.path(Some(odd()), "/tmp", true, true, |_: &str| DirectoryProbe::Absent);
        assert_eq!(given, (odd(), reason));
    }
}
