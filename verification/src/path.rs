//! Paths of worktrees: showing a path relative to its worktree, and finding the
//! directory that worktrees live in.

use vstd::prelude::*;
use vstd::string::*;

use crate::foreign::{expand_tilde_with, expands_tilde};
use crate::once::keeps_first;
use crate::path_text::{absolute, is_absolute, join, joined_path, strip_prefix, stripped};
use crate::text::{begins_with, chars_of, concat2, opt_text, same_text, starts_with, substring_of};

verus! {

/// The directory of a worktree that holds attachments.
pub const VIBE_ATTACHMENTS_DIR: &'static str = ".vibe-attachments";

/// The directories that are passed over in any case.
pub const ALWAYS_SKIP_DIRS: [&'static str; 2] = [".git", "node_modules"];

/// A path with a leading `~` that stands for the home directory replaced by it.
pub fn expand_tilde(path_str: &str, home: &Option<String>) -> (out: String)
    ensures
        expands_tilde(path_str@, opt_text(*home), out@),
{
    expand_tilde_with(path_str, home)
}

/// A path as the system knows it.
#[derive(Debug, PartialEq, Eq)]
pub enum SystemPath {
    Text(String),
    /// A path that is no text.
    Bytes(Vec<u8>),
}

/// A path as the system knows it, by its characters or its bytes.
pub ghost enum PathContent {
    Text(Seq<char>),
    Bytes(Seq<u8>),
}

impl View for SystemPath {
    type V = PathContent;

    open spec fn view(&self) -> PathContent {
        match *self {
            SystemPath::Text(t) => PathContent::Text(t@),
            SystemPath::Bytes(b) => PathContent::Bytes(b@),
        }
    }
}

impl SystemPath {
    /// Whether there is nothing in the path.
    pub open spec fn is_nothing(self) -> bool {
        match self {
            SystemPath::Text(t) => t@.len() == 0,
            SystemPath::Bytes(b) => b@.len() == 0,
        }
    }

    /// Whether the path starts at the root.
    pub open spec fn is_rooted(self) -> bool {
        match self {
            SystemPath::Text(t) => absolute(t@),
            SystemPath::Bytes(b) => b@.len() > 0 && b@[0] == 47,
        }
    }
}

/// What a directory from the environment amounts to.
#[derive(Debug, PartialEq, Eq)]
pub enum DirectoryOverride {
    /// Nothing was set.
    Unset,
    /// The directory to use.
    Absolute(SystemPath),
    /// A directory that has still to be made absolute.
    Relative(SystemPath),
}

/// Reads the directory that worktrees live in from the environment. What is
/// empty counts as unset.
pub fn normalize_override(value: Option<SystemPath>) -> (r: DirectoryOverride)
    ensures
        r == match value {
            Some(v) => if v.is_nothing() {
                DirectoryOverride::Unset
            } else if v.is_rooted() {
                DirectoryOverride::Absolute(v)
            } else {
                DirectoryOverride::Relative(v)
            },
            None => DirectoryOverride::Unset,
        },
{
    let path = match value {
        Some(path) => path,
        None => return DirectoryOverride::Unset,
    };
    let (nothing, rooted) = match &path {
        SystemPath::Text(t) => (t.as_str().is_empty(), is_absolute(t.as_str())),
        SystemPath::Bytes(b) => (b.len() == 0, b.len() > 0 && b[0] == 47),
    };
    if nothing {
        DirectoryOverride::Unset
    } else if rooted {
        DirectoryOverride::Absolute(path)
    } else {
        DirectoryOverride::Relative(path)
    }
}

/// A path with macOS's private name of a directory replaced by the public one.
pub open spec fn public_alias(s: Seq<char>) -> Seq<char> {
    if s == "/private/var"@ {
        "/var"@
    } else if begins_with(s, "/private/var/"@) {
        "/var/"@ + s.skip("/private/var/"@.len() as int)
    } else if s == "/private/tmp"@ {
        "/tmp"@
    } else if begins_with(s, "/private/tmp/"@) {
        "/tmp/"@ + s.skip("/private/tmp/"@.len() as int)
    } else {
        s
    }
}

/// The path that stands for `s` on this system.
pub open spec fn system_alias(s: Seq<char>, on_macos: bool) -> Seq<char> {
    if on_macos {
        public_alias(s)
    } else {
        s
    }
}

fn without_prefix(s: &str, prefix: &str) -> (rest: String)
    requires
        begins_with(s@, prefix@),
    ensures
        rest@ == s@.skip(prefix@.len() as int),
{
    let chars = chars_of(s);
    let n: usize = chars_of(prefix).len();
    let rest = substring_of(&chars, n, chars.len());
    proof {
        assert(rest@ =~= s@.skip(prefix@.len() as int));
    }
    rest
}

/// Replaces macOS's private names of directories by the public ones, without
/// looking at the file system. On other systems the path stays as it is.
pub fn normalize_macos_private_alias(p: &str, on_macos: bool) -> (out: String)
    ensures
        out@ == system_alias(p@, on_macos),
{
    if !on_macos {
        return p.to_owned();
    }
    if same_text(p, "/private/var") {
        return "/var".to_owned();
    }
    if starts_with(p, "/private/var/") {
        return concat2("/var/", without_prefix(p, "/private/var/").as_str());
    }
    if same_text(p, "/private/tmp") {
        return "/tmp".to_owned();
    }
    if starts_with(p, "/private/tmp/") {
        return concat2("/tmp/", without_prefix(p, "/private/tmp/").as_str());
    }
    p.to_owned()
}

/// A relative path as it is shown: the directory itself is `.`.
pub open spec fn shown_relative(rel: Seq<char>) -> Seq<char> {
    if rel.len() == 0 {
        "."@
    } else {
        rel
    }
}

fn show_relative(rel: String) -> (out: String)
    ensures
        out@ == shown_relative(rel@),
{
    if rel.as_str().is_empty() {
        ".".to_owned()
    } else {
        rel
    }
}

/// Shows a path relative to a worktree, where it lies in it. `canonical` follows
/// the links of a path; it is only asked where the texts alone do not show it.
pub fn make_path_relative<C: Fn(&str) -> Option<String>>(
    path: &str,
    worktree_path: &str,
    on_macos: bool,
    canonical: C,
) -> (r: String)
    requires
        forall|p: &str| call_requires(canonical, (p,)),
    ensures
        ({
            let p = system_alias(path@, on_macos);
            let w = system_alias(worktree_path@, on_macos);
            if !absolute(p) {
                r@ == path@
            } else {
                match stripped(p, w) {
                    Some(rel) => r@ == shown_relative(rel),
                    None => exists|s: &str, a: Option<String>|
                        s@ == p && #[trigger] call_ensures(canonical, (s,), a)
                            && relative_by_links(canonical, a, w, path@, r@),
                }
            }
        }),
{
    let p = normalize_macos_private_alias(path, on_macos);
    let w = normalize_macos_private_alias(worktree_path, on_macos);
    if !is_absolute(p.as_str()) {
        return path.to_owned();
    }
    match strip_prefix(p.as_str(), w.as_str()) {
        Some(rel) => return show_relative(rel),
        None => {},
    }
    let real_path = match canonical(p.as_str()) {
        Some(c) => c,
        None => {
            let out = path.to_owned();
            proof {
                assert(relative_by_links(canonical, None, w@, path@, out@));
            }
            return out;
        },
    };
    let real_worktree = match canonical(w.as_str()) {
        Some(c) => c,
        None => {
            let out = path.to_owned();
            proof {
                assert(relative_by_links(canonical, Some(real_path), w@, path@, out@));
            }
            return out;
        },
    };
    let out = match strip_prefix(real_path.as_str(), real_worktree.as_str()) {
        Some(rel) => show_relative(rel),
        None => path.to_owned(),
    };
    proof {
        assert(relative_by_links(canonical, Some(real_path), w@, path@, out@));
    }
    out
}

/// What a path is shown as, once the links of it were followed to `a`: relative
/// to where the links of the worktree lead, and as it is where either could not
/// be followed or the path lies elsewhere.
pub open spec fn relative_by_links<C: Fn(&str) -> Option<String>>(
    canonical: C,
    a: Option<String>,
    w: Seq<char>,
    path: Seq<char>,
    r: Seq<char>,
) -> bool {
    match a {
        None => r == path,
        Some(real_path) => exists|t: &str, b: Option<String>|
            t@ == w && #[trigger] call_ensures(canonical, (t,), b) && r == match b {
                None => path,
                Some(real_worktree) => match stripped(real_path@, real_worktree@) {
                    Some(rel) => shown_relative(rel),
                    None => path,
                },
            },
    }
}

/// What is known of a directory.
#[derive(Debug, Clone, Copy, PartialEq, Eq, Structural)]
pub enum DirectoryProbe {
    NonEmpty,
    Empty,
    Absent,
    /// It could not be looked into.
    Unknown,
}

/// Why a directory was chosen for worktrees.
#[derive(Debug, Clone, Copy, PartialEq, Eq, Structural)]
pub enum WorktreeBaseReason {
    Override,
    Bettercoding,
    LegacyAdopt,
    /// Nothing was there: the directory has still to be created.
    Fresh,
}

impl WorktreeBaseReason {
    /// The reason, as it is logged.
    pub fn as_str(self) -> (s: &'static str)
        ensures
            s@ == match self {
                WorktreeBaseReason::Override => "override"@,
                WorktreeBaseReason::Bettercoding => "bettercoding"@,
                WorktreeBaseReason::LegacyAdopt => "legacy-adopt"@,
                WorktreeBaseReason::Fresh => "fresh"@,
            },
    {
        match self {
            WorktreeBaseReason::Override => "override",
            WorktreeBaseReason::Bettercoding => "bettercoding",
            WorktreeBaseReason::LegacyAdopt => "legacy-adopt",
            WorktreeBaseReason::Fresh => "fresh",
        }
    }
}

/// The directory that was chosen for worktrees.
#[derive(Debug, PartialEq, Eq)]
pub struct WorktreeBaseResolution {
    pub path: SystemPath,
    pub reason: WorktreeBaseReason,
}

/// Whether what is known of a directory makes it the choice: something is in
/// it, or nobody can tell that nothing is.
pub open spec fn adopts(p: DirectoryProbe) -> bool {
    p is NonEmpty || p is Unknown
}

/// Whether a path is the given text.
pub open spec fn is_text(path: SystemPath, text: Seq<char>) -> bool {
    path matches SystemPath::Text(t) && t@ == text
}

/// Whether choosing a directory for worktrees comes out as `r`.
pub open spec fn worktree_base_is<P: Fn(&str) -> DirectoryProbe>(
    override_dir: Option<SystemPath>,
    bettercoding_candidate: Seq<char>,
    legacy_candidate: Seq<char>,
    probe: P,
    r: WorktreeBaseResolution,
) -> bool {
    match override_dir {
        Some(dir) => r == (WorktreeBaseResolution {
            path: dir,
            reason: WorktreeBaseReason::Override,
        }),
        None => exists|s: &str, a: DirectoryProbe|
            s@ == bettercoding_candidate && #[trigger] call_ensures(probe, (s,), a) && if adopts(
                a,
            ) {
                &&& is_text(r.path, bettercoding_candidate)
                &&& r.reason == WorktreeBaseReason::Bettercoding
            } else {
                exists|t: &str, b: DirectoryProbe|
                    t@ == legacy_candidate && #[trigger] call_ensures(probe, (t,), b) && if adopts(
                        b,
                    ) {
                        &&& is_text(r.path, legacy_candidate)
                        &&& r.reason == WorktreeBaseReason::LegacyAdopt
                    } else {
                        &&& is_text(r.path, bettercoding_candidate)
                        &&& r.reason == WorktreeBaseReason::Fresh
                    }
            },
    }
}

/// Chooses the directory that worktrees live in: the configured one, else the
/// current one where something is in it, else the old one where something is in
/// it, else the current one, which has then to be created. A directory that
/// cannot be looked into counts as one with something in it.
pub fn resolve_worktree_base_dir_with_reason<P: Fn(&str) -> DirectoryProbe>(
    override_dir: Option<SystemPath>,
    bettercoding_candidate: String,
    legacy_candidate: String,
    probe: P,
) -> (r: WorktreeBaseResolution)
    requires
        forall|p: &str| call_requires(probe, (p,)),
    ensures
        worktree_base_is(override_dir, bettercoding_candidate@, legacy_candidate@, probe, r),
{
    if let Some(path) = override_dir {
        return WorktreeBaseResolution { path, reason: WorktreeBaseReason::Override };
    }
    match probe(bettercoding_candidate.as_str()) {
        DirectoryProbe::NonEmpty => {
            return WorktreeBaseResolution {
                path: SystemPath::Text(bettercoding_candidate),
                reason: WorktreeBaseReason::Bettercoding,
            };
        },
        DirectoryProbe::Unknown => {
            return WorktreeBaseResolution {
                path: SystemPath::Text(bettercoding_candidate),
                reason: WorktreeBaseReason::Bettercoding,
            };
        },
        _ => {},
    }
    match probe(legacy_candidate.as_str()) {
        DirectoryProbe::NonEmpty => WorktreeBaseResolution {
            path: SystemPath::Text(legacy_candidate),
            reason: WorktreeBaseReason::LegacyAdopt,
        },
        DirectoryProbe::Unknown => WorktreeBaseResolution {
            path: SystemPath::Text(legacy_candidate),
            reason: WorktreeBaseReason::LegacyAdopt,
        },
        _ => WorktreeBaseResolution {
            path: SystemPath::Text(bettercoding_candidate),
            reason: WorktreeBaseReason::Fresh,
        },
    }
}

/// The directory that worktrees live in, without the reason for it.
pub fn resolve_worktree_base_dir<P: Fn(&str) -> DirectoryProbe>(
    override_dir: Option<SystemPath>,
    bettercoding_candidate: String,
    legacy_candidate: String,
    probe: P,
) -> (dir: SystemPath)
    requires
        forall|p: &str| call_requires(probe, (p,)),
    ensures
        exists|r: WorktreeBaseResolution| #[trigger]
            worktree_base_is(
                override_dir,
                bettercoding_candidate@,
                legacy_candidate@,
                probe,
                r,
            ) && r.path == dir,
{
    let r = resolve_worktree_base_dir_with_reason(
        override_dir,
        bettercoding_candidate,
        legacy_candidate,
        probe,
    );
    r.path
}

/// Whether choosing the directory that worktrees live in on this system comes
/// out as `r`.
pub open spec fn system_base_is<P: Fn(&str) -> DirectoryProbe>(
    override_dir: Option<SystemPath>,
    temp_dir: Seq<char>,
    on_linux: bool,
    development: bool,
    probe: P,
    r: WorktreeBaseResolution,
) -> bool {
    let base = if on_linux {
        "/var/tmp"@
    } else {
        temp_dir
    };
    worktree_base_is(
        override_dir,
        joined_path(base, current_name(development)),
        joined_path(base, old_name(development)),
        probe,
        r,
    )
}

/// The directory that worktrees live in on this system. Linux keeps them where
/// they do not count as memory; the others in their directory for temporary
/// files.
pub fn get_vibe_kanban_temp_dir<P: Fn(&str) -> DirectoryProbe>(
    override_dir: Option<SystemPath>,
    temp_dir: &str,
    on_linux: bool,
    development: bool,
    probe: P,
) -> (r: WorktreeBaseResolution)
    requires
        forall|p: &str| call_requires(probe, (p,)),
    ensures
        system_base_is(override_dir, temp_dir@, on_linux, development, probe, r),
{
    let (current, old_dir) = worktree_candidates(
        if on_linux {
            "/var/tmp"
        } else {
            temp_dir
        },
        development,
    );
    resolve_worktree_base_dir_with_reason(override_dir, current, old_dir, probe)
}

/// The directory that worktrees live in, chosen once.
#[derive(Debug)]
pub struct WorktreeBase {
    resolved: Option<SystemPath>,
}

impl WorktreeBase {
    /// The directory that is kept.
    pub closed spec fn resolved(self) -> Option<PathContent> {
        match self.resolved {
            Some(path) => Some(path@),
            None => None,
        }
    }

    /// Nothing was chosen yet.
    pub fn new() -> (b: WorktreeBase)
        ensures
            b.resolved() is None,
    {
        WorktreeBase { resolved: None }
    }

    /// The directory, as [`get_vibe_kanban_temp_dir`] chooses it on the first
    /// call, which also gives the reason. Later calls look at nothing and give
    /// the same directory, whatever their arguments are.
    pub fn path<P: Fn(&str) -> DirectoryProbe>(
        &mut self,
        override_dir: Option<SystemPath>,
        temp_dir: &str,
        on_linux: bool,
        development: bool,
        probe: P,
    ) -> (r: (SystemPath, Option<WorktreeBaseReason>))
        requires
            old(self).resolved() is None ==> forall|p: &str| call_requires(probe, (p,)),
        ensures
            keeps_first(old(self).resolved(), r.0@, final(self).resolved()),
            match r.1 {
                Some(reason) => old(self).resolved() is None && system_base_is(
                    override_dir,
                    temp_dir@,
                    on_linux,
                    development,
                    probe,
                    WorktreeBaseResolution { path: r.0, reason },
                ),
                None => old(self).resolved() is Some,
            },
    {
        let chosen = match &self.resolved {
            Some(kept) => return (clone_path(kept), None),
            None => get_vibe_kanban_temp_dir(override_dir, temp_dir, on_linux, development, probe),
        };
        self.resolved = Some(clone_path(&chosen.path));
        (chosen.path, Some(chosen.reason))
    }
}

fn clone_path(path: &SystemPath) -> (r: SystemPath)
    ensures
        r@ == path@,
{
    match path {
        SystemPath::Text(t) => SystemPath::Text(t.clone()),
        SystemPath::Bytes(b) => SystemPath::Bytes(b.clone()),
    }
}

/// The name of the directory that worktrees live in.
pub open spec fn current_name(development: bool) -> Seq<char> {
    if development {
        "bettercoding-dev"@
    } else {
        "bettercoding"@
    }
}

/// The name that the directory had in earlier versions.
pub open spec fn old_name(development: bool) -> Seq<char> {
    if development {
        "vibe-kanban-dev"@
    } else {
        "vibe-kanban"@
    }
}

/// The two directories that worktrees can live in below `base_dir`: the current
/// one and the old one. A development build has its own.
pub fn worktree_candidates(base_dir: &str, development: bool) -> (r: (String, String))
    ensures
        r.0@ == joined_path(base_dir@, current_name(development)),
        r.1@ == joined_path(base_dir@, old_name(development)),
{
    if development {
        (join(base_dir, "bettercoding-dev"), join(base_dir, "vibe-kanban-dev"))
    } else {
        (join(base_dir, "bettercoding"), join(base_dir, "vibe-kanban"))
    }
}

/// Worktrees live in the configured directory. Otherwise they live in the current
/// one, unless it is known to be empty and the old one is not; a directory that
/// cannot be looked into counts as one with something in it.
pub proof fn law_worktrees_stay_where_they_are<P: Fn(&str) -> DirectoryProbe>(
    override_dir: Option<SystemPath>,
    current: Seq<char>,
    previous: Seq<char>,
    probe: P,
    there: DirectoryProbe,
    before: DirectoryProbe,
    r: WorktreeBaseResolution,
)
    requires
        worktree_base_is(override_dir, current, previous, probe, r),
        forall|s: &str, a: DirectoryProbe| #[trigger]
            call_ensures(probe, (s,), a) ==> (s@ == current ==> a == there) && (s@ == previous ==> a
                == before),
    ensures
        override_dir matches Some(dir) ==> r.path == dir && r.reason is Override,
        override_dir is None ==> {
            let used = there is NonEmpty || there is Unknown;
            let old_used = before is NonEmpty || before is Unknown;
            &&& used ==> r.reason is Bettercoding && r.path@ == PathContent::Text(current)
            &&& !used && old_used ==> r.reason is LegacyAdopt && r.path@ == PathContent::Text(
                previous,
            )
            &&& !used && !old_used ==> r.reason is Fresh && r.path@ == PathContent::Text(current)
        },
{
}

/// On macOS the private names of the directories for variable and temporary files
/// are replaced by the public ones, for the directories and for all below them. No
/// other path is changed, and none is elsewhere.
pub proof fn law_public_names_replace_private_ones(tail: Seq<char>, s: Seq<char>)
    requires
        tail.len() == 0 || tail[0] == '/',
    ensures
        system_alias("/private/var"@ + tail, true) == "/var"@ + tail,
        system_alias("/private/tmp"@ + tail, true) == "/tmp"@ + tail,
        system_alias(s, false) == s,
        s != "/private/var"@ && s != "/private/tmp"@ && !begins_with(s, "/private/var/"@)
            && !begins_with(s, "/private/tmp/"@) ==> system_alias(s, true) == s,
{
    reveal_strlit("/private/var");
    reveal_strlit("/private/var/");
    reveal_strlit("/private/tmp");
    reveal_strlit("/private/tmp/");
    reveal_strlit("/var");
    reveal_strlit("/var/");
    reveal_strlit("/tmp");
    reveal_strlit("/tmp/");
    let v = "/private/var"@ + tail;
    let t = "/private/tmp"@ + tail;
    if tail.len() == 0 {
        assert(v =~= "/private/var"@);
        assert(t =~= "/private/tmp"@);
        assert("/private/tmp"@ != "/private/var"@) by {
            assert("/private/tmp"@[9] != "/private/var"@[9]);
        }
        assert(!begins_with(t, "/private/var/"@));
        assert("/var"@ + tail =~= "/var"@);
        assert("/tmp"@ + tail =~= "/tmp"@);
    } else {
        assert(v.subrange(0, 13) =~= "/private/var/"@);
        assert(t.subrange(0, 13) =~= "/private/tmp/"@);
        assert(v.len() > 12 && t.len() > 12);
        assert("/var/"@ + v.skip(13) =~= "/var"@ + tail);
        assert("/tmp/"@ + t.skip(13) =~= "/tmp"@ + tail);
        assert(!begins_with(t, "/private/var/"@)) by {
            if begins_with(t, "/private/var/"@) {
                assert(t.subrange(0, 13)[9] == "/private/var/"@[9]);
            }
        }
    }
}

/// The worktree itself is shown as a dot, and everything below it as it is.
pub proof fn law_worktree_is_a_dot(rel: Seq<char>)
    ensures
        rel.len() == 0 ==> shown_relative(rel) == "."@,
        rel.len() > 0 ==> shown_relative(rel) == rel,
{
}

/// A path from the environment is nothing where it is empty, and starts at the root
/// where its first character, or byte, is the separator.
pub proof fn law_paths_by_their_first_character(text: String, bytes: Vec<u8>)
    ensures
        SystemPath::Text(text).is_nothing() <==> text@ == Seq::<char>::empty(),
        SystemPath::Bytes(bytes).is_nothing() <==> bytes@ == Seq::<u8>::empty(),
        SystemPath::Text(text).is_rooted() <==> text@.len() > 0 && text@[0] == '/',
        SystemPath::Bytes(bytes).is_rooted() <==> bytes@.len() > 0 && bytes@[0] as char == '/',
{
    if text@.len() == 0 {
        assert(text@ =~= Seq::<char>::empty());
    }
    if bytes@.len() == 0 {
        assert(bytes@ =~= Seq::<u8>::empty());
    }
}

/// Once links were followed, a path is shown relative to where those of the worktree
/// lead, if it lies there; otherwise, and where either cannot be followed, as it is.
pub proof fn law_links_are_followed_on_both_sides<C: Fn(&str) -> Option<String>>(
    canonical: C,
    a: Option<String>,
    b: Option<String>,
    w: Seq<char>,
    path: Seq<char>,
    r: Seq<char>,
)
    requires
        relative_by_links(canonical, a, w, path, r),
        forall|t: &str, c: Option<String>| #[trigger]
            call_ensures(canonical, (t,), c) ==> (t@ == w ==> c == b),
    ensures
        a is None || b is None ==> r == path,
        a matches Some(p) ==> (b matches Some(v) ==> match stripped(p@, v@) {
            None => r == path,
            Some(rel) => rel.len() > 0 && r == rel || rel.len() == 0 && r == "."@,
        }),
{
}

} // verus!
