use std::collections::BTreeMap;

use bettercoding::error::ApiError;
use bettercoding::file_policy::{LEGACY_UPLOADS_DIR, MAX_UPLOAD_FILE_BYTES, UPLOADS_DIR};
use bettercoding::files::{FileMeta, UploadQuery};
use bettercoding::upload_run::{UploadAnswer, UploadPhase, UploadRun};
use bettercoding::uploads::{
    ignore_backup_name, ignore_contents, map_upload_publish_error, Examined, FileFailure,
    IgnoreAnswer, IgnoreState, PublishAnswer, PublishState, UploadsAnswer, UploadsDir,
    UploadsError, UploadsPhase, UploadsSearch,
};

const BASE: &str = "/ws";

#[derive(Clone, Debug, PartialEq, Eq)]
enum Node {
    Dir,
    File(String),
    Link(String),
}

/// A workspace's files, in memory.
#[derive(Default)]
struct Disk {
    nodes: BTreeMap<String, Node>,
    contended: bool,
    next_id: usize,
}

impl Disk {
    fn dir(&mut self, path: &str) {
        self.nodes.insert(path.to_string(), Node::Dir);
    }

    fn file(&mut self, path: &str, contents: &str) {
        self.nodes.insert(path.to_string(), Node::File(contents.to_string()));
    }

    fn seed(&mut self, path: &str) {
        self.dir(path);
        self.file(&format!("{path}/.gitignore"), "*\n");
    }

    fn read(&self, path: &str) -> Option<String> {
        match self.nodes.get(path) {
            Some(Node::File(s)) => Some(s.clone()),
            _ => None,
        }
    }

    fn has(&self, path: &str) -> bool {
        self.nodes.contains_key(path)
    }

    fn is_dir(&self, path: &str) -> bool {
        self.nodes.get(path) == Some(&Node::Dir)
    }

    fn remove(&mut self, path: &str) {
        let below = format!("{path}/");
        self.nodes.retain(|k, _| k != path && !k.starts_with(&below));
    }

    fn rename(&mut self, from: &str, to: &str) -> bool {
        if self.has(to) || !self.has(from) {
            return false;
        }
        let below = format!("{from}/");
        let moved: Vec<(String, Node)> = self
            .nodes
            .iter()
            .filter(|(k, _)| *k == from || k.starts_with(&below))
            .map(|(k, v)| (k.replacen(from, to, 1), v.clone()))
            .collect();
        self.remove(from);
        self.nodes.extend(moved);
        true
    }

    fn examine(&self, path: &str) -> Examined {
        match self.nodes.get(path) {
            None => Examined::Missing,
            Some(Node::Dir) => Examined::At(path.to_string()),
            Some(_) => Examined::NotADirectory,
        }
    }

    fn ensure_ignored(&mut self, dir: &str) -> Result<(), String> {
        let file = format!("{dir}/.gitignore");
        let mut state = IgnoreState::start();
        loop {
            let answer = match &state {
                IgnoreState::Inspect => match self.nodes.get(&file) {
                    None => IgnoreAnswer::Missing,
                    Some(Node::File(_)) => IgnoreAnswer::Regular,
                    Some(_) => IgnoreAnswer::Other,
                },
                IgnoreState::MoveAside => {
                    self.next_id += 1;
                    let name = ignore_backup_name(&format!("id{}", self.next_id));
                    assert!(self.rename(&file, &format!("{dir}/{name}")));
                    IgnoreAnswer::Carried
                }
                IgnoreState::CreateNew => IgnoreAnswer::Carried,
                IgnoreState::Write => {
                    self.file(&file, &ignore_contents());
                    IgnoreAnswer::Carried
                }
                IgnoreState::Remove { .. } => IgnoreAnswer::Carried,
                IgnoreState::Done(_) => break,
            };
            state = state.step(answer);
        }
        match state {
            IgnoreState::Done(r) => r,
            other => panic!("unexpected {other:?}"),
        }
    }

    fn resolve(&mut self) -> Result<String, UploadsError> {
        self.resolve_with(|_| {})
    }

    /// `after_probes` plays what somebody else does once both directories were
    /// looked for.
    fn resolve_with<F: FnOnce(&mut Disk)>(&mut self, after_probes: F) -> Result<String, UploadsError> {
        let current = format!("{BASE}/{UPLOADS_DIR}");
        let legacy = format!("{BASE}/{LEGACY_UPLOADS_DIR}");
        let mut others = Some(after_probes);
        let mut search = UploadsSearch::start();
        loop {
            let answer = match &search.phase {
                UploadsPhase::ProbeCurrent => UploadsAnswer::Is(self.is_dir(&current)),
                UploadsPhase::ProbeLegacy => UploadsAnswer::Is(self.is_dir(&legacy)),
                UploadsPhase::ProbeLink => {
                    if let Some(f) = others.take() {
                        f(self);
                    }
                    UploadsAnswer::Is(matches!(self.nodes.get(&current), Some(Node::Link(_))))
                }
                UploadsPhase::Lock => UploadsAnswer::Is(!self.contended),
                UploadsPhase::Rename => UploadsAnswer::Is(self.rename(&legacy, &current)),
                UploadsPhase::ReadAlong => UploadsAnswer::Carried,
                UploadsPhase::ReprobeCurrent => UploadsAnswer::Is(self.is_dir(&current)),
                UploadsPhase::ReprobeLegacy => UploadsAnswer::Is(self.is_dir(&legacy)),
                UploadsPhase::Create => {
                    if self.has(&current) {
                        UploadsAnswer::Failed("exists".to_string())
                    } else {
                        self.dir(&current);
                        UploadsAnswer::Carried
                    }
                }
                UploadsPhase::CheckCreated => UploadsAnswer::Is(self.is_dir(&current)),
                UploadsPhase::ExamineCurrent | UploadsPhase::LateCurrent => {
                    UploadsAnswer::Examined(self.examine(&current))
                }
                UploadsPhase::ExamineLegacy | UploadsPhase::LateLegacy => {
                    UploadsAnswer::Examined(self.examine(&legacy))
                }
                UploadsPhase::IgnoreCurrent => match self.ensure_ignored(&current) {
                    Ok(()) => UploadsAnswer::Carried,
                    Err(e) => UploadsAnswer::Failed(e),
                },
                UploadsPhase::IgnoreLegacy => match self.ensure_ignored(&legacy) {
                    Ok(()) => UploadsAnswer::Carried,
                    Err(e) => UploadsAnswer::Failed(e),
                },
                UploadsPhase::Done(_) => break,
            };
            search = search.step(BASE, answer);
        }
        match search.phase {
            UploadsPhase::Done(r) => r,
            other => panic!("unexpected {other:?}"),
        }
    }

    fn publish_once(&mut self, dir: &str, tmp: &str, name: &str, overwrite: bool) -> Result<(), FileFailure> {
        let from = format!("{dir}/{tmp}");
        let to = format!("{dir}/{name}");
        let contents = match self.read(&from) {
            Some(c) => c,
            None => return Err(FileFailure::NotFound("no such file".to_string())),
        };
        if self.has(&to) && !overwrite {
            return Err(FileFailure::AlreadyExists("file exists".to_string()));
        }
        self.file(&to, &contents);
        if overwrite {
            self.remove(&from);
        }
        Ok(())
    }

    fn publish(
        &mut self,
        target: &str,
        tmp: &str,
        name: &str,
        overwrite: bool,
        default_dir: bool,
    ) -> Result<String, ApiError> {
        let target = target.to_string();
        let mut state = PublishState::start();
        loop {
            let answer = match &state {
                PublishState::Publish => {
                    PublishAnswer::Published(self.publish_once(&target, tmp, name, overwrite))
                }
                PublishState::CheckTarget { .. } => {
                    PublishAnswer::TargetMissing(!self.has(&target))
                }
                PublishState::Resolve => PublishAnswer::Resolved(self.resolve()),
                PublishState::Republish { dir } => {
                    let dir = dir.clone();
                    PublishAnswer::Published(self.publish_once(&dir, tmp, name, overwrite))
                }
                PublishState::CleanFirst { .. } => {
                    self.remove(&format!("{target}/{tmp}"));
                    PublishAnswer::Cleaned
                }
                PublishState::CleanBoth { dir, .. } => {
                    let dir = dir.clone();
                    self.remove(&format!("{target}/{tmp}"));
                    self.remove(&format!("{dir}/{tmp}"));
                    PublishAnswer::Cleaned
                }
                PublishState::CleanEverywhere { .. } => {
                    self.remove(&format!("{target}/{tmp}"));
                    self.remove(&format!("{BASE}/{UPLOADS_DIR}/{tmp}"));
                    self.remove(&format!("{BASE}/{LEGACY_UPLOADS_DIR}/{tmp}"));
                    PublishAnswer::Cleaned
                }
                PublishState::Done(_) => break,
            };
            state = state.step(&target, default_dir, answer);
        }
        match state {
            PublishState::Done(Ok(dir)) => Ok(dir),
            PublishState::Done(Err(e)) => Err(e.into_api_error(name, overwrite)),
            other => panic!("unexpected {other:?}"),
        }
    }

    fn assert_ignored(&self, dir: &str) {
        assert_eq!(self.read(&format!("{dir}/.gitignore")).as_deref(), Some("*\n"));
    }

    fn backups(&self, dir: &str) -> Vec<String> {
        let prefix = format!("{dir}/.gitignore.bak.");
        self.nodes
            .keys()
            .filter(|k| k.starts_with(&prefix) && !k[prefix.len()..].contains('/'))
            .cloned()
            .collect()
    }
}

fn current() -> String {
    format!("{BASE}/{UPLOADS_DIR}")
}

fn legacy() -> String {
    format!("{BASE}/{LEGACY_UPLOADS_DIR}")
}

#[test]
fn uploads_dir_resolver_creates_new_dir_when_neither_exists() {
    let mut disk = Disk::default();
    assert_eq!(disk.resolve().unwrap(), current());
    assert!(disk.is_dir(&current()));
    assert!(!disk.has(&legacy()));
    disk.assert_ignored(&current());
}

#[test]
fn uploads_dir_resolver_migrates_legacy_only_dir() {
    let mut disk = Disk::default();
    disk.seed(&legacy());
    disk.file(&format!("{}/report.txt", legacy()), "legacy report");
    disk.dir(&format!("{}/nested", legacy()));
    disk.file(&format!("{}/nested/data.bin", legacy()), "legacy data");

    assert_eq!(disk.resolve().unwrap(), current());
    assert!(disk.is_dir(&current()));
    assert!(!disk.has(&legacy()));
    disk.assert_ignored(&current());
    assert_eq!(disk.read(&format!("{}/report.txt", current())).unwrap(), "legacy report");
    assert_eq!(disk.read(&format!("{}/nested/data.bin", current())).unwrap(), "legacy data");
}

#[test]
fn uploads_dir_migration_skips_in_flight_request_then_converges() {
    let mut disk = Disk::default();
    disk.seed(&legacy());
    disk.file(&format!("{}/.bc-upload-in-flight.tmp", legacy()), "streamed upload");
    disk.contended = true;

    assert_eq!(disk.resolve().unwrap(), legacy());
    assert!(disk.is_dir(&legacy()));
    assert!(!disk.has(&current()));
    assert!(disk.rename(
        &format!("{}/.bc-upload-in-flight.tmp", legacy()),
        &format!("{}/report.txt", legacy())
    ));
    disk.contended = false;

    assert_eq!(disk.resolve().unwrap(), current());
    assert!(!disk.has(&legacy()));
    assert!(!disk.has(&format!("{}/.bc-upload-in-flight.tmp", current())));
    assert_eq!(disk.read(&format!("{}/report.txt", current())).unwrap(), "streamed upload");
}

#[test]
fn uploads_dir_resolver_rechecks_after_losing_rename_race() {
    let mut disk = Disk::default();
    disk.seed(&legacy());
    disk.file(&format!("{}/report.txt", legacy()), "legacy report");
    let resolved = disk.resolve_with(|d| {
        assert!(d.rename(&legacy(), &current()));
    });
    assert_eq!(resolved.unwrap(), current());
    assert!(!disk.has(&legacy()));
    assert_eq!(disk.read(&format!("{}/report.txt", current())).unwrap(), "legacy report");
    disk.assert_ignored(&current());
}

#[test]
fn uploads_dir_resolver_converges_when_create_races_rename() {
    let mut disk = Disk::default();
    disk.seed(&legacy());
    disk.file(&format!("{}/legacy.txt", legacy()), "legacy data");
    let resolved = disk.resolve_with(|d| {
        d.dir(&current());
        d.file(&format!("{}/new.txt", current()), "new data");
    });
    assert_eq!(resolved.unwrap(), current());
    assert!(disk.is_dir(&legacy()));
    assert_eq!(disk.read(&format!("{}/new.txt", current())).unwrap(), "new data");
    assert_eq!(disk.read(&format!("{}/legacy.txt", legacy())).unwrap(), "legacy data");
    disk.assert_ignored(&current());
    disk.assert_ignored(&legacy());
}

#[test]
fn uploads_dir_resolver_creates_current_when_legacy_vanishes() {
    let mut disk = Disk::default();
    disk.seed(&legacy());
    let resolved = disk.resolve_with(|d| d.remove(&legacy()));
    assert_eq!(resolved.unwrap(), current());
    assert!(!disk.has(&legacy()));
    disk.assert_ignored(&current());
}

#[test]
fn uploads_dir_resolver_returns_new_only_dir_untouched() {
    let mut disk = Disk::default();
    disk.dir(&current());
    disk.file(&format!("{}/new.txt", current()), "new data");
    assert_eq!(disk.resolve().unwrap(), current());
    assert!(!disk.has(&legacy()));
    disk.assert_ignored(&current());
    assert_eq!(disk.read(&format!("{}/new.txt", current())).unwrap(), "new data");
}

#[test]
fn uploads_dir_resolver_preserves_regular_gitignore_contents() {
    let mut disk = Disk::default();
    disk.dir(&current());
    disk.file(&format!("{}/.gitignore", current()), "*.secret\n");
    assert_eq!(disk.resolve().unwrap(), current());
    assert_eq!(disk.read(&format!("{}/.gitignore", current())).unwrap(), "*.secret\n");
}

#[test]
fn uploads_dir_resolver_preserves_gitignore_directory_as_backup() {
    let mut disk = Disk::default();
    disk.dir(&current());
    disk.dir(&format!("{}/.gitignore", current()));
    disk.file(&format!("{}/.gitignore/nested", current()), "not an ignore file");
    assert_eq!(disk.resolve().unwrap(), current());
    let backups = disk.backups(&current());
    assert_eq!(backups.len(), 1);
    assert_eq!(disk.read(&format!("{}/nested", backups[0])).unwrap(), "not an ignore file");
    disk.assert_ignored(&current());
}

#[test]
fn uploads_dir_resolver_preserves_gitignore_symlink_as_backup() {
    let mut disk = Disk::default();
    disk.dir(&current());
    disk.nodes.insert(format!("{}/.gitignore", current()), Node::Link("/outside".to_string()));
    assert_eq!(disk.resolve().unwrap(), current());
    disk.assert_ignored(&current());
    let backups = disk.backups(&current());
    assert_eq!(backups.len(), 1);
    assert_eq!(disk.nodes[&backups[0]], Node::Link("/outside".to_string()));
}

#[test]
fn uploads_dir_resolver_ignores_legacy_symlink_and_creates_real_current_dir() {
    let mut disk = Disk::default();
    disk.nodes.insert(legacy(), Node::Link("/outside".to_string()));
    assert_eq!(disk.resolve().unwrap(), current());
    assert_eq!(disk.nodes[&legacy()], Node::Link("/outside".to_string()));
    assert!(disk.is_dir(&current()));
    disk.assert_ignored(&current());
}

#[test]
fn uploads_dir_resolver_rejects_current_symlink_outside_workspace() {
    let mut disk = Disk::default();
    disk.nodes.insert(current(), Node::Link("/outside".to_string()));
    disk.seed(&legacy());
    let error = disk.resolve().unwrap_err().into_api_error();
    match error {
        ApiError::BadRequest(m) => assert_eq!(m, "Upload directory must be a real directory"),
        other => panic!("unexpected {other:?}"),
    }
    assert_eq!(disk.nodes[&current()], Node::Link("/outside".to_string()));
    assert!(disk.is_dir(&legacy()));
}

#[test]
fn uploads_dir_resolver_prefers_new_dir_when_both_exist() {
    let mut disk = Disk::default();
    disk.dir(&current());
    disk.dir(&legacy());
    disk.file(&format!("{}/new.txt", current()), "new data");
    disk.file(&format!("{}/legacy.txt", legacy()), "legacy data");
    assert_eq!(disk.resolve().unwrap(), current());
    disk.assert_ignored(&current());
    disk.assert_ignored(&legacy());
    assert_eq!(disk.read(&format!("{}/new.txt", current())).unwrap(), "new data");
    assert_eq!(disk.read(&format!("{}/legacy.txt", legacy())).unwrap(), "legacy data");
}

#[test]
fn uploads_dir_resolver_falls_back_to_legacy_on_rename_failure() {
    let mut disk = Disk::default();
    disk.dir(&legacy());
    disk.file(&format!("{}/keep.txt", legacy()), "do not lose me");
    disk.file(&current(), "not a directory");
    assert_eq!(disk.resolve().unwrap(), legacy());
    disk.assert_ignored(&legacy());
    assert_eq!(disk.read(&format!("{}/keep.txt", legacy())).unwrap(), "do not lose me");
    assert_eq!(disk.read(&current()).unwrap(), "not a directory");
}

#[test]
fn default_upload_publish_retries_after_external_migration() {
    let mut disk = Disk::default();
    disk.seed(&legacy());
    let tmp = ".bc-upload-retry.tmp";
    disk.file(&format!("{}/{tmp}", legacy()), "streamed upload");
    assert!(disk.rename(&legacy(), &current()));

    let dir = disk.publish(&legacy(), tmp, "report.txt", false, true).unwrap();
    assert_eq!(dir, current());
    assert_eq!(disk.read(&format!("{}/report.txt", current())).unwrap(), "streamed upload");
    assert!(!disk.has(&format!("{}/{tmp}", legacy())));
    assert!(!disk.has(&format!("{}/{tmp}", current())));
}

#[test]
fn default_upload_publish_retry_failure_cleans_both_temp_paths() {
    let mut disk = Disk::default();
    disk.seed(&legacy());
    let tmp = ".bc-upload-conflict.tmp";
    disk.file(&format!("{}/{tmp}", legacy()), "streamed upload");
    disk.file(&format!("{}/report.txt", legacy()), "existing report");
    assert!(disk.rename(&legacy(), &current()));

    let error = disk.publish(&legacy(), tmp, "report.txt", false, true).unwrap_err();
    assert!(matches!(error, ApiError::Conflict(_)));
    assert_eq!(disk.read(&format!("{}/report.txt", current())).unwrap(), "existing report");
    assert!(!disk.has(&format!("{}/{tmp}", legacy())));
    assert!(!disk.has(&format!("{}/{tmp}", current())));
}

#[test]
fn named_directories_are_not_looked_for_again() {
    let mut disk = Disk::default();
    match disk.publish("/ws/gone", "t", "report.txt", false, false) {
        Err(ApiError::Io(m)) => assert_eq!(m, "no such file"),
        other => panic!("unexpected {other:?}"),
    }
    assert!(!disk.has(&current()));
}

#[test]
fn publish_failures_are_answered() {
    match map_upload_publish_error(FileFailure::AlreadyExists("e".to_string()), "n", true) {
        ApiError::Io(m) => assert_eq!(m, "e"),
        other => panic!("unexpected {other:?}"),
    }
    match map_upload_publish_error(FileFailure::Other("disk full".to_string()), "n", false) {
        ApiError::Io(m) => assert_eq!(m, "disk full"),
        other => panic!("unexpected {other:?}"),
    }
}

#[test]
fn failed_publication_cleans_wherever_the_file_can_be() {
    let target = "/ws/.vibe-uploads".to_string();
    let s = PublishState::start()
        .step(&target, true, PublishAnswer::Published(Err(FileFailure::NotFound("x".to_string()))))
        .step(&target, true, PublishAnswer::TargetMissing(true))
        .step(&target, true, PublishAnswer::Resolved(Err(UploadsError::Escapes)));
    assert!(matches!(s, PublishState::CleanEverywhere { .. }));
    match s.step(&target, true, PublishAnswer::Cleaned) {
        PublishState::Done(Err(e)) => match e.into_api_error("n", false) {
            ApiError::BadRequest(m) => assert_eq!(m, "Upload directory escapes the workspace"),
            other => panic!("unexpected {other:?}"),
        },
        other => panic!("unexpected {other:?}"),
    }
}

#[test]
fn errors_of_the_search() {
    let text = |e: UploadsError| match e.into_api_error() {
        ApiError::BadRequest(m) => m,
        ApiError::Io(m) => format!("io: {m}"),
        other => panic!("unexpected {other:?}"),
    };
    assert_eq!(
        text(UploadsError::Vanished(UploadsDir::Current)),
        "Upload directory no longer exists"
    );
    assert_eq!(
        text(UploadsError::Vanished(UploadsDir::Legacy)),
        "Legacy upload directory no longer exists"
    );
    assert_eq!(text(UploadsError::Io("e".to_string())), "io: e");
    // A directory that lies elsewhere is refused.
    let s = UploadsSearch::start()
        .step(BASE, UploadsAnswer::Is(true))
        .step(BASE, UploadsAnswer::Is(false))
        .step(BASE, UploadsAnswer::Is(false))
        .step(BASE, UploadsAnswer::Examined(Examined::At("/else".to_string())));
    match s.phase {
        UploadsPhase::Done(Err(e)) => assert_eq!(text(e), "Upload directory escapes the workspace"),
        other => panic!("unexpected {other:?}"),
    }
}

#[test]
fn a_failed_ignore_file_is_removed() {
    let s = IgnoreState::start()
        .step(IgnoreAnswer::Missing)
        .step(IgnoreAnswer::Carried)
        .step(IgnoreAnswer::Failed("disk full".to_string()));
    assert!(matches!(s, IgnoreState::Remove { .. }));
    match s.step(IgnoreAnswer::Failed("gone".to_string())) {
        IgnoreState::Done(Err(e)) => assert_eq!(e, "disk full"),
        other => panic!("unexpected {other:?}"),
    }
    // Somebody else was faster: look again.
    let raced = IgnoreState::start()
        .step(IgnoreAnswer::Missing)
        .step(IgnoreAnswer::AlreadyExists);
    assert!(matches!(raced, IgnoreState::Inspect));
}

fn default_query() -> UploadQuery {
    UploadQuery { path: None, overwrite: false }
}

fn ready(query: &UploadQuery) -> UploadRun {
    let mut run = UploadRun::start(query);
    if matches!(run.phase, UploadPhase::PreResolve) {
        run = run.step(UploadAnswer::Resolved(Err(ApiError::NotFound)));
    }
    run.step(UploadAnswer::Carried)
        .step(UploadAnswer::Resolved(Ok("/ws/up".to_string())))
}

#[test]
fn an_upload_runs_through() {
    let run = ready(&default_query())
        .step(UploadAnswer::OtherField)
        .step(UploadAnswer::File { raw_name: "a/b.txt".to_string() });
    match &run.phase {
        UploadPhase::CheckExisting { name } => assert_eq!(name, "b.txt"),
        other => panic!("unexpected {other:?}"),
    }
    let run = run
        .step(UploadAnswer::Exists(false))
        .step(UploadAnswer::Carried)
        .step(UploadAnswer::Chunk { len: 3 })
        .step(UploadAnswer::Carried)
        .step(UploadAnswer::Chunk { len: 4 })
        .step(UploadAnswer::Carried)
        .step(UploadAnswer::End)
        .step(UploadAnswer::Carried)
        .step(UploadAnswer::Published(Ok("/ws/moved".to_string())));
    assert_eq!(run.target_dir, "/ws/moved");
    let run = run
        .step(UploadAnswer::Described { path: Ok("moved/b.txt".to_string()), meta: None })
        .step(UploadAnswer::End);
    match run.phase {
        UploadPhase::Done(Ok(files)) => {
            assert_eq!(files.len(), 1);
            assert_eq!(files[0].name, "b.txt");
            assert_eq!(files[0].path, "moved/b.txt");
            assert_eq!(files[0].size_bytes, 7);
        }
        other => panic!("unexpected {other:?}"),
    }
}

#[test]
fn a_named_directory_is_resolved_once() {
    let query = UploadQuery { path: Some("docs".to_string()), overwrite: true };
    let run = UploadRun::start(&query);
    assert!(matches!(run.phase, UploadPhase::ReadLock));
    let run = ready(&query).step(UploadAnswer::File { raw_name: "x".to_string() });
    // Where files may be replaced, nobody asks whether one is there.
    assert!(matches!(run.phase, UploadPhase::OpenTemp { .. }));
}

#[test]
fn refused_uploads_are_discarded() {
    let receiving = || {
        ready(&default_query())
            .step(UploadAnswer::File { raw_name: "x".to_string() })
            .step(UploadAnswer::Exists(false))
            .step(UploadAnswer::Carried)
    };
    let big = receiving().step(UploadAnswer::Chunk { len: MAX_UPLOAD_FILE_BYTES + 1 });
    assert!(matches!(big.phase, UploadPhase::Discard { .. }));
    match big.step(UploadAnswer::Carried).phase {
        UploadPhase::Done(Err(ApiError::PayloadTooLarge)) => {}
        other => panic!("unexpected {other:?}"),
    }
    let broken = receiving().step(UploadAnswer::Failed(ApiError::Io("cut".to_string())));
    match broken.step(UploadAnswer::Carried).phase {
        UploadPhase::Done(Err(ApiError::Io(m))) => assert_eq!(m, "cut"),
        other => panic!("unexpected {other:?}"),
    }
    let unwritten = receiving()
        .step(UploadAnswer::Chunk { len: 1 })
        .step(UploadAnswer::Failed(ApiError::Io("full".to_string())));
    assert!(matches!(unwritten.phase, UploadPhase::Discard { .. }));
}

#[test]
fn uploads_end_with_their_first_error() {
    let conflict = ready(&default_query())
        .step(UploadAnswer::File { raw_name: "x".to_string() })
        .step(UploadAnswer::Exists(true));
    match conflict.phase {
        UploadPhase::Done(Err(ApiError::Conflict(m))) => assert_eq!(m, "File 'x' already exists"),
        other => panic!("unexpected {other:?}"),
    }
    match ready(&default_query()).step(UploadAnswer::End).phase {
        UploadPhase::Done(Err(ApiError::BadRequest(m))) => assert_eq!(m, "No files in upload"),
        other => panic!("unexpected {other:?}"),
    }
    let no_dir = UploadRun::start(&default_query())
        .step(UploadAnswer::Resolved(Ok("/ws/up".to_string())))
        .step(UploadAnswer::Carried)
        .step(UploadAnswer::Resolved(Err(ApiError::NotFound)));
    assert!(matches!(no_dir.phase, UploadPhase::Done(Err(ApiError::NotFound))));
}

#[test]
fn an_upload_holds_fifty_files() {
    let mut run = ready(&UploadQuery { path: None, overwrite: true });
    for i in 0..50 {
        run = run
            .step(UploadAnswer::File { raw_name: format!("f{i}") })
            .step(UploadAnswer::Carried)
            .step(UploadAnswer::End)
            .step(UploadAnswer::Carried)
            .step(UploadAnswer::Published(Ok("/ws/up".to_string())))
            .step(UploadAnswer::Described {
                path: Ok(format!("up/f{i}")),
                meta: Some(FileMeta { is_dir: false, is_symlink: false, len: i, modified: None }),
            });
    }
    assert_eq!(run.uploaded.len(), 50);
    assert_eq!(run.uploaded[49].size_bytes, 49);
    match run.step(UploadAnswer::File { raw_name: "more".to_string() }).phase {
        UploadPhase::Done(Err(ApiError::BadRequest(m))) => assert_eq!(m, "Too many files (max 50)"),
        other => panic!("unexpected {other:?}"),
    }
}
