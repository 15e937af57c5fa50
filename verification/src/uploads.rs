//! The directory that uploads go to by default, and how a streamed file gets
//! its final name.
//!
//! The directory had another name in earlier versions. It is renamed where
//! nobody is reading from it, and used under its old name otherwise, so that
//! nothing that was uploaded is ever lost.

use vstd::prelude::*;
use vstd::string::*;

use crate::error::{ApiError, bad_request, conflict};
use crate::path_text::{is_under, lies_under};
use crate::text::{clone_opt, concat2, concat3};

verus! {

/// One of the two directories.
#[derive(Debug, Clone, Copy, PartialEq, Eq, Structural)]
pub enum UploadsDir {
    Current,
    Legacy,
}

/// What looking closely at a directory came to.
#[derive(Debug)]
pub enum Examined {
    Missing,
    /// Something is there, but no real directory.
    NotADirectory,
    /// Where it is, with every link followed.
    At(String),
}

/// Why no directory could be had.
#[derive(Debug)]
pub enum UploadsError {
    NotReal,
    Escapes,
    Vanished(UploadsDir),
    Io(String),
}

/// What a failure to find the directory is answered with.
pub open spec fn directory_failure(d: UploadsError, e: ApiError) -> bool {
    match d {
        UploadsError::NotReal => bad_request(e, "Upload directory must be a real directory"@),
        UploadsError::Escapes => bad_request(e, "Upload directory escapes the workspace"@),
        UploadsError::Vanished(UploadsDir::Current) => bad_request(
            e,
            "Upload directory no longer exists"@,
        ),
        UploadsError::Vanished(UploadsDir::Legacy) => bad_request(
            e,
            "Legacy upload directory no longer exists"@,
        ),
        UploadsError::Io(m) => e == ApiError::Io(m),
    }
}

impl UploadsError {
    /// What the request is answered with.
    pub fn into_api_error(self) -> (e: ApiError)
        ensures
            directory_failure(self, e),
    {
        match self {
            UploadsError::NotReal => ApiError::BadRequest(
                "Upload directory must be a real directory".to_owned(),
            ),
            UploadsError::Escapes => ApiError::BadRequest(
                "Upload directory escapes the workspace".to_owned(),
            ),
            UploadsError::Vanished(UploadsDir::Current) => ApiError::BadRequest(
                "Upload directory no longer exists".to_owned(),
            ),
            UploadsError::Vanished(UploadsDir::Legacy) => ApiError::BadRequest(
                "Legacy upload directory no longer exists".to_owned(),
            ),
            UploadsError::Io(m) => ApiError::Io(m),
        }
    }
}

/// What the search does next.
#[derive(Debug)]
pub enum UploadsPhase {
    /// Is there a real directory under the current name?
    ProbeCurrent,
    /// Is there one under the old name?
    ProbeLegacy,
    /// Is there a link under the current name?
    ProbeLink,
    /// Try to get the workspace for this search alone.
    Lock,
    /// Rename the old directory.
    Rename,
    /// Somebody reads: read along, until the search is over.
    ReadAlong,
    /// Look again for the current directory.
    ReprobeCurrent,
    /// Look again for the old directory.
    ReprobeLegacy,
    /// Create the current directory.
    Create,
    /// Is what was created a real directory?
    CheckCreated,
    /// Look closely at the current directory.
    ExamineCurrent,
    /// Look closely at the old directory.
    ExamineLegacy,
    /// Both were missing: look closely at the current one once more.
    LateCurrent,
    /// And at the old one.
    LateLegacy,
    /// See to it that git ignores the current directory.
    IgnoreCurrent,
    /// See to it that git ignores the old directory.
    IgnoreLegacy,
    Done(Result<String, UploadsError>),
}

/// The search for the directory that uploads go to.
#[derive(Debug)]
pub struct UploadsSearch {
    pub phase: UploadsPhase,
    pub uploads_exists: bool,
    pub legacy_exists: bool,
    /// Which directory was settled on.
    pub resolved: UploadsDir,
    pub current: Option<String>,
    pub legacy: Option<String>,
}

/// What came of a step.
#[derive(Debug)]
pub enum UploadsAnswer {
    /// Yes or no; for a rename, whether it went through.
    Is(bool),
    Examined(Examined),
    /// The step was carried out.
    Carried,
    Failed(String),
}

impl UploadsSearch {
    pub open spec fn at(self, phase: UploadsPhase) -> UploadsSearch {
        UploadsSearch { phase, ..self }
    }

    pub open spec fn fail(self, e: UploadsError) -> UploadsSearch {
        self.at(UploadsPhase::Done(Err(e)))
    }

    /// The search after a directory was settled on.
    pub open spec fn settle(self, resolved: UploadsDir) -> UploadsSearch {
        let s = UploadsSearch { resolved, ..self };
        if s.uploads_exists || resolved is Current {
            s.at(UploadsPhase::ExamineCurrent)
        } else {
            s.at(UploadsPhase::ExamineLegacy)
        }
    }

    /// The search after the current directory was looked at closely.
    pub open spec fn examined_current(self) -> UploadsSearch {
        if self.legacy_exists || self.resolved is Legacy {
            self.at(UploadsPhase::ExamineLegacy)
        } else {
            self.examined_both()
        }
    }

    /// The search after both directories were looked at closely.
    pub open spec fn examined_both(self) -> UploadsSearch {
        if self.current is None && self.legacy is None {
            self.at(UploadsPhase::LateCurrent)
        } else {
            self.to_ignore()
        }
    }

    /// The search once it is known which directories are there.
    pub open spec fn to_ignore(self) -> UploadsSearch {
        if self.current is Some {
            self.at(UploadsPhase::IgnoreCurrent)
        } else if self.legacy is Some {
            self.at(UploadsPhase::IgnoreLegacy)
        } else {
            self.conclude()
        }
    }

    /// The end of the search: the directory that was settled on, or the other
    /// one where it went away.
    pub open spec fn conclude(self) -> UploadsSearch {
        let (first, second) = match self.resolved {
            UploadsDir::Current => (self.current, self.legacy),
            UploadsDir::Legacy => (self.legacy, self.current),
        };
        if first is Some {
            self.at(UploadsPhase::Done(Ok(first->0)))
        } else if second is Some {
            self.at(UploadsPhase::Done(Ok(second->0)))
        } else {
            self.fail(UploadsError::Vanished(self.resolved))
        }
    }

    /// The search after a step. An answer to another question than the one that
    /// was asked changes nothing.
    pub open spec fn after(self, base: Seq<char>, answer: UploadsAnswer) -> UploadsSearch {
        match (self.phase, answer) {
            (UploadsPhase::ProbeCurrent, UploadsAnswer::Is(yes)) => UploadsSearch {
                phase: UploadsPhase::ProbeLegacy,
                uploads_exists: yes,
                ..self
            },
            (UploadsPhase::ProbeLegacy, UploadsAnswer::Is(yes)) => UploadsSearch {
                phase: UploadsPhase::ProbeLink,
                legacy_exists: yes,
                ..self
            },
            (UploadsPhase::ProbeLink, UploadsAnswer::Is(yes)) => if yes {
                self.fail(UploadsError::NotReal)
            } else if self.uploads_exists {
                self.settle(UploadsDir::Current)
            } else if self.legacy_exists {
                self.at(UploadsPhase::Lock)
            } else {
                self.at(UploadsPhase::Create)
            },
            (UploadsPhase::Lock, UploadsAnswer::Is(yes)) => if yes {
                self.at(UploadsPhase::Rename)
            } else {
                self.at(UploadsPhase::ReadAlong)
            },
            (UploadsPhase::Rename, UploadsAnswer::Is(yes)) => if yes {
                self.settle(UploadsDir::Current)
            } else {
                self.at(UploadsPhase::ReprobeCurrent)
            },
            (UploadsPhase::ReadAlong, UploadsAnswer::Carried) => self.at(
                UploadsPhase::ReprobeCurrent,
            ),
            (UploadsPhase::ReprobeCurrent, UploadsAnswer::Is(yes)) => if yes {
                self.settle(UploadsDir::Current)
            } else {
                self.at(UploadsPhase::ReprobeLegacy)
            },
            (UploadsPhase::ReprobeLegacy, UploadsAnswer::Is(yes)) => if yes {
                self.settle(UploadsDir::Legacy)
            } else {
                self.at(UploadsPhase::Create)
            },
            (UploadsPhase::Create, UploadsAnswer::Carried) => self.at(UploadsPhase::CheckCreated),
            (UploadsPhase::CheckCreated, UploadsAnswer::Is(yes)) => if yes {
                self.settle(UploadsDir::Current)
            } else {
                self.fail(UploadsError::NotReal)
            },
            (UploadsPhase::ExamineCurrent, UploadsAnswer::Examined(x)) => match x {
                Examined::Missing => self.examined_current(),
                Examined::NotADirectory => self.fail(UploadsError::NotReal),
                Examined::At(path) => if lies_under(path@, base) {
                    (UploadsSearch { current: Some(path), ..self }).examined_current()
                } else {
                    self.fail(UploadsError::Escapes)
                },
            },
            (UploadsPhase::ExamineLegacy, UploadsAnswer::Examined(x)) => match x {
                Examined::Missing => self.examined_both(),
                Examined::NotADirectory => self.fail(UploadsError::NotReal),
                Examined::At(path) => if lies_under(path@, base) {
                    (UploadsSearch { legacy: Some(path), ..self }).examined_both()
                } else {
                    self.fail(UploadsError::Escapes)
                },
            },
            (UploadsPhase::LateCurrent, UploadsAnswer::Examined(x)) => match x {
                Examined::Missing => self.at(UploadsPhase::LateLegacy),
                Examined::NotADirectory => self.fail(UploadsError::NotReal),
                Examined::At(path) => if lies_under(path@, base) {
                    (UploadsSearch { current: Some(path), ..self }).to_ignore()
                } else {
                    self.fail(UploadsError::Escapes)
                },
            },
            (UploadsPhase::LateLegacy, UploadsAnswer::Examined(x)) => match x {
                Examined::Missing => self.to_ignore(),
                Examined::NotADirectory => self.fail(UploadsError::NotReal),
                Examined::At(path) => if lies_under(path@, base) {
                    (UploadsSearch { legacy: Some(path), ..self }).to_ignore()
                } else {
                    self.fail(UploadsError::Escapes)
                },
            },
            (UploadsPhase::IgnoreCurrent, UploadsAnswer::Carried) => if self.legacy is Some {
                self.at(UploadsPhase::IgnoreLegacy)
            } else {
                self.conclude()
            },
            (UploadsPhase::IgnoreLegacy, UploadsAnswer::Carried) => self.conclude(),
            (UploadsPhase::Done(_), UploadsAnswer::Failed(_)) => self,
            (UploadsPhase::Lock, UploadsAnswer::Failed(_)) => self,
            (UploadsPhase::Rename, UploadsAnswer::Failed(_)) => self,
            (UploadsPhase::ReadAlong, UploadsAnswer::Failed(_)) => self,
            (_, UploadsAnswer::Failed(e)) => self.fail(UploadsError::Io(e)),
            _ => self,
        }
    }

    /// The start of a search.
    pub open spec fn first() -> UploadsSearch {
        UploadsSearch {
            phase: UploadsPhase::ProbeCurrent,
            uploads_exists: false,
            legacy_exists: false,
            resolved: UploadsDir::Current,
            current: None,
            legacy: None,
        }
    }

    pub fn start() -> (s: UploadsSearch)
        ensures
            s == UploadsSearch::first(),
    {
        UploadsSearch {
            phase: UploadsPhase::ProbeCurrent,
            uploads_exists: false,
            legacy_exists: false,
            resolved: UploadsDir::Current,
            current: None,
            legacy: None,
        }
    }

    fn put(self, phase: UploadsPhase) -> (s: UploadsSearch)
        ensures
            s == self.at(phase),
    {
        let mut s = self;
        s.phase = phase;
        s
    }

    fn do_fail(self, e: UploadsError) -> (s: UploadsSearch)
        ensures
            s == self.fail(e),
    {
        self.put(UploadsPhase::Done(Err(e)))
    }

    fn do_settle(self, resolved: UploadsDir) -> (s: UploadsSearch)
        ensures
            s == self.settle(resolved),
    {
        let mut s = self;
        s.resolved = resolved;
        if s.uploads_exists || resolved == UploadsDir::Current {
            s.put(UploadsPhase::ExamineCurrent)
        } else {
            s.put(UploadsPhase::ExamineLegacy)
        }
    }

    fn do_examined_current(self) -> (s: UploadsSearch)
        ensures
            s == self.examined_current(),
    {
        if self.legacy_exists || self.resolved == UploadsDir::Legacy {
            self.put(UploadsPhase::ExamineLegacy)
        } else {
            self.do_examined_both()
        }
    }

    fn do_examined_both(self) -> (s: UploadsSearch)
        ensures
            s == self.examined_both(),
    {
        if self.current.is_none() && self.legacy.is_none() {
            self.put(UploadsPhase::LateCurrent)
        } else {
            self.do_to_ignore()
        }
    }

    fn do_to_ignore(self) -> (s: UploadsSearch)
        ensures
            s == self.to_ignore(),
    {
        if self.current.is_some() {
            self.put(UploadsPhase::IgnoreCurrent)
        } else if self.legacy.is_some() {
            self.put(UploadsPhase::IgnoreLegacy)
        } else {
            self.do_conclude()
        }
    }

    fn do_conclude(self) -> (s: UploadsSearch)
        ensures
            s == self.conclude(),
    {
        let (first, second) = match self.resolved {
            UploadsDir::Current => (clone_opt(&self.current), clone_opt(&self.legacy)),
            UploadsDir::Legacy => (clone_opt(&self.legacy), clone_opt(&self.current)),
        };
        let resolved = self.resolved;
        match (first, second) {
            (Some(path), _) => self.put(UploadsPhase::Done(Ok(path))),
            (None, Some(path)) => self.put(UploadsPhase::Done(Ok(path))),
            (None, None) => self.do_fail(UploadsError::Vanished(resolved)),
        }
    }

    fn take_examined(self, base: &str, x: Examined) -> (s: UploadsSearch)
        requires
            self.phase is ExamineCurrent || self.phase is ExamineLegacy || self.phase is LateCurrent
                || self.phase is LateLegacy,
        ensures
            s == self.after(base@, UploadsAnswer::Examined(x)),
    {
        let path = match x {
            Examined::NotADirectory => return self.do_fail(UploadsError::NotReal),
            Examined::At(path) => {
                if !is_under(path.as_str(), base) {
                    return self.do_fail(UploadsError::Escapes);
                }
                Some(path)
            },
            Examined::Missing => None,
        };
        let mut s = self;
        match s.phase {
            UploadsPhase::ExamineCurrent => {
                if path.is_some() {
                    s.current = path;
                }
                s.do_examined_current()
            },
            UploadsPhase::ExamineLegacy => {
                if path.is_some() {
                    s.legacy = path;
                }
                s.do_examined_both()
            },
            UploadsPhase::LateCurrent => {
                if path.is_some() {
                    s.current = path;
                    s.do_to_ignore()
                } else {
                    s.put(UploadsPhase::LateLegacy)
                }
            },
            _ => {
                if path.is_some() {
                    s.legacy = path;
                }
                s.do_to_ignore()
            },
        }
    }

    fn take_yes(self, yes: bool) -> (s: UploadsSearch)
        ensures
            forall|base: Seq<char>| s == #[trigger] self.after(base, UploadsAnswer::Is(yes)),
    {
        let mut s = self;
        match s.phase {
            UploadsPhase::ProbeCurrent => {
                s.uploads_exists = yes;
                s.put(UploadsPhase::ProbeLegacy)
            },
            UploadsPhase::ProbeLegacy => {
                s.legacy_exists = yes;
                s.put(UploadsPhase::ProbeLink)
            },
            UploadsPhase::ProbeLink => {
                if yes {
                    s.do_fail(UploadsError::NotReal)
                } else if s.uploads_exists {
                    s.do_settle(UploadsDir::Current)
                } else if s.legacy_exists {
                    s.put(UploadsPhase::Lock)
                } else {
                    s.put(UploadsPhase::Create)
                }
            },
            UploadsPhase::Lock => {
                if yes {
                    s.put(UploadsPhase::Rename)
                } else {
                    s.put(UploadsPhase::ReadAlong)
                }
            },
            UploadsPhase::Rename => {
                if yes {
                    s.do_settle(UploadsDir::Current)
                } else {
                    s.put(UploadsPhase::ReprobeCurrent)
                }
            },
            UploadsPhase::ReprobeCurrent => {
                if yes {
                    s.do_settle(UploadsDir::Current)
                } else {
                    s.put(UploadsPhase::ReprobeLegacy)
                }
            },
            UploadsPhase::ReprobeLegacy => {
                if yes {
                    s.do_settle(UploadsDir::Legacy)
                } else {
                    s.put(UploadsPhase::Create)
                }
            },
            UploadsPhase::CheckCreated => {
                if yes {
                    s.do_settle(UploadsDir::Current)
                } else {
                    s.do_fail(UploadsError::NotReal)
                }
            },
            _ => s,
        }
    }

    /// Takes what came of the step that the phase stands for.
    pub fn step(self, base: &str, answer: UploadsAnswer) -> (s: UploadsSearch)
        ensures
            s == self.after(base@, answer),
    {
        match answer {
            UploadsAnswer::Is(yes) => self.take_yes(yes),
            UploadsAnswer::Examined(x) => match self.phase {
                UploadsPhase::ExamineCurrent => self.take_examined(base, x),
                UploadsPhase::ExamineLegacy => self.take_examined(base, x),
                UploadsPhase::LateCurrent => self.take_examined(base, x),
                UploadsPhase::LateLegacy => self.take_examined(base, x),
                _ => self,
            },
            UploadsAnswer::Carried => match self.phase {
                UploadsPhase::ReadAlong => self.put(UploadsPhase::ReprobeCurrent),
                UploadsPhase::Create => self.put(UploadsPhase::CheckCreated),
                UploadsPhase::IgnoreCurrent => {
                    if self.legacy.is_some() {
                        self.put(UploadsPhase::IgnoreLegacy)
                    } else {
                        self.do_conclude()
                    }
                },
                UploadsPhase::IgnoreLegacy => self.do_conclude(),
                _ => self,
            },
            UploadsAnswer::Failed(e) => match self.phase {
                UploadsPhase::Done(_) => self,
                UploadsPhase::Lock => self,
                UploadsPhase::Rename => self,
                UploadsPhase::ReadAlong => self,
                _ => self.do_fail(UploadsError::Io(e)),
            },
        }
    }

    /// Every directory that was found lies in the workspace, and a search that
    /// succeeded gives one of them.
    pub open spec fn contained(self, base: Seq<char>) -> bool {
        &&& self.current is Some ==> lies_under(self.current->0@, base)
        &&& self.legacy is Some ==> lies_under(self.legacy->0@, base)
        &&& self.phase matches UploadsPhase::Done(r) ==> r is Ok ==> lies_under(r->Ok_0@, base)
            && (self.current == Some(r->Ok_0) || self.legacy == Some(r->Ok_0))
    }
}

/// The directory that uploads go to never lies outside the workspace, whatever
/// links lead where.
pub proof fn law_uploads_stay_in_workspace(
    s: UploadsSearch,
    base: Seq<char>,
    answer: UploadsAnswer,
)
    requires
        s.contained(base),
    ensures
        UploadsSearch::first().contained(base),
        s.after(base, answer).contained(base),
{
}

/// A link under the current name is never followed, and never worked around.
pub proof fn law_link_is_refused(s: UploadsSearch, base: Seq<char>)
    requires
        s.phase is ProbeLink,
    ensures
        s.after(base, UploadsAnswer::Is(true)).phase == UploadsPhase::Done(
            Err(UploadsError::NotReal),
        ),
{
}

/// The old directory is only renamed where it is the only one and nobody else
/// is at work in the workspace.
pub proof fn law_rename_needs_lock(s: UploadsSearch, base: Seq<char>, answer: UploadsAnswer)
    requires
        !(s.phase is Rename),
        s.after(base, answer).phase is Rename,
    ensures
        s.phase is Lock,
        answer == UploadsAnswer::Is(true),
{
}

/// A search that succeeds has seen to it that git ignores the directory it
/// gives.
pub proof fn law_result_is_ignored(s: UploadsSearch, base: Seq<char>, answer: UploadsAnswer)
    requires
        !(s.phase is Done),
        s.after(base, answer).phase matches UploadsPhase::Done(r) && r is Ok,
    ensures
        (s.phase is IgnoreCurrent && s.current is Some && s.legacy is None) || s.phase is IgnoreLegacy,
        answer is Carried,
{
}

/// How far it is seen to that git ignores a directory.
#[derive(Debug)]
pub enum IgnoreState {
    /// What is under the name of the ignore file?
    Inspect,
    /// Something else: it is moved aside, never deleted.
    MoveAside,
    /// Nothing: the file is created, but never over another one.
    CreateNew,
    /// The file is new: its contents are written.
    Write,
    /// That failed: the incomplete file goes away.
    Remove { error: String },
    Done(Result<(), String>),
}

/// What came of a step.
#[derive(Debug)]
pub enum IgnoreAnswer {
    /// A regular file is there.
    Regular,
    /// Something else is there.
    Other,
    Missing,
    /// The step was carried out.
    Carried,
    /// Something was there already.
    AlreadyExists,
    Failed(String),
}

impl IgnoreState {
    /// The state after a step. An answer to another question than the one that
    /// was asked changes nothing.
    pub open spec fn after(self, answer: IgnoreAnswer) -> IgnoreState {
        match (self, answer) {
            (IgnoreState::Inspect, IgnoreAnswer::Regular) => IgnoreState::Done(Ok(())),
            (IgnoreState::Inspect, IgnoreAnswer::Other) => IgnoreState::MoveAside,
            (IgnoreState::Inspect, IgnoreAnswer::Missing) => IgnoreState::CreateNew,
            (IgnoreState::MoveAside, IgnoreAnswer::Carried) => IgnoreState::Inspect,
            (IgnoreState::CreateNew, IgnoreAnswer::Carried) => IgnoreState::Write,
            (IgnoreState::CreateNew, IgnoreAnswer::AlreadyExists) => IgnoreState::Inspect,
            (IgnoreState::Write, IgnoreAnswer::Carried) => IgnoreState::Done(Ok(())),
            (IgnoreState::Write, IgnoreAnswer::Failed(e)) => IgnoreState::Remove { error: e },
            (IgnoreState::Remove { error }, IgnoreAnswer::Carried) => IgnoreState::Done(Err(error)),
            (IgnoreState::Remove { error }, IgnoreAnswer::Failed(_)) => IgnoreState::Done(
                Err(error),
            ),
            (IgnoreState::Done(_), _) => self,
            (_, IgnoreAnswer::Failed(e)) => IgnoreState::Done(Err(e)),
            _ => self,
        }
    }

    pub fn start() -> (s: IgnoreState)
        ensures
            s == IgnoreState::Inspect,
    {
        IgnoreState::Inspect
    }

    /// Takes what came of the step that the state stands for.
    pub fn step(self, answer: IgnoreAnswer) -> (next: IgnoreState)
        ensures
            next == self.after(answer),
    {
        match (self, answer) {
            (IgnoreState::Inspect, IgnoreAnswer::Regular) => IgnoreState::Done(Ok(())),
            (IgnoreState::Inspect, IgnoreAnswer::Other) => IgnoreState::MoveAside,
            (IgnoreState::Inspect, IgnoreAnswer::Missing) => IgnoreState::CreateNew,
            (IgnoreState::MoveAside, IgnoreAnswer::Carried) => IgnoreState::Inspect,
            (IgnoreState::CreateNew, IgnoreAnswer::Carried) => IgnoreState::Write,
            (IgnoreState::CreateNew, IgnoreAnswer::AlreadyExists) => IgnoreState::Inspect,
            (IgnoreState::Write, IgnoreAnswer::Carried) => IgnoreState::Done(Ok(())),
            (IgnoreState::Write, IgnoreAnswer::Failed(e)) => IgnoreState::Remove { error: e },
            (IgnoreState::Remove { error }, IgnoreAnswer::Carried) => IgnoreState::Done(Err(error)),
            (IgnoreState::Remove { error }, IgnoreAnswer::Failed(_)) => IgnoreState::Done(
                Err(error),
            ),
            (IgnoreState::Done(r), _) => IgnoreState::Done(r),
            (_, IgnoreAnswer::Failed(e)) => IgnoreState::Done(Err(e)),
            (same, _) => same,
        }
    }
}

/// A file that is there already is never written to: only one that was just
/// created is, and a regular one is left as it is.
pub proof fn law_ignore_file_is_kept(s: IgnoreState, answer: IgnoreAnswer)
    ensures
        !(s is Write) && s.after(answer) is Write ==> s is CreateNew && answer is Carried,
        s is Inspect && answer is Regular ==> s.after(answer) == IgnoreState::Done(Ok(())),
{
}

/// The name that something else is moved aside to; `id` makes it unique.
pub fn ignore_backup_name(id: &str) -> (name: String)
    ensures
        name@ == ".gitignore.bak."@ + id@,
{
    concat2(".gitignore.bak.", id)
}

/// The contents of a new ignore file.
pub fn ignore_contents() -> (c: String)
    ensures
        c@ == "*\n"@,
{
    "*\n".to_owned()
}

/// How a file operation failed, with the system's wording.
#[derive(Debug)]
pub enum FileFailure {
    NotFound(String),
    AlreadyExists(String),
    Other(String),
}

/// What a failed publication is answered with.
pub open spec fn publish_failure(f: FileFailure, name: Seq<char>, overwrite: bool, e: ApiError) -> bool {
    if !overwrite && f is AlreadyExists {
        conflict(e, "File '"@ + name + "' already exists"@)
    } else {
        e == ApiError::Io(
            match f {
                FileFailure::NotFound(m) => m,
                FileFailure::AlreadyExists(m) => m,
                FileFailure::Other(m) => m,
            },
        )
    }
}

/// What a failed publication is answered with.
pub fn map_upload_publish_error(f: FileFailure, name: &str, overwrite: bool) -> (e: ApiError)
    ensures
        publish_failure(f, name@, overwrite, e),
{
    match f {
        FileFailure::AlreadyExists(m) => {
            if overwrite {
                ApiError::Io(m)
            } else {
                ApiError::Conflict(concat3("File '", name, "' already exists"))
            }
        },
        FileFailure::NotFound(m) => ApiError::Io(m),
        FileFailure::Other(m) => ApiError::Io(m),
    }
}

/// How far the publication of a streamed file has come. The file has its
/// temporary name until then.
#[derive(Debug)]
pub enum PublishState {
    /// Give the file its final name in the directory it was streamed to.
    Publish,
    /// Did that directory go away?
    CheckTarget { failure: FileFailure },
    /// It did: find the default directory again.
    Resolve,
    /// Give the file its final name there.
    Republish { dir: String },
    /// Remove the temporary file where it was streamed to.
    CleanFirst { outcome: Result<String, FileFailure> },
    /// Remove it there and in the directory that was found again.
    CleanBoth { dir: String, outcome: Result<String, FileFailure> },
    /// Remove it wherever the default directory can have been moved.
    CleanEverywhere { error: UploadsError },
    /// The directory that holds the file, or the failure.
    Done(Result<String, PublishError>),
}

/// Why a file was not published.
#[derive(Debug)]
pub enum PublishError {
    File(FileFailure),
    Directory(UploadsError),
}

impl PublishError {
    /// What the request is answered with.
    pub fn into_api_error(self, name: &str, overwrite: bool) -> (e: ApiError)
        ensures
            match self {
                PublishError::File(f) => publish_failure(f, name@, overwrite, e),
                PublishError::Directory(d) => directory_failure(d, e),
            },
    {
        match self {
            PublishError::File(f) => map_upload_publish_error(f, name, overwrite),
            PublishError::Directory(d) => d.into_api_error(),
        }
    }
}

/// What came of a step.
#[derive(Debug)]
pub enum PublishAnswer {
    Published(Result<(), FileFailure>),
    /// Whether the directory is gone.
    TargetMissing(bool),
    Resolved(Result<String, UploadsError>),
    /// Cleaning up is best effort: whatever came of it, it is over.
    Cleaned,
}

impl PublishState {
    /// The state after a step. An answer to another question than the one that
    /// was asked changes nothing.
    pub open spec fn after(
        self,
        target: String,
        default_dir: bool,
        answer: PublishAnswer,
    ) -> PublishState {
        match (self, answer) {
            (PublishState::Publish, PublishAnswer::Published(Ok(_))) => PublishState::CleanFirst {
                outcome: Ok(target),
            },
            (PublishState::Publish, PublishAnswer::Published(Err(f))) => if default_dir
                && f is NotFound {
                PublishState::CheckTarget { failure: f }
            } else {
                PublishState::CleanFirst { outcome: Err(f) }
            },
            (
                PublishState::CheckTarget { failure },
                PublishAnswer::TargetMissing(gone),
            ) => if gone {
                PublishState::Resolve
            } else {
                PublishState::CleanFirst { outcome: Err(failure) }
            },
            (PublishState::Resolve, PublishAnswer::Resolved(Ok(dir))) => PublishState::Republish {
                dir,
            },
            (
                PublishState::Resolve,
                PublishAnswer::Resolved(Err(e)),
            ) => PublishState::CleanEverywhere { error: e },
            (
                PublishState::Republish { dir },
                PublishAnswer::Published(r),
            ) => PublishState::CleanBoth {
                dir,
                outcome: match r {
                    Ok(_) => Ok(dir),
                    Err(f) => Err(f),
                },
            },
            (PublishState::CleanFirst { outcome }, PublishAnswer::Cleaned) => PublishState::Done(
                match outcome {
                    Ok(dir) => Ok(dir),
                    Err(f) => Err(PublishError::File(f)),
                },
            ),
            (
                PublishState::CleanBoth { outcome, .. },
                PublishAnswer::Cleaned,
            ) => PublishState::Done(
                match outcome {
                    Ok(dir) => Ok(dir),
                    Err(f) => Err(PublishError::File(f)),
                },
            ),
            (
                PublishState::CleanEverywhere { error },
                PublishAnswer::Cleaned,
            ) => PublishState::Done(Err(PublishError::Directory(error))),
            _ => self,
        }
    }

    pub fn start() -> (s: PublishState)
        ensures
            s == PublishState::Publish,
    {
        PublishState::Publish
    }

    fn finish(outcome: Result<String, FileFailure>) -> (s: PublishState)
        ensures
            s == PublishState::Done(
                match outcome {
                    Ok(dir) => Ok(dir),
                    Err(f) => Err(PublishError::File(f)),
                },
            ),
    {
        match outcome {
            Ok(dir) => PublishState::Done(Ok(dir)),
            Err(f) => PublishState::Done(Err(PublishError::File(f))),
        }
    }

    /// Takes what came of the step that the state stands for. `target` is the
    /// directory that the file was streamed to, and `default_dir` says whether it
    /// is the default one: only then is it looked for again.
    pub fn step(self, target: &String, default_dir: bool, answer: PublishAnswer) -> (next:
        PublishState)
        ensures
            next == self.after(*target, default_dir, answer),
    {
        match (self, answer) {
            (PublishState::Publish, PublishAnswer::Published(r)) => match r {
                Ok(_) => PublishState::CleanFirst { outcome: Ok(target.clone()) },
                Err(f) => {
                    let missing = match &f {
                        FileFailure::NotFound(_) => true,
                        _ => false,
                    };
                    if default_dir && missing {
                        PublishState::CheckTarget { failure: f }
                    } else {
                        PublishState::CleanFirst { outcome: Err(f) }
                    }
                },
            },
            (PublishState::CheckTarget { failure }, PublishAnswer::TargetMissing(gone)) => {
                if gone {
                    PublishState::Resolve
                } else {
                    PublishState::CleanFirst { outcome: Err(failure) }
                }
            },
            (PublishState::Resolve, PublishAnswer::Resolved(r)) => match r {
                Ok(dir) => PublishState::Republish { dir },
                Err(e) => PublishState::CleanEverywhere { error: e },
            },
            (PublishState::Republish { dir }, PublishAnswer::Published(r)) => match r {
                Ok(_) => {
                    let out = dir.clone();
                    PublishState::CleanBoth { dir, outcome: Ok(out) }
                },
                Err(f) => PublishState::CleanBoth { dir, outcome: Err(f) },
            },
            (PublishState::CleanFirst { outcome }, PublishAnswer::Cleaned) => PublishState::finish(
                outcome,
            ),
            (PublishState::CleanBoth { outcome, .. }, PublishAnswer::Cleaned) => {
                PublishState::finish(outcome)
            },
            (PublishState::CleanEverywhere { error }, PublishAnswer::Cleaned) => PublishState::Done(
                Err(PublishError::Directory(error)),
            ),
            (same, _) => same,
        }
    }
}

/// A publication is only over once the temporary file was cleaned up, whatever
/// came of it.
pub proof fn law_publish_cleans_up(
    s: PublishState,
    target: String,
    default_dir: bool,
    answer: PublishAnswer,
)
    requires
        !(s is Done),
        s.after(target, default_dir, answer) is Done,
    ensures
        s is CleanFirst || s is CleanBoth || s is CleanEverywhere,
        answer is Cleaned,
{
}

/// A file is tried again at most once, and only in the default directory.
pub proof fn law_one_retry(
    s: PublishState,
    target: String,
    default_dir: bool,
    answer: PublishAnswer,
)
    ensures
        !(s is Publish) ==> !(s.after(target, default_dir, answer) is Publish),
        !(s is Republish) && s.after(target, default_dir, answer) is Republish ==> s is Resolve,
        !(s is CheckTarget) && s.after(target, default_dir, answer) is CheckTarget ==> default_dir,
{
}

/// What the search for the upload directory meets outside: whether there is a real
/// directory under either name or a link, whether the workspace could be had alone,
/// whether the rename went through, what a second look found, whether what was
/// created is a real directory, and what a close look at each directory finds, at
/// first and once more.
pub ghost struct UploadsWorld {
    pub current: bool,
    pub legacy: bool,
    pub link: bool,
    pub alone: bool,
    pub renamed: bool,
    pub current_again: bool,
    pub legacy_again: bool,
    pub created: bool,
    pub seen_current: Examined,
    pub seen_legacy: Examined,
    pub late_current: Examined,
    pub late_legacy: Examined,
}

impl UploadsWorld {
    /// What is answered in a phase.
    pub open spec fn answer(self, phase: UploadsPhase) -> UploadsAnswer {
        match phase {
            UploadsPhase::ProbeCurrent => UploadsAnswer::Is(self.current),
            UploadsPhase::ProbeLegacy => UploadsAnswer::Is(self.legacy),
            UploadsPhase::ProbeLink => UploadsAnswer::Is(self.link),
            UploadsPhase::Lock => UploadsAnswer::Is(self.alone),
            UploadsPhase::Rename => UploadsAnswer::Is(self.renamed),
            UploadsPhase::ReprobeCurrent => UploadsAnswer::Is(self.current_again),
            UploadsPhase::ReprobeLegacy => UploadsAnswer::Is(self.legacy_again),
            UploadsPhase::CheckCreated => UploadsAnswer::Is(self.created),
            UploadsPhase::ExamineCurrent => UploadsAnswer::Examined(self.seen_current),
            UploadsPhase::ExamineLegacy => UploadsAnswer::Examined(self.seen_legacy),
            UploadsPhase::LateCurrent => UploadsAnswer::Examined(self.late_current),
            UploadsPhase::LateLegacy => UploadsAnswer::Examined(self.late_legacy),
            _ => UploadsAnswer::Carried,
        }
    }

    /// Where the search comes to in `fuel` steps.
    pub open spec fn serve(self, base: Seq<char>, s: UploadsSearch, fuel: nat) -> UploadsSearch
        decreases fuel,
    {
        if fuel == 0 || s.phase is Done {
            s
        } else {
            self.serve(base, s.after(base, self.answer(s.phase)), (fuel - 1) as nat)
        }
    }

    /// What comes of the search.
    pub open spec fn outcome(self, base: Seq<char>) -> UploadsPhase {
        self.serve(base, UploadsSearch::first(), 16).phase
    }

    /// Whether there is no directory under the current name at first or later, and
    /// what there was under the old one is not there any more.
    pub open spec fn nothing_there(self) -> bool {
        !self.current && (!self.legacy || !(self.alone && self.renamed) && !self.current_again
            && !self.legacy_again)
    }

    /// Whether the old directory has the current name now.
    pub open spec fn takes_current_name(self) -> bool {
        !self.current && self.legacy && (self.alone && self.renamed || self.current_again)
    }

    /// Whether the old directory has to be used under its old name.
    pub open spec fn keeps_old_name(self) -> bool {
        !self.current && self.legacy && !(self.alone && self.renamed) && !self.current_again
            && self.legacy_again
    }
}

/// A link under the current name is refused before anything else is looked at.
pub proof fn law_link_ends_the_search(w: UploadsWorld, base: Seq<char>)
    requires
        w.link,
    ensures
        w.outcome(base) == UploadsPhase::Done(Err(UploadsError::NotReal)),
{
    reveal_with_fuel(UploadsWorld::serve, 17);
}

/// Whether a directory under the current name is the one that uploads go to where
/// it lies in the workspace, and the old one only where that went away.
pub open spec fn used_as_current(w: UploadsWorld, base: Seq<char>, end: UploadsPhase) -> bool {
    &&& w.seen_current matches Examined::At(path) ==> if lies_under(path@, base) {
        end == UploadsPhase::Done(Ok(path))
    } else {
        end == UploadsPhase::Done(Err(UploadsError::Escapes))
    }
    &&& w.seen_current is NotADirectory ==> end == UploadsPhase::Done(
        Err(UploadsError::NotReal),
    )
    &&& w.seen_current is Missing && w.legacy ==> (w.seen_legacy matches Examined::At(path)
        ==> end == UploadsPhase::Done(Ok(path)))
    &&& w.seen_current is Missing && !(w.legacy && w.seen_legacy is At) ==> {
        &&& w.late_current matches Examined::At(path) ==> lies_under(path@, base) ==> end == UploadsPhase::Done(Ok(path))
        &&& w.late_current is Missing && w.late_legacy is Missing ==> end
            == UploadsPhase::Done(Err(UploadsError::Vanished(UploadsDir::Current)))
    }
}

/// Whether nothing is wrong with the old directory, where there is one.
pub open spec fn old_is_sound(w: UploadsWorld, base: Seq<char>) -> bool {
    w.legacy ==> match w.seen_legacy {
        Examined::Missing => true,
        Examined::NotADirectory => false,
        Examined::At(path) => lies_under(path@, base),
    }
}

/// What the first three steps come to.
proof fn lemma_probed(w: UploadsWorld, base: Seq<char>) -> (s: UploadsSearch)
    requires
        !w.link,
    ensures
        s == (UploadsSearch {
            phase: UploadsPhase::ProbeLink,
            uploads_exists: w.current,
            legacy_exists: w.legacy,
            resolved: UploadsDir::Current,
            current: None,
            legacy: None,
        }),
        w.outcome(base) == w.serve(
            base,
            if w.current {
                s.settle(UploadsDir::Current)
            } else if w.legacy {
                s.at(UploadsPhase::Lock)
            } else {
                s.at(UploadsPhase::Create)
            },
            13,
        ).phase,
{
    reveal_with_fuel(UploadsWorld::serve, 4);
    UploadsSearch {
        phase: UploadsPhase::ProbeLink,
        uploads_exists: w.current,
        legacy_exists: w.legacy,
        resolved: UploadsDir::Current,
        current: None,
        legacy: None,
    }
}

proof fn lemma_from_examine(w: UploadsWorld, base: Seq<char>, s: UploadsSearch, fuel: nat)
    requires
        s.phase is ExamineCurrent,
        s.resolved is Current,
        s.current is None,
        s.legacy is None,
        s.legacy_exists == w.legacy,
        fuel >= 7,
        old_is_sound(w, base),
    ensures
        used_as_current(w, base, w.serve(base, s, fuel).phase),
{
    reveal_with_fuel(UploadsWorld::serve, 8);
}

/// A directory that is there under the current name is the one that uploads go to,
/// where it lies in the workspace.
pub proof fn law_current_directory_is_used(w: UploadsWorld, base: Seq<char>)
    requires
        !w.link,
        w.current,
        old_is_sound(w, base),
    ensures
        used_as_current(w, base, w.outcome(base)),
{
    let s = lemma_probed(w, base);
    lemma_from_examine(w, base, s.settle(UploadsDir::Current), 13);
}

/// An old directory that takes the current name is used as one that had it.
pub proof fn law_renamed_directory_is_used(w: UploadsWorld, base: Seq<char>)
    requires
        !w.link,
        w.takes_current_name(),
        old_is_sound(w, base),
    ensures
        used_as_current(w, base, w.outcome(base)),
{
    let s = lemma_probed(w, base);
    let settled = s.settle(UploadsDir::Current);
    let fuel: nat = if w.alone && w.renamed {
        11
    } else {
        10
    };
    assert(w.serve(base, s.at(UploadsPhase::Lock), 13) == w.serve(base, settled, fuel)) by {
        reveal_with_fuel(UploadsWorld::serve, 4);
    }
    lemma_from_examine(w, base, settled, fuel);
}

/// Where there is no directory, one is created under the current name and used.
pub proof fn law_created_directory_is_used(w: UploadsWorld, base: Seq<char>)
    requires
        !w.link,
        w.nothing_there(),
        w.created,
        old_is_sound(w, base),
    ensures
        used_as_current(w, base, w.outcome(base)),
{
    let s = lemma_probed(w, base);
    let settled = s.settle(UploadsDir::Current);
    let fuel: nat = if w.legacy {
        7
    } else {
        11
    };
    if w.legacy {
        assert(w.serve(base, s.at(UploadsPhase::Lock), 13) == w.serve(
            base,
            s.at(UploadsPhase::Create),
            9,
        )) by {
            reveal_with_fuel(UploadsWorld::serve, 5);
        }
        assert(w.serve(base, s.at(UploadsPhase::Create), 9) == w.serve(base, settled, fuel)) by {
            reveal_with_fuel(UploadsWorld::serve, 3);
        }
    } else {
        assert(w.serve(base, s.at(UploadsPhase::Create), 13) == w.serve(base, settled, fuel)) by {
            reveal_with_fuel(UploadsWorld::serve, 3);
        }
    }
    lemma_from_examine(w, base, settled, fuel);
}

/// What could not be created as a real directory is refused.
pub proof fn law_created_directory_is_real(w: UploadsWorld, base: Seq<char>)
    requires
        !w.link,
        w.nothing_there(),
        !w.created,
    ensures
        w.outcome(base) == UploadsPhase::Done(Err(UploadsError::NotReal)),
{
    reveal_with_fuel(UploadsWorld::serve, 17);
}

/// Where the old directory cannot be renamed, uploads go there under its old name,
/// if it lies in the workspace.
pub proof fn law_old_directory_is_used_where_it_stays(w: UploadsWorld, base: Seq<char>)
    requires
        !w.link,
        w.keeps_old_name(),
    ensures
        w.seen_legacy matches Examined::At(path) ==> lies_under(path@, base) ==> w.outcome(base)
            == UploadsPhase::Done(Ok(path)),
        w.seen_legacy matches Examined::At(path) ==> !lies_under(path@, base) ==> w.outcome(base)
            == UploadsPhase::Done(Err(UploadsError::Escapes)),
        w.seen_legacy is NotADirectory ==> w.outcome(base) == UploadsPhase::Done(
            Err(UploadsError::NotReal),
        ),
        w.seen_legacy is Missing && w.late_current is Missing && w.late_legacy is Missing
            ==> w.outcome(base) == UploadsPhase::Done(
            Err(UploadsError::Vanished(UploadsDir::Legacy)),
        ),
{
    reveal_with_fuel(UploadsWorld::serve, 17);
}

/// Git is made to ignore each directory that was found, the current one first, and
/// a step that fails ends the search with its wording.
pub proof fn law_every_found_directory_is_ignored(
    s: UploadsSearch,
    base: Seq<char>,
    answer: UploadsAnswer,
)
    requires
        !(s.phase is Done),
    ensures
        ({
            let next = s.after(base, answer);
            &&& next.phase matches UploadsPhase::Done(Ok(path)) ==> {
                &&& s.phase is IgnoreCurrent || s.phase is IgnoreLegacy
                &&& s.phase is IgnoreCurrent ==> s.legacy is None
                &&& Some(path) == s.current || Some(path) == s.legacy
            }
            &&& next.phase is IgnoreLegacy && !(s.phase is IgnoreLegacy) ==> next.legacy is Some && (
            s.phase is IgnoreCurrent || next.current is None)
            &&& next.phase is IgnoreCurrent && !(s.phase is IgnoreCurrent) ==> next.current is Some
            &&& answer matches UploadsAnswer::Failed(e) ==> (if s.phase is Lock || s.phase is Rename
                || s.phase is ReadAlong {
                next == s
            } else {
                next.phase == UploadsPhase::Done(Err(UploadsError::Io(e)))
            })
        }),
{
}

/// An ignore file that is there stays. A missing one is created and written; where
/// that fails it is removed again, and the failure told, whatever comes of the
/// removal. Whatever else is there is moved aside, and looked for again, as it is
/// where somebody else was faster.
pub proof fn law_ignore_file_is_written_once(e: String, other: String)
    ensures
        ({
            let start = IgnoreState::Inspect;
            let missing = start.after(IgnoreAnswer::Missing);
            let created = missing.after(IgnoreAnswer::Carried);
            let unwritten = created.after(IgnoreAnswer::Failed(e));
            let odd = start.after(IgnoreAnswer::Other);
            &&& start.after(IgnoreAnswer::Regular) == IgnoreState::Done(Ok(()))
            &&& start.after(IgnoreAnswer::Failed(e)) == IgnoreState::Done(Err(e))
            &&& missing == IgnoreState::CreateNew
            &&& missing.after(IgnoreAnswer::AlreadyExists) == start
            &&& missing.after(IgnoreAnswer::Failed(e)) == IgnoreState::Done(Err(e))
            &&& created == IgnoreState::Write
            &&& created.after(IgnoreAnswer::Carried) == IgnoreState::Done(Ok(()))
            &&& unwritten is Remove
            &&& unwritten.after(IgnoreAnswer::Carried) == IgnoreState::Done(Err(e))
            &&& unwritten.after(IgnoreAnswer::Failed(other)) == IgnoreState::Done(Err(e))
            &&& odd == IgnoreState::MoveAside
            &&& odd.after(IgnoreAnswer::Carried) == start
            &&& odd.after(IgnoreAnswer::Failed(e)) == IgnoreState::Done(Err(e))
        }),
{
}

/// A published file is in the directory that it was streamed to. Where that is the
/// default one and went away meanwhile, it is found again, and the file is published
/// there; every other failure is the outcome.
pub proof fn law_file_is_published_where_it_was_streamed(
    target: String,
    default_dir: bool,
    f: FileFailure,
    g: FileFailure,
    dir: String,
    lost: UploadsError,
)
    ensures
        ({
            let start = PublishState::Publish;
            let done = PublishAnswer::Cleaned;
            let failed = start.after(target, default_dir, PublishAnswer::Published(Err(f)));
            let gone = failed.after(target, default_dir, PublishAnswer::TargetMissing(true));
            let again = gone.after(target, default_dir, PublishAnswer::Resolved(Ok(dir)));
            let error = PublishState::Done(Err(PublishError::File(f)));
            &&& start.after(target, default_dir, PublishAnswer::Published(Ok(()))).after(
                target,
                default_dir,
                done,
            ) == PublishState::Done(Ok(target))
            &&& !(default_dir && f is NotFound) ==> failed.after(target, default_dir, done) == error
            &&& default_dir && f is NotFound ==> {
                &&& failed.after(target, default_dir, PublishAnswer::TargetMissing(false)).after(
                    target,
                    default_dir,
                    done,
                ) == error
                &&& gone.after(target, default_dir, PublishAnswer::Resolved(Err(lost))).after(
                    target,
                    default_dir,
                    done,
                ) == PublishState::Done(Err(PublishError::Directory(lost)))
                &&& again == (PublishState::Republish { dir })
                &&& again.after(target, default_dir, PublishAnswer::Published(Ok(()))).after(
                    target,
                    default_dir,
                    done,
                ) == PublishState::Done(Ok(dir))
                &&& again.after(target, default_dir, PublishAnswer::Published(Err(g))).after(
                    target,
                    default_dir,
                    done,
                ) == PublishState::Done(Err(PublishError::File(g)))
            }
        }),
{
}

/// A file that is there already is a conflict exactly where it may not be
/// replaced; every other failure is told in the system's words.
pub proof fn law_existing_file_is_a_conflict(
    f: FileFailure,
    name: Seq<char>,
    overwrite: bool,
    e: ApiError,
)
    requires
        publish_failure(f, name, overwrite, e),
    ensures
        e is Conflict <==> f is AlreadyExists && !overwrite,
        e is Conflict || e is Io,
        e matches ApiError::Io(m) ==> match f {
            FileFailure::NotFound(w) => m == w,
            FileFailure::AlreadyExists(w) => m == w,
            FileFailure::Other(w) => m == w,
        },
{
}

} // verus!
