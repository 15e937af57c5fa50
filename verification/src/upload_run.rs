//! One upload from its first field to its answer.

use vstd::prelude::*;

use crate::error::{ApiError, bad_request, conflict, forbidden};
use crate::file_policy::{MAX_UPLOAD_FILES, MAX_UPLOAD_FILE_BYTES, acceptable, denied};
use crate::files::{
    FileMeta, UploadMeter, UploadQuery, WorkspaceFileEntry, admit_upload, check_existing,
    finish_upload, named_target, upload_target, uploaded_entry,
};
use crate::path_text::final_name;
use crate::text::trimmed;

verus! {

/// What an upload does next.
#[derive(Debug)]
pub enum UploadPhase {
    /// Give the default directory a chance to be renamed before this request
    /// starts to read. Whatever comes of it, the upload goes on.
    PreResolve,
    /// Join the readers of the workspace's files.
    ReadLock,
    /// Find the directory that the files go to.
    Resolve,
    /// Take the next field.
    NextField,
    /// Is a file of this name there already?
    CheckExisting { name: String },
    /// Create the file that the upload is streamed to.
    OpenTemp { name: String },
    /// Take the next chunk.
    Receive { name: String, meter: UploadMeter },
    /// Write a chunk.
    Write { name: String, meter: UploadMeter },
    /// See to it that everything is written.
    Flush { name: String, meter: UploadMeter },
    /// Give the file its final name.
    Publish { name: String, meter: UploadMeter },
    /// Find out what the file looks like now.
    Describe { name: String, meter: UploadMeter },
    /// Remove what was written, and refuse the upload.
    Discard { error: ApiError },
    Done(Result<Vec<WorkspaceFileEntry>, ApiError>),
}

/// An upload.
#[derive(Debug)]
pub struct UploadRun {
    pub phase: UploadPhase,
    /// Whether files may be replaced.
    pub overwrite: bool,
    /// The directory that the files go to, once it is known.
    pub target_dir: String,
    pub uploaded: Vec<WorkspaceFileEntry>,
}

/// What came of a step.
#[derive(Debug)]
pub enum UploadAnswer {
    /// The step was carried out.
    Carried,
    Resolved(Result<String, ApiError>),
    /// A field with the file name that the client sent.
    File { raw_name: String },
    /// A field that is no file.
    OtherField,
    /// There is no more: no field, or no chunk of the present one.
    End,
    Exists(bool),
    Chunk { len: u64 },
    /// The directory that holds the file now.
    Published(Result<String, ApiError>),
    Described { path: Result<String, ApiError>, meta: Option<FileMeta> },
    Failed(ApiError),
}

impl UploadRun {
    /// The limits are kept.
    pub open spec fn valid(self) -> bool {
        &&& self.uploaded@.len() <= MAX_UPLOAD_FILES
        &&& match self.phase {
            UploadPhase::Receive { meter, .. } => meter.valid() && self.has_room(),
            UploadPhase::Write { meter, .. } => meter.valid() && self.has_room(),
            UploadPhase::Flush { meter, .. } => meter.valid() && self.has_room(),
            UploadPhase::Publish { meter, .. } => meter.valid() && self.has_room(),
            UploadPhase::Describe { meter, .. } => meter.valid() && self.has_room(),
            UploadPhase::CheckExisting { .. } => self.has_room(),
            UploadPhase::OpenTemp { .. } => self.has_room(),
            _ => true,
        }
    }

    /// Whether another file may be stored.
    pub open spec fn has_room(self) -> bool {
        self.uploaded@.len() < MAX_UPLOAD_FILES
    }

    /// Whether `next` is this upload with another phase, and nothing else
    /// changed.
    pub open spec fn moves_to(self, next: UploadRun, phase: UploadPhase) -> bool {
        next == (UploadRun { phase, ..self })
    }

    /// Whether `next` is this upload, refused with `e`.
    pub open spec fn refused_with(self, next: UploadRun, e: ApiError) -> bool {
        self.moves_to(next, UploadPhase::Done(Err(e)))
    }

    /// Whether `next` is this upload after a file that the client calls
    /// `raw_name` was announced.
    pub open spec fn admits(self, raw_name: Seq<char>, next: UploadRun) -> bool {
        let base = final_name(trimmed(raw_name));
        if self.uploaded@.len() < MAX_UPLOAD_FILES && base is Some && acceptable(base->0)
            && !denied(base->0) {
            &&& next.overwrite == self.overwrite
            &&& next.target_dir == self.target_dir
            &&& next.uploaded == self.uploaded
            &&& if self.overwrite {
                next.phase matches UploadPhase::OpenTemp { name } && name@ == base->0
            } else {
                next.phase matches UploadPhase::CheckExisting { name } && name@ == base->0
            }
        } else {
            &&& next.overwrite == self.overwrite
            &&& next.target_dir == self.target_dir
            &&& next.uploaded == self.uploaded
            &&& next.phase matches UploadPhase::Done(r) && r is Err && if self.uploaded@.len()
                >= MAX_UPLOAD_FILES {
                bad_request(r->Err_0, "Too many files (max 50)"@)
            } else if base is None || !acceptable(base->0) {
                bad_request(r->Err_0, "Invalid file name"@)
            } else {
                forbidden(r->Err_0, "A file named '"@ + base->0 + "' is not allowed"@)
            }
        }
    }

    /// Whether `next` is the upload after a step. An answer to another question
    /// than the one that was asked changes nothing.
    pub open spec fn leads_to(self, answer: UploadAnswer, next: UploadRun) -> bool {
        match (self.phase, answer) {
            (UploadPhase::PreResolve, UploadAnswer::Resolved(_)) => self.moves_to(
                next,
                UploadPhase::ReadLock,
            ),
            (UploadPhase::ReadLock, UploadAnswer::Carried) => self.moves_to(
                next,
                UploadPhase::Resolve,
            ),
            (UploadPhase::Resolve, UploadAnswer::Resolved(Ok(dir))) => next == (UploadRun {
                phase: UploadPhase::NextField,
                target_dir: dir,
                ..self
            }),
            (UploadPhase::Resolve, UploadAnswer::Resolved(Err(e))) => self.refused_with(next, e),
            (UploadPhase::NextField, UploadAnswer::File { raw_name }) => self.admits(
                raw_name@,
                next,
            ),
            (UploadPhase::NextField, UploadAnswer::OtherField) => next == self,
            (UploadPhase::NextField, UploadAnswer::End) => if self.uploaded@.len() == 0 {
                next.phase matches UploadPhase::Done(r) && r is Err && bad_request(
                    r->Err_0,
                    "No files in upload"@,
                )
            } else {
                next.phase == UploadPhase::Done(Ok(self.uploaded))
            },
            (UploadPhase::CheckExisting { name }, UploadAnswer::Exists(present)) => if present {
                &&& next.uploaded == self.uploaded
                &&& next.phase matches UploadPhase::Done(r) && r is Err && conflict(
                    r->Err_0,
                    "File '"@ + name@ + "' already exists"@,
                )
            } else {
                self.moves_to(next, UploadPhase::OpenTemp { name })
            },
            (UploadPhase::OpenTemp { name }, UploadAnswer::Carried) => self.moves_to(
                next,
                UploadPhase::Receive { name, meter: UploadMeter { written: 0 } },
            ),
            (UploadPhase::Receive { name, meter }, UploadAnswer::Chunk { len }) => if meter.written
                + len <= MAX_UPLOAD_FILE_BYTES {
                self.moves_to(
                    next,
                    UploadPhase::Write {
                        name,
                        meter: UploadMeter { written: (meter.written + len) as u64 },
                    },
                )
            } else {
                self.moves_to(next, UploadPhase::Discard { error: ApiError::PayloadTooLarge })
            },
            (UploadPhase::Receive { name, meter }, UploadAnswer::End) => self.moves_to(
                next,
                UploadPhase::Flush { name, meter },
            ),
            (UploadPhase::Receive { .. }, UploadAnswer::Failed(e)) => self.moves_to(
                next,
                UploadPhase::Discard { error: e },
            ),
            (UploadPhase::Write { name, meter }, UploadAnswer::Carried) => self.moves_to(
                next,
                UploadPhase::Receive { name, meter },
            ),
            (UploadPhase::Write { .. }, UploadAnswer::Failed(e)) => self.moves_to(
                next,
                UploadPhase::Discard { error: e },
            ),
            (UploadPhase::Discard { error }, UploadAnswer::Carried) => self.refused_with(
                next,
                error,
            ),
            (UploadPhase::Flush { name, meter }, UploadAnswer::Carried) => self.moves_to(
                next,
                UploadPhase::Publish { name, meter },
            ),
            (UploadPhase::Publish { name, meter }, UploadAnswer::Published(Ok(dir))) => next == (
            UploadRun { phase: UploadPhase::Describe { name, meter }, target_dir: dir, ..self }),
            (UploadPhase::Publish { .. }, UploadAnswer::Published(Err(e))) => self.refused_with(
                next,
                e,
            ),
            (
                UploadPhase::Describe { name, meter },
                UploadAnswer::Described { path: Ok(path), meta },
            ) => {
                &&& next.phase == UploadPhase::NextField
                &&& next.overwrite == self.overwrite
                &&& next.target_dir == self.target_dir
                &&& next.uploaded@.len() == self.uploaded@.len() + 1
                &&& next.uploaded@.drop_last() == self.uploaded@
                &&& next.uploaded@.last().name == name
                &&& next.uploaded@.last().path == path
                &&& !next.uploaded@.last().is_dir
                &&& !next.uploaded@.last().is_symlink
                &&& next.uploaded@.last().size_bytes == (match meta {
                    Some(m) => m.len as int,
                    None => meter.written as int,
                })
                &&& next.uploaded@.last().modified == (match meta {
                    Some(m) => m.modified,
                    None => None,
                })
            },
            (
                UploadPhase::Describe { .. },
                UploadAnswer::Described { path: Err(e), .. },
            ) => self.refused_with(next, e),
            (UploadPhase::NextField, UploadAnswer::Failed(e)) => self.refused_with(next, e),
            (UploadPhase::OpenTemp { .. }, UploadAnswer::Failed(e)) => self.refused_with(next, e),
            (UploadPhase::Flush { .. }, UploadAnswer::Failed(e)) => self.refused_with(next, e),
            _ => next == self,
        }
    }

    /// An upload starts. Only the default directory is looked for twice.
    pub fn start(query: &UploadQuery) -> (r: UploadRun)
        ensures
            r.valid(),
            r.phase == if named_target(query.path) is None {
                UploadPhase::PreResolve
            } else {
                UploadPhase::ReadLock
            },
            r.overwrite == query.overwrite,
            r.uploaded@.len() == 0,
    {
        let phase = if upload_target(query).is_none() {
            UploadPhase::PreResolve
        } else {
            UploadPhase::ReadLock
        };
        UploadRun {
            phase,
            overwrite: query.overwrite,
            target_dir: String::new(),
            uploaded: Vec::new(),
        }
    }

    fn go(self, phase: UploadPhase) -> (r: UploadRun)
        ensures
            self.moves_to(r, phase),
    {
        let mut r = self;
        r.phase = phase;
        r
    }

    fn announce(self, raw_name: String) -> (r: UploadRun)
        requires
            self.valid(),
        ensures
            self.admits(raw_name@, r),
            r.valid(),
    {
        match admit_upload(self.uploaded.len(), raw_name.as_str()) {
            Err(e) => self.go(UploadPhase::Done(Err(e))),
            Ok(name) => {
                if self.overwrite {
                    self.go(UploadPhase::OpenTemp { name })
                } else {
                    self.go(UploadPhase::CheckExisting { name })
                }
            },
        }
    }

    fn describe(
        self,
        name: String,
        meter: UploadMeter,
        path: String,
        meta: Option<FileMeta>,
    ) -> (r: UploadRun)
        requires
            self.valid(),
            meter.valid(),
            self.has_room(),
        ensures
            r.valid(),
            r.phase == UploadPhase::NextField,
            r.overwrite == self.overwrite,
            r.target_dir == self.target_dir,
            r.uploaded@.len() == self.uploaded@.len() + 1,
            r.uploaded@.drop_last() == self.uploaded@,
            r.uploaded@.last().name == name,
            r.uploaded@.last().path == path,
            !r.uploaded@.last().is_dir,
            !r.uploaded@.last().is_symlink,
            r.uploaded@.last().size_bytes == (match meta {
                Some(m) => m.len as int,
                None => meter.written as int,
            }),
            r.uploaded@.last().modified == (match meta {
                Some(m) => m.modified,
                None => None,
            }),
    {
        let entry = uploaded_entry(name, path, meta, meter);
        let mut r = self;
        let ghost before = r.uploaded@;
        r.uploaded.push(entry);
        proof {
            assert(r.uploaded@.drop_last() =~= before);
        }
        r.phase = UploadPhase::NextField;
        r
    }

    fn finish(self) -> (r: UploadRun)
        requires
            self.valid(),
        ensures
            r.valid(),
            if self.uploaded@.len() == 0 {
                r.phase matches UploadPhase::Done(d) && d is Err && bad_request(
                    d->Err_0,
                    "No files in upload"@,
                )
            } else {
                r.phase == UploadPhase::Done(Ok(self.uploaded))
            },
    {
        UploadRun {
            phase: UploadPhase::Done(finish_upload(self.uploaded)),
            overwrite: self.overwrite,
            target_dir: self.target_dir,
            uploaded: Vec::new(),
        }
    }

    /// Takes what came of the step that the phase stands for.
    pub fn step(self, answer: UploadAnswer) -> (next: UploadRun)
        requires
            self.valid(),
        ensures
            self.leads_to(answer, next),
            next.valid(),
    {
        let UploadRun { phase, overwrite, target_dir, uploaded } = self;
        // The phase is taken apart, and put back together with the rest.
        match (phase, answer) {
            (UploadPhase::PreResolve, UploadAnswer::Resolved(_)) => UploadRun {
                phase: UploadPhase::ReadLock,
                overwrite,
                target_dir,
                uploaded,
            },
            (UploadPhase::ReadLock, UploadAnswer::Carried) => UploadRun {
                phase: UploadPhase::Resolve,
                overwrite,
                target_dir,
                uploaded,
            },
            (UploadPhase::Resolve, UploadAnswer::Resolved(r)) => match r {
                Ok(dir) => UploadRun {
                    phase: UploadPhase::NextField,
                    overwrite,
                    target_dir: dir,
                    uploaded,
                },
                Err(e) => UploadRun {
                    phase: UploadPhase::Done(Err(e)),
                    overwrite,
                    target_dir,
                    uploaded,
                },
            },
            (UploadPhase::NextField, UploadAnswer::File { raw_name }) => {
                let run = UploadRun {
                    phase: UploadPhase::NextField,
                    overwrite,
                    target_dir,
                    uploaded,
                };
                run.announce(raw_name)
            },
            (UploadPhase::NextField, UploadAnswer::End) => {
                let run = UploadRun {
                    phase: UploadPhase::NextField,
                    overwrite,
                    target_dir,
                    uploaded,
                };
                run.finish()
            },
            (UploadPhase::CheckExisting { name }, UploadAnswer::Exists(present)) => {
                let phase = match check_existing(name.as_str(), false, present) {
                    Some(e) => UploadPhase::Done(Err(e)),
                    None => UploadPhase::OpenTemp { name },
                };
                UploadRun { phase, overwrite, target_dir, uploaded }
            },
            (UploadPhase::OpenTemp { name }, UploadAnswer::Carried) => UploadRun {
                phase: UploadPhase::Receive { name, meter: UploadMeter::new() },
                overwrite,
                target_dir,
                uploaded,
            },
            (UploadPhase::Receive { name, meter }, UploadAnswer::Chunk { len }) => {
                let mut grown = meter;
                let phase = if grown.take(len) {
                    UploadPhase::Write { name, meter: grown }
                } else {
                    UploadPhase::Discard { error: ApiError::PayloadTooLarge }
                };
                UploadRun { phase, overwrite, target_dir, uploaded }
            },
            (UploadPhase::Receive { name, meter }, UploadAnswer::End) => UploadRun {
                phase: UploadPhase::Flush { name, meter },
                overwrite,
                target_dir,
                uploaded,
            },
            (UploadPhase::Receive { .. }, UploadAnswer::Failed(e)) => UploadRun {
                phase: UploadPhase::Discard { error: e },
                overwrite,
                target_dir,
                uploaded,
            },
            (UploadPhase::Write { name, meter }, UploadAnswer::Carried) => UploadRun {
                phase: UploadPhase::Receive { name, meter },
                overwrite,
                target_dir,
                uploaded,
            },
            (UploadPhase::Write { .. }, UploadAnswer::Failed(e)) => UploadRun {
                phase: UploadPhase::Discard { error: e },
                overwrite,
                target_dir,
                uploaded,
            },
            (UploadPhase::Discard { error }, UploadAnswer::Carried) => UploadRun {
                phase: UploadPhase::Done(Err(error)),
                overwrite,
                target_dir,
                uploaded,
            },
            (UploadPhase::Flush { name, meter }, UploadAnswer::Carried) => UploadRun {
                phase: UploadPhase::Publish { name, meter },
                overwrite,
                target_dir,
                uploaded,
            },
            (UploadPhase::Publish { name, meter }, UploadAnswer::Published(r)) => match r {
                Ok(dir) => UploadRun {
                    phase: UploadPhase::Describe { name, meter },
                    overwrite,
                    target_dir: dir,
                    uploaded,
                },
                Err(e) => UploadRun {
                    phase: UploadPhase::Done(Err(e)),
                    overwrite,
                    target_dir,
                    uploaded,
                },
            },
            (UploadPhase::Describe { name, meter }, UploadAnswer::Described { path, meta }) => {
                match path {
                    Ok(p) => {
                        let run = UploadRun {
                            phase: UploadPhase::NextField,
                            overwrite,
                            target_dir,
                            uploaded,
                        };
                        run.describe(name, meter, p, meta)
                    },
                    Err(e) => UploadRun {
                        phase: UploadPhase::Done(Err(e)),
                        overwrite,
                        target_dir,
                        uploaded,
                    },
                }
            },
            (UploadPhase::NextField, UploadAnswer::Failed(e)) => UploadRun {
                phase: UploadPhase::Done(Err(e)),
                overwrite,
                target_dir,
                uploaded,
            },
            (UploadPhase::OpenTemp { .. }, UploadAnswer::Failed(e)) => UploadRun {
                phase: UploadPhase::Done(Err(e)),
                overwrite,
                target_dir,
                uploaded,
            },
            (UploadPhase::Flush { .. }, UploadAnswer::Failed(e)) => UploadRun {
                phase: UploadPhase::Done(Err(e)),
                overwrite,
                target_dir,
                uploaded,
            },
            (same, _) => UploadRun { phase: same, overwrite, target_dir, uploaded },
        }
    }
}

/// No file that is larger than the limit, and none beyond the limit on their
/// number, ever gets its final name.
pub proof fn law_published_files_keep_limits(run: UploadRun, answer: UploadAnswer, next: UploadRun)
    requires
        run.valid(),
        run.leads_to(answer, next),
        next.valid(),
        next.phase is Publish,
    ensures
        next.phase->Publish_meter.written <= MAX_UPLOAD_FILE_BYTES,
        next.uploaded@.len() < MAX_UPLOAD_FILES,
{
}

/// What was written for a file that is refused half-way is removed before the
/// upload is answered.
pub proof fn law_refused_file_is_discarded(run: UploadRun, answer: UploadAnswer, next: UploadRun)
    requires
        run.leads_to(answer, next),
        run.phase is Receive || run.phase is Write,
    ensures
        !(next.phase is Done),
{
}

/// Every file of an upload goes its way in order: it is announced, looked for where
/// it may not be replaced, opened, received and written chunk by chunk, flushed,
/// published and described. Its name stays the same on the way, and what was
/// written is the sum of its chunks.
pub proof fn law_upload_keeps_its_order(run: UploadRun, answer: UploadAnswer, next: UploadRun)
    requires
        run.leads_to(answer, next),
        next.phase != run.phase,
    ensures
        match next.phase {
            UploadPhase::PreResolve => false,
            UploadPhase::ReadLock => run.phase is PreResolve && answer is Resolved,
            UploadPhase::Resolve => run.phase is ReadLock && answer is Carried,
            UploadPhase::NextField => match run.phase {
                UploadPhase::Resolve => answer matches UploadAnswer::Resolved(Ok(dir))
                    && next.target_dir == dir && next.uploaded == run.uploaded,
                UploadPhase::Describe { name, meter } => {
                    &&& answer is Described
                    &&& next.target_dir == run.target_dir
                    &&& next.uploaded@.len() == run.uploaded@.len() + 1
                    &&& next.uploaded@.take(run.uploaded@.len() as int) == run.uploaded@
                    &&& next.uploaded@[run.uploaded@.len() as int].name == name
                },
                _ => false,
            },
            UploadPhase::CheckExisting { .. } => run.phase is NextField && answer is File
                && !run.overwrite,
            UploadPhase::OpenTemp { name } => run.phase is NextField && answer is File
                && run.overwrite || (run.phase matches UploadPhase::CheckExisting { name: n } && n
                == name && answer == UploadAnswer::Exists(false)),
            UploadPhase::Receive { name, meter } => match run.phase {
                UploadPhase::OpenTemp { name: n } => n == name && meter.written == 0
                    && answer is Carried,
                UploadPhase::Write { name: n, meter: m } => n == name && m == meter
                    && answer is Carried,
                _ => false,
            },
            UploadPhase::Write { name, meter } => run.phase matches UploadPhase::Receive {
                name: n,
                meter: m,
            } && n == name && (answer matches UploadAnswer::Chunk { len } && meter.written
                == m.written + len && meter.written <= MAX_UPLOAD_FILE_BYTES),
            UploadPhase::Flush { name, meter } => run.phase == (UploadPhase::Receive { name, meter })
                && answer is End,
            UploadPhase::Publish { name, meter } => run.phase == (UploadPhase::Flush { name, meter })
                && answer is Carried,
            UploadPhase::Describe { name, meter } => run.phase == (UploadPhase::Publish {
                name,
                meter,
            }) && (answer matches UploadAnswer::Published(Ok(dir)) && next.target_dir == dir),
            UploadPhase::Discard { error } => match answer {
                UploadAnswer::Chunk { len } => run.phase matches UploadPhase::Receive { meter, .. }
                    && meter.written + len > MAX_UPLOAD_FILE_BYTES && error is PayloadTooLarge,
                UploadAnswer::Failed(e) => (run.phase is Receive || run.phase is Write) && error
                    == e,
                _ => false,
            },
            UploadPhase::Done(Ok(files)) => run.phase is NextField && answer is End && files
                == run.uploaded && files@.len() > 0,
            UploadPhase::Done(Err(e)) => match run.phase {
                UploadPhase::NextField => answer is File || answer is End || answer
                    == UploadAnswer::Failed(e),
                UploadPhase::CheckExisting { .. } => answer == UploadAnswer::Exists(true)
                    && e is Conflict,
                UploadPhase::Discard { error } => answer is Carried && e == error,
                UploadPhase::Resolve => answer == UploadAnswer::Resolved(Err(e)),
                UploadPhase::Publish { .. } => answer == UploadAnswer::Published(Err(e)),
                UploadPhase::Describe { .. } => answer matches UploadAnswer::Described {
                    path: Err(f),
                    ..
                } && f == e,
                _ => answer == UploadAnswer::Failed(e),
            },
        },
{
    if next.phase is NextField && run.phase is Describe {
        assert(next.uploaded@.take(run.uploaded@.len() as int) =~= next.uploaded@.drop_last());
    }
}

/// An upload never stands still: whatever was asked, a proper answer leads on.
pub proof fn law_upload_goes_on(run: UploadRun, answer: UploadAnswer, next: UploadRun)
    requires
        run.leads_to(answer, next),
        match run.phase {
            UploadPhase::PreResolve => answer is Resolved,
            UploadPhase::ReadLock => answer is Carried,
            UploadPhase::Resolve => answer is Resolved,
            UploadPhase::NextField => answer is File || answer is End || answer is Failed,
            UploadPhase::CheckExisting { .. } => answer is Exists,
            UploadPhase::OpenTemp { .. } => answer is Carried || answer is Failed,
            UploadPhase::Receive { .. } => answer is Chunk || answer is End || answer is Failed,
            UploadPhase::Write { .. } => answer is Carried || answer is Failed,
            UploadPhase::Flush { .. } => answer is Carried || answer is Failed,
            UploadPhase::Publish { .. } => answer is Published,
            UploadPhase::Describe { .. } => answer is Described,
            UploadPhase::Discard { .. } => answer is Carried,
            UploadPhase::Done(_) => false,
        },
    ensures
        next.phase != run.phase,
        run.phase is NextField && answer is End ==> (next.phase matches UploadPhase::Done(r) && (
        r is Ok <==> run.uploaded@.len() > 0)),
        run.phase is CheckExisting ==> (answer matches UploadAnswer::Exists(present) ==> (present
            <==> next.phase is Done)),
        run.phase is Receive ==> (answer matches UploadAnswer::Chunk { len } ==> (next.phase is Write
            <==> run.phase->Receive_meter.written + len <= MAX_UPLOAD_FILE_BYTES)),
        answer is Carried && !(run.phase is Discard) ==> !(next.phase is Done) && !(
        next.phase is Discard),
{
}

/// A file is taken in exactly where there is room for it and what is left of its name
/// is the name of a file that may be stored, under which it is stored. One that is
/// off limits is forbidden; everything else is a bad request.
pub proof fn law_file_is_taken_in_by_name(run: UploadRun, raw_name: Seq<char>, next: UploadRun)
    requires
        run.admits(raw_name, next),
    ensures
        ({
            let base = final_name(trimmed(raw_name));
            let fits = run.uploaded@.len() < 50;
            let good = base is Some && acceptable(base->0);
            let taken = fits && good && !denied(base->0);
            &&& next.uploaded == run.uploaded && next.overwrite == run.overwrite
            &&& taken && run.overwrite <==> next.phase is OpenTemp
            &&& taken && !run.overwrite <==> next.phase is CheckExisting
            &&& next.phase matches UploadPhase::OpenTemp { name } ==> name@ == base->0
            &&& next.phase matches UploadPhase::CheckExisting { name } ==> name@ == base->0
            &&& !taken ==> next.phase is Done
            &&& next.phase matches UploadPhase::Done(r) ==> (r matches Err(e) && (e is Forbidden
                <==> fits && good) && (e is BadRequest <==> !(fits && good)))
        }),
{
}

/// What is kept of a file that was stored is its name, the path it is found at, and
/// its size and time as they were found, or what was written where they were not;
/// it is never a directory or a link. Nothing else about the upload changes on the
/// way.
pub proof fn law_stored_file_is_listed(
    run: UploadRun,
    name: String,
    meter: UploadMeter,
    path: String,
    meta: Option<FileMeta>,
    answer: UploadAnswer,
    next: UploadRun,
)
    ensures
        run.phase == (UploadPhase::Describe { name, meter }) && run.leads_to(
            UploadAnswer::Described { path: Ok(path), meta },
            next,
        ) ==> {
            let e = next.uploaded@[run.uploaded@.len() as int];
            &&& next.uploaded@.len() == run.uploaded@.len() + 1
            &&& e.name == name && e.path == path && !e.is_dir && !e.is_symlink
            &&& meta matches Some(m) ==> e.size_bytes == m.len && e.modified == m.modified
            &&& meta is None ==> e.size_bytes == meter.written && e.modified is None
        },
        run.leads_to(answer, next) && !(next.phase is Done) ==> {
            &&& next.overwrite == run.overwrite
            &&& !(run.phase is Describe) ==> next.uploaded == run.uploaded
            &&& !(run.phase is Resolve || run.phase is Publish) ==> next.target_dir
                == run.target_dir
        },
{
}

} // verus!
