//! One import of a transcript from opening its file to its last complete line.

use vstd::prelude::*;

use crate::ingest::{
    BatchStep, ClaudeTranscriptIngestError, IMPORT_BATCH_LINE_LIMIT, ImportState, LinkMutation,
    StoredFile, can_verify, last_line_length, law_stored_cursor_is_verifiable, start_import,
    verifies, verify_range,
};
use crate::path_set::PathSet;
use crate::tail::{
    ObservedFileState, RescanReason, TailChunk, batch_spans, holds_lines, law_batches_compose,
    lemma_line_break, lemma_line_spans, line_hash, line_spans, spans_end,
};
use crate::text::opt_text;

verus! {

/// A transcript's file as it is now.
#[derive(Debug, Clone, Copy, PartialEq, Eq, Structural)]
pub struct OpenedFile {
    pub dev: i64,
    pub inode: i64,
    pub size: i64,
    pub mtime_ms: Option<i64>,
}

/// What an import does next.
#[derive(Debug)]
pub enum ImportPhase {
    /// Open the file, and find out what it looks like.
    Open,
    /// Register it, and learn what is stored of it.
    Register { file: OpenedFile },
    /// Which session does its conversation belong to?
    Link { file: OpenedFile, stored: StoredFile },
    /// Carry out what follows from the link: announce it, and put the file into
    /// quarantine or take it out.
    Adopt { file: OpenedFile, stored: StoredFile, link: Option<LinkMutation> },
    /// Read the stretch where its last line was, and take its digest.
    Verify {
        file: OpenedFile,
        stored: StoredFile,
        session: Option<u128>,
        offset: i64,
        length: i64,
    },
    /// Read the next batch from the import's cursor on.
    Read { file: OpenedFile, session: Option<u128>, import: ImportState },
    /// Store a batch: in place of what was imported, or behind it.
    Store {
        file: OpenedFile,
        session: Option<u128>,
        import: ImportState,
        chunk: TailChunk,
        replace: bool,
    },
    /// A batch was stored: count the file as read anew where it was replaced,
    /// tell the readers of the feed of `invalidate`, and wake the publisher.
    Announce {
        file: OpenedFile,
        session: Option<u128>,
        import: ImportState,
        more: bool,
        replaced: bool,
        invalidate: Option<u128>,
        wake: bool,
    },
    Done(Result<(), ClaudeTranscriptIngestError>),
}

/// What came of a step.
#[derive(Debug)]
pub enum ImportAnswer {
    /// The file; absent where it is no regular file.
    Opened(Option<OpenedFile>),
    Registered(StoredFile),
    /// What the conversation is linked to, if anything.
    Linked(Option<LinkMutation>),
    /// The digest of the stretch.
    Verified(String),
    Batch(TailChunk),
    /// The batch was stored, and so many of its records wait to be published.
    Stored { appended: u64 },
    /// The step was carried out.
    Carried,
    Failed(ClaudeTranscriptIngestError),
}

/// Whether `import` is the start of an import of `stored`, whose last line has
/// now the digest `hash`.
pub open spec fn starts_import(
    stored: StoredFile,
    file: OpenedFile,
    hash: Option<Seq<char>>,
    force_rescan: bool,
    import: ImportState,
) -> bool {
    let reason = if force_rescan {
        Some(RescanReason::WatcherError)
    } else if stored.dev != file.dev || stored.inode != file.inode {
        Some(RescanReason::IdentityChanged)
    } else if file.size < stored.cursor_offset {
        Some(RescanReason::Truncated)
    } else if stored.cursor_offset > 0 && opt_text(stored.last_line_hash) != hash {
        Some(RescanReason::LastLineChanged)
    } else {
        None
    };
    &&& import.replace == reason
    &&& if reason is Some {
        &&& import.cursor_offset == 0
        &&& import.next_line_seq == 0
        &&& import.last_line_offset == 0
        &&& import.last_line_hash is None
    } else {
        &&& import.cursor_offset == stored.cursor_offset
        &&& import.next_line_seq == stored.next_line_seq
        &&& import.last_line_offset == stored.last_line_offset
        &&& import.last_line_hash == stored.last_line_hash
    }
}

/// Whether `next` is `import` after the batch `chunk` was stored.
pub open spec fn continues(import: ImportState, chunk: TailChunk, next: ImportState) -> bool {
    &&& next.cursor_offset == chunk.cursor_offset
    &&& next.next_line_seq == chunk.next_line_seq
    &&& next.last_line_offset == (if chunk.last_line_offset is Some {
        chunk.last_line_offset->0
    } else {
        import.last_line_offset
    })
    &&& next.last_line_hash == (if chunk.last_line_hash is Some {
        chunk.last_line_hash
    } else {
        import.last_line_hash
    })
    &&& next.replace is None
}

/// The session that a link leads to.
pub open spec fn linked_session(link: Option<LinkMutation>) -> Option<u128> {
    match link {
        Some(m) => Some(m.session_id),
        None => None,
    }
}

impl ImportPhase {
    /// Whether what is stored makes sense.
    pub open spec fn valid(self) -> bool {
        match self {
            ImportPhase::Link { file, stored } => can_verify(stored, file.size),
            ImportPhase::Adopt { file, stored, .. } => can_verify(stored, file.size),
            _ => true,
        }
    }

    /// Whether an answer makes sense: the last line of a registered file lies
    /// before its cursor, where it is looked at again.
    pub open spec fn accepts(self, answer: ImportAnswer) -> bool {
        match (self, answer) {
            (ImportPhase::Register { file }, ImportAnswer::Registered(stored)) => can_verify(
                stored,
                file.size,
            ),
            _ => true,
        }
    }

    /// Whether `next` is the phase after a step. An answer to another question
    /// than the one that was asked changes nothing.
    pub open spec fn leads_to(
        self,
        force_rescan: bool,
        answer: ImportAnswer,
        next: ImportPhase,
    ) -> bool {
        match (self, answer) {
            (ImportPhase::Done(_), _) => next == self,
            (_, ImportAnswer::Failed(e)) => next == ImportPhase::Done(Err(e)),
            (ImportPhase::Open, ImportAnswer::Opened(None)) => next == ImportPhase::Done(Ok(())),
            (ImportPhase::Open, ImportAnswer::Opened(Some(file))) => next == (
            ImportPhase::Register { file }),
            (ImportPhase::Register { file }, ImportAnswer::Registered(stored)) => next == (
            ImportPhase::Link { file, stored }),
            (ImportPhase::Link { file, stored }, ImportAnswer::Linked(link)) => next == (
            ImportPhase::Adopt { file, stored, link }),
            (ImportPhase::Adopt { file, stored, link }, ImportAnswer::Carried) => if verifies(
                stored,
                file.size,
            ) {
                next == (ImportPhase::Verify {
                    file,
                    stored,
                    session: linked_session(link),
                    offset: stored.last_line_offset,
                    length: last_line_length(stored),
                })
            } else {
                next matches ImportPhase::Read { file: f, session: s, import } && f == file && s
                    == linked_session(link) && starts_import(
                    stored,
                    file,
                    None,
                    force_rescan,
                    import,
                )
            },
            (ImportPhase::Verify { file, stored, session, .. }, ImportAnswer::Verified(hash)) => {
                next matches ImportPhase::Read { file: f, session: s, import } && f == file && s
                    == session && starts_import(stored, file, Some(hash@), force_rescan, import)
            },
            (ImportPhase::Read { file, session, import }, ImportAnswer::Batch(chunk)) => if chunk.lines@.len()
                == 0 {
                next == ImportPhase::Done(Ok(()))
            } else {
                next == (ImportPhase::Store {
                    file,
                    session,
                    import,
                    chunk,
                    replace: import.replace is Some,
                })
            },
            (
                ImportPhase::Store { file, session, import, chunk, replace },
                ImportAnswer::Stored { appended },
            ) => if replace || appended > 0 {
                next matches ImportPhase::Announce {
                    file: f,
                    session: s,
                    import: i,
                    more,
                    replaced,
                    invalidate,
                    wake,
                } && f == file && s == session && continues(import, chunk, i) && more == (
                chunk.trailing_bytes == 0) && replaced == replace && invalidate == (if replace {
                    session
                } else {
                    None
                }) && wake == (appended > 0)
            } else if chunk.trailing_bytes == 0 {
                next matches ImportPhase::Read { file: f, session: s, import: i } && f == file && s
                    == session && continues(import, chunk, i)
            } else {
                next == ImportPhase::Done(Ok(()))
            },
            (
                ImportPhase::Announce { file, session, import, more, .. },
                ImportAnswer::Carried,
            ) => if more {
                next == (ImportPhase::Read { file, session, import })
            } else {
                next == ImportPhase::Done(Ok(()))
            },
            _ => next == self,
        }
    }

    pub fn start() -> (p: ImportPhase)
        ensures
            p == ImportPhase::Open,
            p.valid(),
    {
        ImportPhase::Open
    }

    fn begin(
        file: OpenedFile,
        stored: StoredFile,
        session: Option<u128>,
        hash: Option<String>,
        force_rescan: bool,
    ) -> (p: ImportPhase)
        ensures
            p matches ImportPhase::Read { file: f, session: s, import } && f == file && s == session
                && starts_import(stored, file, opt_text(hash), force_rescan, import),
    {
        let verified: Option<&str> = match &hash {
            Some(h) => Some(h.as_str()),
            None => None,
        };
        let import = start_import(
            &stored,
            ObservedFileState {
                dev: file.dev,
                inode: file.inode,
                size: file.size,
                verified_last_line_hash: verified,
            },
            force_rescan,
        );
        ImportPhase::Read { file, session, import }
    }

    /// Takes what came of the step that the phase stands for.
    pub fn step(self, force_rescan: bool, answer: ImportAnswer) -> (next: ImportPhase)
        requires
            self.valid(),
            self.accepts(answer),
        ensures
            self.leads_to(force_rescan, answer, next),
            next.valid(),
    {
        match (self, answer) {
            (ImportPhase::Done(r), _) => ImportPhase::Done(r),
            (_, ImportAnswer::Failed(e)) => ImportPhase::Done(Err(e)),
            (ImportPhase::Open, ImportAnswer::Opened(found)) => match found {
                None => ImportPhase::Done(Ok(())),
                Some(file) => ImportPhase::Register { file },
            },
            (ImportPhase::Register { file }, ImportAnswer::Registered(stored)) => {
                ImportPhase::Link { file, stored }
            },
            (ImportPhase::Link { file, stored }, ImportAnswer::Linked(link)) => {
                ImportPhase::Adopt { file, stored, link }
            },
            (ImportPhase::Adopt { file, stored, link }, ImportAnswer::Carried) => {
                let session: Option<u128> = match link {
                    Some(m) => Some(m.session_id),
                    None => None,
                };
                match verify_range(&stored, file.size) {
                    Some((offset, length)) => ImportPhase::Verify {
                        file,
                        stored,
                        session,
                        offset,
                        length,
                    },
                    None => ImportPhase::begin(file, stored, session, None, force_rescan),
                }
            },
            (
                ImportPhase::Verify { file, stored, session, .. },
                ImportAnswer::Verified(hash),
            ) => ImportPhase::begin(file, stored, session, Some(hash), force_rescan),
            (ImportPhase::Read { file, session, import }, ImportAnswer::Batch(chunk)) => {
                match import.batch_step(&chunk) {
                    BatchStep::Finished => ImportPhase::Done(Ok(())),
                    BatchStep::Replace => ImportPhase::Store {
                        file,
                        session,
                        import,
                        chunk,
                        replace: true,
                    },
                    BatchStep::Append => ImportPhase::Store {
                        file,
                        session,
                        import,
                        chunk,
                        replace: false,
                    },
                }
            },
            (
                ImportPhase::Store { file, session, import, chunk, replace },
                ImportAnswer::Stored { appended },
            ) => {
                let (next, more) = import.after_batch(&chunk);
                let wake = appended > 0;
                if replace || wake {
                    let invalidate: Option<u128> = if replace {
                        session
                    } else {
                        None
                    };
                    ImportPhase::Announce {
                        file,
                        session,
                        import: next,
                        more,
                        replaced: replace,
                        invalidate,
                        wake,
                    }
                } else if more {
                    ImportPhase::Read { file, session, import: next }
                } else {
                    ImportPhase::Done(Ok(()))
                }
            },
            (
                ImportPhase::Announce { file, session, import, more, .. },
                ImportAnswer::Carried,
            ) => {
                if more {
                    ImportPhase::Read { file, session, import }
                } else {
                    ImportPhase::Done(Ok(()))
                }
            },
            (same, _) => same,
        }
    }
}

/// Puts a file into quarantine where its conversation belongs to nobody, and
/// takes it out where it does.
pub fn note_quarantine(quarantined: &mut PathSet, path: &str, session: Option<u128>)
    ensures
        final(quarantined)@ == if session is None {
            old(quarantined)@.insert(path@)
        } else {
            old(quarantined)@.remove(path@)
        },
{
    if session.is_none() {
        quarantined.insert(path);
    } else {
        quarantined.remove(path);
    }
}

/// What was imported of a file is only replaced by a batch that is there: until
/// the first lines of the rewritten file were read, the old ones stay.
pub proof fn law_old_lines_stay_until_replaced(
    p: ImportPhase,
    force_rescan: bool,
    answer: ImportAnswer,
    next: ImportPhase,
)
    requires
        p.leads_to(force_rescan, answer, next),
        !(p is Store),
        next is Store && next->replace,
    ensures
        p is Read,
        next->chunk.lines@.len() > 0,
        p->Read_import.replace is Some,
{
}

/// A file is replaced at most once in an import: every later batch is added.
pub proof fn law_replaced_once(
    p: ImportPhase,
    force_rescan: bool,
    answer: ImportAnswer,
    next: ImportPhase,
)
    requires
        p.leads_to(force_rescan, answer, next),
        p is Store,
    ensures
        next is Read ==> next->Read_import.replace is None,
        next is Announce ==> next->Announce_import.replace is None,
{
}

/// Nobody is told of a batch before it was stored. The readers of a feed are
/// told to start over only where the file was replaced and belongs to their
/// session, and the publisher is woken where there is something to publish.
pub proof fn law_announce_follows_store(
    p: ImportPhase,
    force_rescan: bool,
    answer: ImportAnswer,
    next: ImportPhase,
)
    requires
        p.leads_to(force_rescan, answer, next),
        !(p is Announce),
        next is Announce,
    ensures
        p is Store,
        answer is Stored,
        next->invalidate is Some ==> p->replace && next->invalidate == p->Store_session,
        p->replace && p->Store_session is Some ==> next->invalidate is Some,
        next->wake <==> answer->appended > 0,
{
}

/// A file is never read before it was told whom its conversation belongs to.
pub proof fn law_file_is_placed_before_it_is_read(
    p: ImportPhase,
    force_rescan: bool,
    answer: ImportAnswer,
    next: ImportPhase,
)
    requires
        p.leads_to(force_rescan, answer, next),
        next is Read || next is Verify,
    ensures
        p is Adopt || p is Verify || p is Read || p is Store || p is Announce,
        p is Adopt && next is Read && answer is Carried ==> next->Read_session == linked_session(
            p->link,
        ),
{
}

/// Whether `chunk` is the next batch of a file with these bytes, read from the
/// import's cursor on.
pub open spec fn is_batch(bytes: Seq<u8>, import: ImportState, chunk: TailChunk) -> bool {
    let from = import.cursor_offset as int;
    let spans = batch_spans(bytes, from, IMPORT_BATCH_LINE_LIMIT as nat);
    &&& 0 <= from <= bytes.len()
    &&& holds_lines(bytes, spans, from, from, import.next_line_seq as int, chunk)
    &&& chunk.trailing_bytes == if spans.len() < IMPORT_BATCH_LINE_LIMIT {
        bytes.len() - spans_end(spans, from)
    } else {
        0
    }
}

/// Whether an answer is true of a file with these bytes that looks like
/// `opened`, of which `stored` is stored.
pub open spec fn is_true(
    bytes: Seq<u8>,
    opened: Option<OpenedFile>,
    stored: StoredFile,
    p: ImportPhase,
    answer: ImportAnswer,
) -> bool {
    match (p, answer) {
        (ImportPhase::Open, ImportAnswer::Opened(found)) => found == opened,
        (ImportPhase::Register { .. }, ImportAnswer::Registered(known)) => known == stored,
        (ImportPhase::Verify { offset, length, .. }, ImportAnswer::Verified(hash)) => {
            &&& 0 <= offset
            &&& 0 <= length
            &&& offset + length <= bytes.len()
            &&& hash@ == line_hash(bytes.subrange(offset as int, offset + length))
        },
        (ImportPhase::Read { import, .. }, ImportAnswer::Batch(chunk)) => is_batch(
            bytes,
            import,
            chunk,
        ),
        _ => true,
    }
}

/// Whether `after` is what is stored of a file after a step. Only storing a
/// batch changes it: to the batch's cursor, and to the file that was opened
/// where the batch replaced what was imported.
pub open spec fn keeps(
    stored: StoredFile,
    p: ImportPhase,
    answer: ImportAnswer,
    after: StoredFile,
) -> bool {
    match (p, answer) {
        (ImportPhase::Store { file, import, chunk, replace, .. }, ImportAnswer::Stored { .. }) => {
            &&& after.dev == if replace {
                file.dev
            } else {
                stored.dev
            }
            &&& after.inode == if replace {
                file.inode
            } else {
                stored.inode
            }
            &&& after.cursor_offset == chunk.cursor_offset
            &&& after.next_line_seq == chunk.next_line_seq
            &&& after.last_line_offset == (if chunk.last_line_offset is Some {
                chunk.last_line_offset->0
            } else {
                import.last_line_offset
            })
            &&& after.last_line_hash == (if chunk.last_line_hash is Some {
                chunk.last_line_hash
            } else {
                import.last_line_hash
            })
        },
        _ => after == stored,
    }
}

/// An import: its phases, the answers between them, and what is stored of the
/// file at each phase.
pub ghost struct ImportHistory {
    pub force_rescan: bool,
    pub phases: Seq<ImportPhase>,
    pub answers: Seq<ImportAnswer>,
    pub stored: Seq<StoredFile>,
}

impl ImportHistory {
    /// Whether this is an import of a file with these bytes that looks like
    /// `opened`.
    pub open spec fn imports(self, bytes: Seq<u8>, opened: Option<OpenedFile>) -> bool {
        &&& opened is Some ==> opened->0.size == bytes.len()
        &&& self.phases.len() == self.answers.len() + 1
        &&& self.stored.len() == self.phases.len()
        &&& self.phases[0] == ImportPhase::Open
        &&& forall|i: int|
            #![trigger self.phases[i]]
            0 <= i < self.answers.len() ==> {
                &&& self.phases[i].leads_to(
                    self.force_rescan,
                    self.answers[i],
                    self.phases[i + 1],
                )
                &&& is_true(bytes, opened, self.stored[i], self.phases[i], self.answers[i])
                &&& keeps(self.stored[i], self.phases[i], self.answers[i], self.stored[i + 1])
            }
    }
}

/// Whether the stored cursor can be trusted for a file with these bytes.
pub open spec fn resumes(bytes: Seq<u8>, file: OpenedFile, stored: StoredFile) -> bool {
    &&& stored.dev == file.dev && stored.inode == file.inode
    &&& stored.cursor_offset <= file.size
    &&& verifies(stored, file.size) ==> {
        &&& 0 <= stored.last_line_offset <= stored.cursor_offset <= bytes.len()
        &&& stored.last_line_hash->0@ == line_hash(
            bytes.subrange(stored.last_line_offset as int, stored.cursor_offset as int),
        )
    }
}

/// Whether everything complete in a file is stored: it holds no complete line,
/// or none behind a cursor that can be trusted.
pub open spec fn caught_up(
    bytes: Seq<u8>,
    opened: Option<OpenedFile>,
    stored: StoredFile,
) -> bool {
    match opened {
        None => true,
        Some(file) => {
            ||| line_spans(bytes, 0).len() == 0
            ||| resumes(bytes, file, stored) && line_spans(
                bytes,
                stored.cursor_offset as int,
            ).len() == 0
        },
    }
}

/// Whether an import goes on from what is stored.
spec fn at_cursor(import: ImportState, stored: StoredFile) -> bool {
    &&& import.replace is None
    &&& import.cursor_offset == stored.cursor_offset
    &&& import.next_line_seq == stored.next_line_seq
    &&& import.last_line_offset == stored.last_line_offset
    &&& import.last_line_hash == stored.last_line_hash
}

/// Whether an import is at the start of a file that is read anew, or goes on
/// from a cursor that can be trusted.
spec fn placed(
    bytes: Seq<u8>,
    file: OpenedFile,
    import: ImportState,
    stored: StoredFile,
) -> bool {
    if import.replace is Some {
        import.cursor_offset == 0
    } else {
        at_cursor(import, stored) && resumes(bytes, file, stored)
    }
}

/// What holds in every phase of an import.
spec fn sound(
    bytes: Seq<u8>,
    opened: Option<OpenedFile>,
    stored: StoredFile,
    p: ImportPhase,
) -> bool {
    match p {
        ImportPhase::Open => true,
        ImportPhase::Register { file } => opened == Some(file),
        ImportPhase::Link { file, stored: known } => opened == Some(file) && known == stored,
        ImportPhase::Adopt { file, stored: known, .. } => opened == Some(file) && known == stored,
        ImportPhase::Verify { file, stored: known, offset, length, .. } => {
            &&& opened == Some(file)
            &&& known == stored
            &&& verifies(stored, file.size)
            &&& offset == stored.last_line_offset
            &&& length == last_line_length(stored)
        },
        ImportPhase::Read { file, import, .. } => opened == Some(file) && placed(
            bytes,
            file,
            import,
            stored,
        ),
        ImportPhase::Store { file, import, chunk, replace, .. } => {
            &&& opened == Some(file)
            &&& placed(bytes, file, import, stored)
            &&& is_batch(bytes, import, chunk)
            &&& chunk.lines@.len() > 0
            &&& replace == (import.replace is Some)
        },
        ImportPhase::Announce { file, import, more, .. } => {
            &&& opened == Some(file)
            &&& at_cursor(import, stored)
            &&& resumes(bytes, file, stored)
            &&& !more ==> caught_up(bytes, opened, stored)
        },
        ImportPhase::Done(result) => result is Ok ==> caught_up(bytes, opened, stored),
    }
}

proof fn lemma_stored_batch(
    bytes: Seq<u8>,
    file: OpenedFile,
    import: ImportState,
    chunk: TailChunk,
    after: StoredFile,
)
    requires
        file.size == bytes.len(),
        is_batch(bytes, import, chunk),
        chunk.lines@.len() > 0,
        after.dev == file.dev && after.inode == file.inode,
        after.cursor_offset == chunk.cursor_offset,
        chunk.last_line_offset is Some ==> after.last_line_offset == chunk.last_line_offset->0,
        chunk.last_line_hash is Some ==> after.last_line_hash == chunk.last_line_hash,
    ensures
        resumes(bytes, file, after),
        chunk.trailing_bytes != 0 ==> line_spans(bytes, after.cursor_offset as int).len() == 0,
{
    let from = import.cursor_offset as int;
    let limit = IMPORT_BATCH_LINE_LIMIT as nat;
    law_stored_cursor_is_verifiable(bytes, from, limit, import.next_line_seq as int, chunk);
    if chunk.trailing_bytes != 0 {
        let all = line_spans(bytes, from);
        let rest = line_spans(bytes, chunk.cursor_offset as int);
        law_batches_compose(bytes, from, limit);
        assert(all == batch_spans(bytes, from, limit) + rest);
    }
}

proof fn lemma_import_is_sound(
    bytes: Seq<u8>,
    opened: Option<OpenedFile>,
    force_rescan: bool,
    stored: StoredFile,
    p: ImportPhase,
    answer: ImportAnswer,
    after: StoredFile,
    next: ImportPhase,
)
    requires
        opened is Some ==> opened->0.size == bytes.len(),
        sound(bytes, opened, stored, p),
        p.leads_to(force_rescan, answer, next),
        is_true(bytes, opened, stored, p, answer),
        keeps(stored, p, answer, after),
    ensures
        sound(bytes, opened, after, next),
{
    match (p, answer) {
        (ImportPhase::Store { file, import, chunk, .. }, ImportAnswer::Stored { .. }) => {
            lemma_stored_batch(bytes, file, import, chunk, after);
        },
        _ => {},
    }
}

proof fn lemma_history_is_sound(
    bytes: Seq<u8>,
    opened: Option<OpenedFile>,
    h: ImportHistory,
    i: int,
)
    requires
        h.imports(bytes, opened),
        0 <= i < h.phases.len(),
    ensures
        sound(bytes, opened, h.stored[i], h.phases[i]),
    decreases i,
{
    if i > 0 {
        lemma_history_is_sound(bytes, opened, h, i - 1);
        lemma_import_is_sound(
            bytes,
            opened,
            h.force_rescan,
            h.stored[i - 1],
            h.phases[i - 1],
            h.answers[i - 1],
            h.stored[i],
            h.phases[i],
        );
    }
}

/// An import that ends well leaves nothing behind: every complete line of the
/// file is stored, and the stored cursor can be trusted next time.
pub proof fn law_finished_import_is_caught_up(
    bytes: Seq<u8>,
    opened: Option<OpenedFile>,
    h: ImportHistory,
)
    requires
        h.imports(bytes, opened),
        h.phases.last() == ImportPhase::Done(Ok(())),
    ensures
        caught_up(bytes, opened, h.stored.last()),
{
    lemma_history_is_sound(bytes, opened, h, h.phases.len() - 1);
}

/// Whether an import that found nothing new is in phase `p`.
spec fn idle(bytes: Seq<u8>, p: ImportPhase) -> bool {
    match p {
        ImportPhase::Store { .. } => false,
        ImportPhase::Announce { .. } => false,
        ImportPhase::Read { import, .. } => 0 <= import.cursor_offset <= bytes.len()
            ==> line_spans(bytes, import.cursor_offset as int).len() == 0,
        _ => true,
    }
}

proof fn lemma_no_line_anywhere(bytes: Seq<u8>, i: int)
    requires
        line_spans(bytes, 0).len() == 0,
        0 <= i <= bytes.len(),
    ensures
        line_spans(bytes, i).len() == 0,
{
    lemma_line_spans(bytes, 0);
    lemma_line_break(bytes, i);
}

proof fn lemma_second_import_is_idle(
    bytes: Seq<u8>,
    opened: Option<OpenedFile>,
    h: ImportHistory,
    i: int,
)
    requires
        h.imports(bytes, opened),
        !h.force_rescan,
        caught_up(bytes, opened, h.stored[0]),
        0 <= i < h.phases.len(),
    ensures
        idle(bytes, h.phases[i]),
        h.stored[i] == h.stored[0],
    decreases i,
{
    if i > 0 {
        lemma_second_import_is_idle(bytes, opened, h, i - 1);
        lemma_history_is_sound(bytes, opened, h, i - 1);
        let p = h.phases[i - 1];
        let next = h.phases[i];
        assert(p.leads_to(h.force_rescan, h.answers[i - 1], next));
        if next is Read && !(p is Read) {
            let import = next->Read_import;
            if 0 <= import.cursor_offset <= bytes.len() && line_spans(bytes, 0).len() == 0 {
                lemma_no_line_anywhere(bytes, import.cursor_offset as int);
            }
        }
    }
}

/// A second import of a file that did not change adds nothing: no batch is
/// stored or announced, what is stored of the file stays as it is, and the
/// import ends well unless something fails.
pub proof fn law_second_import_adds_nothing(
    bytes: Seq<u8>,
    opened: Option<OpenedFile>,
    first: ImportHistory,
    second: ImportHistory,
)
    requires
        first.imports(bytes, opened),
        first.phases.last() == ImportPhase::Done(Ok(())),
        second.imports(bytes, opened),
        second.stored[0] == first.stored.last(),
        !second.force_rescan,
    ensures
        forall|i: int|
            0 <= i < second.phases.len() ==> !(#[trigger] second.phases[i] is Store)
                && !(second.phases[i] is Announce) && second.stored[i] == first.stored.last(),
        (forall|i: int| 0 <= i < second.answers.len() ==> !(#[trigger] second.answers[i] is Failed))
            ==> forall|i: int|
            0 <= i < second.phases.len() && (#[trigger] second.phases[i] is Done)
                ==> second.phases[i] == ImportPhase::Done(Ok(())),
{
    law_finished_import_is_caught_up(bytes, opened, first);
    assert forall|i: int| 0 <= i < second.phases.len() implies !(#[trigger] second.phases[i] is Store)
        && !(second.phases[i] is Announce) && second.stored[i] == first.stored.last() by {
        lemma_second_import_is_idle(bytes, opened, second, i);
    }
    if forall|i: int| 0 <= i < second.answers.len() ==> !(#[trigger] second.answers[i] is Failed) {
        assert forall|i: int|
            0 <= i < second.phases.len() && (#[trigger] second.phases[i] is Done) implies
            second.phases[i] == ImportPhase::Done(Ok(())) by {
            lemma_ends_well(bytes, opened, second, i);
        }
    }
}

proof fn lemma_ends_well(bytes: Seq<u8>, opened: Option<OpenedFile>, h: ImportHistory, i: int)
    requires
        h.imports(bytes, opened),
        forall|i: int| 0 <= i < h.answers.len() ==> !(#[trigger] h.answers[i] is Failed),
        0 <= i < h.phases.len(),
    ensures
        h.phases[i] is Done ==> h.phases[i] == ImportPhase::Done(Ok(())),
    decreases i,
{
    if i > 0 {
        lemma_ends_well(bytes, opened, h, i - 1);
        assert(h.phases[i - 1].leads_to(h.force_rescan, h.answers[i - 1], h.phases[i]));
        assert(!(h.answers[i - 1] is Failed));
    }
}

/// A file is read on where it was left only if it is still the same file, has not
/// become shorter, and ends before that place with the line it ended with;
/// otherwise, and whenever that is asked for, it is read from its start, as one
/// that replaces what was imported.
pub proof fn law_file_is_read_on_only_where_it_is_the_same(
    stored: StoredFile,
    file: OpenedFile,
    hash: Option<Seq<char>>,
    force_rescan: bool,
    import: ImportState,
)
    requires
        starts_import(stored, file, hash, force_rescan, import),
    ensures
        ({
            let same = stored.dev == file.dev && stored.inode == file.inode && stored.cursor_offset
                <= file.size && (stored.cursor_offset <= 0 || match (stored.last_line_hash, hash) {
                (Some(was), Some(is)) => was@ == is,
                (None, None) => true,
                _ => false,
            });
            &&& import.replace is None <==> same && !force_rescan
            &&& same && !force_rescan ==> import.cursor_offset == stored.cursor_offset
                && import.next_line_seq == stored.next_line_seq && import.last_line_offset
                == stored.last_line_offset && import.last_line_hash == stored.last_line_hash
            &&& !(same && !force_rescan) ==> import.cursor_offset == 0 && import.next_line_seq == 0
                && import.last_line_offset == 0 && import.last_line_hash is None
            &&& import.replace == Some(RescanReason::WatcherError) <==> force_rescan
            &&& !force_rescan ==> {
                &&& import.replace == Some(RescanReason::IdentityChanged) <==> stored.dev
                    != file.dev || stored.inode != file.inode
                &&& import.replace == Some(RescanReason::Truncated) <==> stored.dev == file.dev
                    && stored.inode == file.inode && file.size < stored.cursor_offset
            }
        }),
{
}

/// A file that was registered is linked, then adopted, and its last line is looked
/// at again where one is known and still inside the file; it is then read under the
/// session that its conversation belongs to.
pub proof fn law_import_leads_to_reading(
    file: OpenedFile,
    stored: StoredFile,
    link: Option<LinkMutation>,
    session: Option<u128>,
    offset: i64,
    length: i64,
    hash: String,
    force_rescan: bool,
    next: ImportPhase,
)
    ensures
        ImportPhase::Open.leads_to(force_rescan, ImportAnswer::Opened(Some(file)), next) ==> next
            == (ImportPhase::Register { file }),
        ImportPhase::Open.leads_to(force_rescan, ImportAnswer::Opened(None), next) ==> next
            == ImportPhase::Done(Ok(())),
        (ImportPhase::Register { file }).leads_to(
            force_rescan,
            ImportAnswer::Registered(stored),
            next,
        ) ==> next == (ImportPhase::Link { file, stored }),
        (ImportPhase::Link { file, stored }).leads_to(
            force_rescan,
            ImportAnswer::Linked(link),
            next,
        ) ==> next == (ImportPhase::Adopt { file, stored, link }),
        (ImportPhase::Adopt { file, stored, link }).leads_to(
            force_rescan,
            ImportAnswer::Carried,
            next,
        ) ==> {
            let looks = stored.last_line_hash is Some && 0 < stored.cursor_offset <= file.size;
            let whose = link matches Some(m) ==> match next {
                ImportPhase::Verify { session, .. } => session == Some(m.session_id),
                ImportPhase::Read { session, .. } => session == Some(m.session_id),
                _ => false,
            };
            &&& looks <==> next is Verify
            &&& !looks <==> next is Read
            &&& whose
            &&& link is None ==> match next {
                ImportPhase::Verify { session, .. } => session is None,
                ImportPhase::Read { session, .. } => session is None,
                _ => false,
            }
            &&& next matches ImportPhase::Verify { file: f, stored: s, offset: o, length: n, .. }
                ==> f == file && s == stored && o == stored.last_line_offset && (
            stored.last_line_offset >= 0 ==> o + n == stored.cursor_offset)
            &&& next matches ImportPhase::Read { file: f, import, .. } ==> f == file
                && starts_import(stored, file, None, force_rescan, import)
        },
        (ImportPhase::Verify { file, stored, session, offset, length }).leads_to(
            force_rescan,
            ImportAnswer::Verified(hash),
            next,
        ) ==> (next matches ImportPhase::Read { file: f, session: s, import } && f == file && s
            == session && starts_import(stored, file, Some(hash@), force_rescan, import)),
{
}

/// A batch that was read is stored, and read on behind it until nothing more, or
/// only an unfinished line, is left. The first batch of a file that is read from
/// its start replaces it. The readers of its session's feed are told to start over
/// exactly where it does, and the publisher is woken where records wait.
pub proof fn law_import_reads_to_the_end(
    file: OpenedFile,
    session: Option<u128>,
    import: ImportState,
    chunk: TailChunk,
    replace: bool,
    appended: u64,
    more: bool,
    invalidate: Option<u128>,
    wake: bool,
    force_rescan: bool,
    next: ImportPhase,
)
    ensures
        (ImportPhase::Read { file, session, import }).leads_to(
            force_rescan,
            ImportAnswer::Batch(chunk),
            next,
        ) ==> {
            &&& chunk.lines@.len() == 0 ==> next == ImportPhase::Done(Ok(()))
            &&& chunk.lines@.len() > 0 ==> next == (ImportPhase::Store {
                file,
                session,
                import,
                chunk,
                replace: import.replace is Some,
            })
        },
        (ImportPhase::Store { file, session, import, chunk, replace }).leads_to(
            force_rescan,
            ImportAnswer::Stored { appended },
            next,
        ) ==> {
            &&& next is Announce <==> replace || appended > 0
            &&& next matches ImportPhase::Announce {
                file: f,
                session: s,
                import: i,
                more: m,
                replaced,
                invalidate: told,
                wake: woken,
            } ==> {
                &&& f == file && s == session && replaced == replace
                &&& m <==> chunk.trailing_bytes == 0
                &&& told == (if replace {
                    session
                } else {
                    None
                })
                &&& woken <==> appended > 0
                &&& reads_on(import, chunk, i)
            }
            &&& !(next is Announce) && chunk.trailing_bytes == 0 ==> (next matches ImportPhase::Read {
                file: f,
                session: s,
                import: i,
            } && f == file && s == session && reads_on(import, chunk, i))
            &&& !(next is Announce) && chunk.trailing_bytes != 0 ==> next == ImportPhase::Done(
                Ok(()),
            )
        },
        (ImportPhase::Announce { file, session, import, more, replaced: replace, invalidate, wake }).leads_to(
            force_rescan,
            ImportAnswer::Carried,
            next,
        ) ==> {
            &&& more ==> next == (ImportPhase::Read { file, session, import })
            &&& !more ==> next == ImportPhase::Done(Ok(()))
        },
{
}

/// Whether an import goes on behind the batch `chunk`, as one that only adds.
pub open spec fn reads_on(import: ImportState, chunk: TailChunk, next: ImportState) -> bool {
    &&& next.replace is None
    &&& next.cursor_offset == chunk.cursor_offset
    &&& next.next_line_seq == chunk.next_line_seq
    &&& chunk.last_line_offset matches Some(o) ==> next.last_line_offset == o
    &&& chunk.last_line_offset is None ==> next.last_line_offset == import.last_line_offset
    &&& chunk.last_line_hash is Some ==> next.last_line_hash == chunk.last_line_hash
    &&& chunk.last_line_hash is None ==> next.last_line_hash == import.last_line_hash
}

/// A step that fails ends the import with its error.
pub proof fn law_failed_step_ends_the_import(
    p: ImportPhase,
    force_rescan: bool,
    e: ClaudeTranscriptIngestError,
    next: ImportPhase,
)
    requires
        !(p is Done),
        p.leads_to(force_rescan, ImportAnswer::Failed(e), next),
    ensures
        next == ImportPhase::Done(Err(e)),
{
}

} // verus!
