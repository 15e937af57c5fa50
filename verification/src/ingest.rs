//! Importing transcripts: which files belong to a session, from where each is
//! read, what is stored of every line, and how readers of the feed learn of
//! it.

use std::collections::HashMap;

use vstd::prelude::*;
use vstd::string::*;

use crate::cli_collab::{CliPaneBoundVia, ProbeReport, SidEvidence};
use crate::foreign::{parse_rfc3339, rfc3339_moment, uuid_chars, uuid_text};
use crate::path_text::{file_name, final_name, parent, parent_of};
use crate::tail::{
    CompleteNativeLine, ObservedFileState, RescanReason, StoredTailState, TailChunk, batch_spans,
    holds_lines, lemma_line_spans, line_hash, line_spans, opt_str, rescan_reason,
};
use crate::text::{
    ascii_alphanumeric, begins_with, chars_of, clone_opt, concat2, concat3, ends_with,
    finishes_with, is_ascii_alphanumeric, lemma_texts_push, opt_text, same_text, starts_with,
    substring_of, texts,
};

verus! {

/// How many lines are imported at once.
pub const IMPORT_BATCH_LINE_LIMIT: usize = 256;

/// How many lines of a transcript are read for a preview.
pub const PREVIEW_LINE_LIMIT: usize = 50;

/// How much of a prompt a preview shows.
pub const PREVIEW_CHAR_LIMIT: usize = 160;

/// Why the import failed.
#[derive(Debug)]
pub enum ClaudeTranscriptIngestError {
    /// The database failed, with its own wording.
    Database(String),
    /// A file could not be read, with the system's wording.
    Io(String),
    SessionNotFound(u128),
    WorkspaceNotFound,
    WorkspacePathMissing(u128),
    NotQuarantined(String),
}

impl ClaudeTranscriptIngestError {
    /// The wording, where `agent` is the name of the agent whose transcripts are
    /// imported.
    pub fn message(&self, agent: &str) -> (m: String)
        ensures
            m@ == match *self {
                ClaudeTranscriptIngestError::Database(text) => text@,
                ClaudeTranscriptIngestError::Io(text) => text@,
                ClaudeTranscriptIngestError::SessionNotFound(id) => "session "@ + uuid_chars(id)
                    + " was not found"@,
                ClaudeTranscriptIngestError::WorkspaceNotFound => "Workspace not found"@,
                ClaudeTranscriptIngestError::WorkspacePathMissing(id) => "workspace for session "@ + uuid_chars(id)
                    + " has no local container path"@,
                ClaudeTranscriptIngestError::NotQuarantined(sid) => agent@ + " session "@ + sid@
                    + " is not quarantined for this workspace"@,
            },
    {
        match self {
            ClaudeTranscriptIngestError::Database(text) => text.clone(),
            ClaudeTranscriptIngestError::Io(text) => text.clone(),
            ClaudeTranscriptIngestError::SessionNotFound(id) => concat3(
                "session ",
                uuid_text(*id).as_str(),
                " was not found",
            ),
            ClaudeTranscriptIngestError::WorkspaceNotFound => "Workspace not found".to_owned(),
            ClaudeTranscriptIngestError::WorkspacePathMissing(id) => concat3(
                "workspace for session ",
                uuid_text(*id).as_str(),
                " has no local container path",
            ),
            ClaudeTranscriptIngestError::NotQuarantined(sid) => {
                let mut m = concat3(agent, " session ", sid.as_str());
                m.append(" is not quarantined for this workspace");
                m
            },
        }
    }
}

/// The key under which transcripts of a directory are kept: every character but
/// ASCII letters, digits and hyphens becomes a hyphen.
pub open spec fn project_slug(cwd: Seq<char>) -> Seq<char> {
    cwd.map_values(
        |c: char|
            if ascii_alphanumeric(c) || c == '-' {
                c
            } else {
                '-'
            },
    )
}

/// The key under which transcripts of a directory are kept.
pub fn claude_project_slug(cwd: &str) -> (slug: String)
    ensures
        slug@ == project_slug(cwd@),
{
    let chars = chars_of(cwd);
    let mut out = String::new();
    for i in 0..chars.len()
        invariant
            chars@ == cwd@,
            out@ == project_slug(cwd@.take(i as int)),
    {
        let c = chars[i];
        let kept = if is_ascii_alphanumeric(c) || c == '-' {
            c
        } else {
            '-'
        };
        out.push(kept);
        proof {
            assert(project_slug(cwd@.take(i + 1)) =~= project_slug(cwd@.take(i as int)).push(kept));
        }
    }
    proof {
        assert(cwd@.take(cwd@.len() as int) =~= cwd@);
    }
    out
}

/// A slug never leads out of the directory it is looked up in: it is as long as
/// the path that it stands for, and holds neither a separator nor a dot.
pub proof fn law_slug_is_one_name(cwd: Seq<char>)
    ensures
        project_slug(cwd).len() == cwd.len(),
        !project_slug(cwd).contains('/'),
        !project_slug(cwd).contains('.'),
{
}

/// The file name of the transcript of a conversation.
pub fn transcript_file_name(sid: &str) -> (name: String)
    ensures
        name@ == sid@ + ".jsonl"@,
{
    concat2(sid, ".jsonl")
}

/// Whether a file name is that of a main transcript: it has the extension
/// `jsonl`, and does not belong to a sub-agent.
pub open spec fn transcript_name(name: Seq<char>) -> bool {
    &&& finishes_with(name, ".jsonl"@)
    &&& name.len() > ".jsonl"@.len()
    &&& !begins_with(name, "agent-"@)
}

/// Whether a file name is that of a main transcript.
pub fn is_transcript_name(name: &str) -> (r: bool)
    ensures
        r == transcript_name(name@),
{
    let n: usize = chars_of(name).len();
    let m: usize = chars_of(".jsonl").len();
    ends_with(name, ".jsonl") && n > m && !starts_with(name, "agent-")
}

/// What a transcript's path says of it.
#[derive(Debug)]
pub struct TranscriptPath {
    pub claude_session_id: String,
    pub dir_path: String,
    pub file_name: String,
}

/// A file name without its extension.
pub open spec fn stem_of(name: Seq<char>) -> Seq<char> {
    let dot = last_dot(name, name.len() as int);
    if dot > 0 {
        name.take(dot)
    } else {
        name
    }
}

/// Where the last dot before `n` is; -1 where there is none.
pub open spec fn last_dot(name: Seq<char>, n: int) -> int
    decreases n,
{
    if n <= 0 || n > name.len() {
        -1
    } else if name[n - 1] == '.' {
        n - 1
    } else {
        last_dot(name, n - 1)
    }
}

/// A file name without its extension.
fn file_stem(name: &str) -> (stem: String)
    ensures
        stem@ == stem_of(name@),
{
    let chars = chars_of(name);
    let mut n: usize = chars.len();
    while n > 0 && chars[n - 1] != '.'
        invariant
            chars@ == name@,
            n <= chars@.len(),
            last_dot(name@, name@.len() as int) == last_dot(name@, n as int),
        decreases n,
    {
        n = n - 1;
    }
    if n > 1 {
        proof {
            assert(name@.take(n - 1) =~= chars@.subrange(0, n - 1));
        }
        substring_of(&chars, 0, n - 1)
    } else {
        name.to_owned()
    }
}

/// Reads what a transcript's path says of it; nothing where it names no file.
pub fn transcript_path(path: &str) -> (r: Option<TranscriptPath>)
    ensures
        match final_name(path@) {
            None => r is None,
            Some(name) => {
                &&& r is Some
                &&& r->0.file_name@ == name
                &&& r->0.claude_session_id@ == stem_of(name)
                &&& Some(r->0.dir_path@) == parent_of(path@)
            },
        },
{
    let name = match file_name(path) {
        Some(n) => n,
        None => return None,
    };
    let stem = file_stem(name.as_str());
    match parent(path) {
        Some(dir_path) => Some(
            TranscriptPath { claude_session_id: stem, dir_path, file_name: name },
        ),
        None => {
            proof {
                lemma_name_has_parent(path@);
            }
            None
        },
    }
}

proof fn lemma_name_has_parent(path: Seq<char>)
    requires
        final_name(path) is Some,
    ensures
        parent_of(path) is Some,
{
}

/// What a preview of a conversation says of who started it.
#[derive(Debug, Clone, Copy, PartialEq, Eq, Structural)]
pub enum CliSessionKind {
    /// A conversation of the user's.
    Main,
    /// One that a program started.
    Subagent,
}

/// Whether an entrypoint is that of a program.
pub open spec fn program_entrypoint(entrypoint: Option<Seq<char>>) -> bool {
    entrypoint == Some("sdk-cli"@) || entrypoint == Some("sdk-py"@)
}

impl CliSessionKind {
    /// Tells who started a conversation. Whatever is not known to be a program
    /// counts as the user.
    pub fn from_entrypoint(entrypoint: Option<&str>) -> (kind: CliSessionKind)
        ensures
            kind == if program_entrypoint(opt_str(entrypoint)) {
                CliSessionKind::Subagent
            } else {
                CliSessionKind::Main
            },
    {
        match entrypoint {
            Some(e) => {
                if same_text(e, "sdk-cli") || same_text(e, "sdk-py") {
                    CliSessionKind::Subagent
                } else {
                    CliSessionKind::Main
                }
            },
            None => CliSessionKind::Main,
        }
    }
}

/// What a preview reads of a line.
#[derive(Debug)]
pub struct PreviewLine {
    pub entrypoint: Option<String>,
    /// What the user typed, where the line is such a message.
    pub user_text: Option<String>,
}

/// A preview of a conversation.
#[derive(Debug)]
pub struct SessionPreview {
    pub first_prompt_snippet: Option<String>,
    pub kind: CliSessionKind,
}

/// The start of a prompt, with an ellipsis where more follows.
pub open spec fn snippet_of(prompt: Seq<char>) -> Seq<char> {
    if prompt.len() > PREVIEW_CHAR_LIMIT {
        prompt.take(PREVIEW_CHAR_LIMIT as int).push('\u{2026}')
    } else {
        prompt
    }
}

/// The start of a prompt, with an ellipsis where more follows.
pub fn prompt_snippet(prompt: &str) -> (out: String)
    ensures
        out@ == snippet_of(prompt@),
{
    let chars = chars_of(prompt);
    if chars.len() > PREVIEW_CHAR_LIMIT {
        let mut out = substring_of(&chars, 0, PREVIEW_CHAR_LIMIT);
        proof {
            assert(out@ =~= prompt@.take(PREVIEW_CHAR_LIMIT as int));
        }
        out.push('\u{2026}');
        out
    } else {
        prompt.to_owned()
    }
}

/// Whether line `i` is the first that the user typed, among those that a
/// preview reads. A line that is not understood is absent, and skipped.
pub open spec fn first_typed(lines: Seq<Option<PreviewLine>>, i: int) -> bool {
    &&& 0 <= i < lines.len()
    &&& i < PREVIEW_LINE_LIMIT
    &&& is_typed(lines[i])
    &&& forall|j: int| 0 <= j < i ==> !is_typed(#[trigger] lines[j])
}

pub open spec fn is_typed(line: Option<PreviewLine>) -> bool {
    line is Some && line->0.user_text is Some
}

pub open spec fn names_entrypoint(line: Option<PreviewLine>) -> bool {
    line is Some && line->0.entrypoint is Some
}

/// How many lines a preview reads: up to and with the first that the user
/// typed, and no more than the limit.
pub open spec fn preview_reach(lines: Seq<Option<PreviewLine>>, k: int) -> int
    decreases k,
{
    if k <= 0 {
        0
    } else {
        let before = preview_reach(lines, k - 1);
        if before < k - 1 || (k >= 2 && is_typed(lines[k - 2])) {
            before
        } else {
            k
        }
    }
}

/// The entrypoint that the first `n` lines name first.
pub open spec fn entrypoint_within(lines: Seq<Option<PreviewLine>>, n: int) -> Option<Seq<char>>
    decreases n,
{
    if n <= 0 {
        None
    } else if entrypoint_within(lines, n - 1) is Some {
        entrypoint_within(lines, n - 1)
    } else if names_entrypoint(lines[n - 1]) {
        opt_text(lines[n - 1]->0.entrypoint)
    } else {
        None
    }
}

/// How many of the lines a preview may read.
pub open spec fn preview_limit(lines: Seq<Option<PreviewLine>>) -> int {
    if lines.len() < PREVIEW_LINE_LIMIT {
        lines.len() as int
    } else {
        PREVIEW_LINE_LIMIT as int
    }
}

/// Whether `p` previews the conversation with these first lines.
pub open spec fn previews(lines: Seq<Option<PreviewLine>>, p: SessionPreview) -> bool {
    &&& match opt_text(p.first_prompt_snippet) {
        Some(s) => exists|i: int| #[trigger]
            first_typed(lines, i) && s == snippet_of(lines[i]->0.user_text->0@),
        None => forall|i: int| 0 <= i < preview_limit(lines) ==> !is_typed(#[trigger] lines[i]),
    }
    &&& p.kind == if program_entrypoint(
        entrypoint_within(lines, preview_reach(lines, preview_limit(lines))),
    ) {
        CliSessionKind::Subagent
    } else {
        CliSessionKind::Main
    }
}

/// Previews a conversation from its first lines: the start of the first prompt,
/// and who started it, by the first entrypoint that is named up to there.
pub fn read_session_preview(lines: &Vec<Option<PreviewLine>>) -> (p: SessionPreview)
    ensures
        previews(lines@, p),
{
    let limit: usize = if lines.len() < PREVIEW_LINE_LIMIT {
        lines.len()
    } else {
        PREVIEW_LINE_LIMIT
    };
    let mut snippet: Option<String> = None;
    let mut entrypoint: Option<String> = None;
    let ghost mut at: int = 0;
    let mut i: usize = 0;
    proof {
        assert(preview_reach(lines@, 0) == 0);
    }
    while i < limit && snippet.is_none()
        invariant
            limit == preview_limit(lines@),
            i <= limit <= lines@.len(),
            limit <= PREVIEW_LINE_LIMIT,
            opt_text(entrypoint) == entrypoint_within(lines@, i as int),
            preview_reach(lines@, i as int) == i,
            match opt_text(snippet) {
                Some(s) => first_typed(lines@, at) && at == i - 1 && s == snippet_of(
                    lines@[at]->0.user_text->0@,
                ),
                None => forall|j: int| 0 <= j < i ==> !is_typed(#[trigger] lines@[j]),
            },
        decreases limit - i,
    {
        proof {
            if i > 0 {
                assert(!is_typed(lines@[i - 1]));
            }
            assert(preview_reach(lines@, i + 1) == i + 1);
        }
        match &lines[i] {
            Some(line) => {
                if entrypoint.is_none() {
                    entrypoint = clone_opt(&line.entrypoint);
                }
                match &line.user_text {
                    Some(text) => {
                        proof {
                            at = i as int;
                        }
                        snippet = Some(prompt_snippet(text.as_str()));
                    },
                    None => {},
                }
            },
            None => {},
        }
        i = i + 1;
    }
    proof {
        if snippet is Some {
            lemma_reach_stays(lines@, i as int, limit as int);
        }
    }
    let kind = match &entrypoint {
        Some(e) => CliSessionKind::from_entrypoint(Some(e.as_str())),
        None => CliSessionKind::from_entrypoint(None),
    };
    SessionPreview { first_prompt_snippet: snippet, kind }
}

proof fn lemma_reach_stays(lines: Seq<Option<PreviewLine>>, i: int, k: int)
    requires
        1 <= i <= k <= lines.len(),
        preview_reach(lines, i) == i,
        is_typed(lines[i - 1]),
    ensures
        preview_reach(lines, k) == i,
    decreases k,
{
    if k > i {
        lemma_reach_stays(lines, i, k - 1);
    }
}

/// The size of a file, as far as it can be stored.
pub fn file_size(len: u64) -> (size: i64)
    ensures
        size == if len <= i64::MAX {
            len as int
        } else {
            i64::MAX as int
        },
{
    if len <= 9223372036854775807u64 {
        len as i64
    } else {
        i64::MAX
    }
}

/// A time in milliseconds, where it can be stored.
pub fn modified_ms(millis: u128) -> (r: Option<i64>)
    ensures
        r == if millis <= i64::MAX {
            Some(millis as i64)
        } else {
            None
        },
{
    if millis <= 9223372036854775807u128 {
        Some(millis as i64)
    } else {
        None
    }
}

/// The moment that a transcript's timestamp denotes.
pub fn parse_native_timestamp(timestamp: &str) -> (r: Option<(i64, u32)>)
    ensures
        r == rfc3339_moment(timestamp@),
{
    parse_rfc3339(timestamp)
}

/// What is stored of a transcript's file.
#[derive(Debug)]
pub struct StoredFile {
    pub dev: i64,
    pub inode: i64,
    pub cursor_offset: i64,
    pub next_line_seq: i64,
    pub last_line_offset: i64,
    pub last_line_hash: Option<String>,
}

/// Whether the stretch of a file where its last line was is looked at again
/// before the file is read on: that line is known, and still inside the file.
pub open spec fn verifies(stored: StoredFile, observed_size: i64) -> bool {
    observed_size >= stored.cursor_offset && stored.cursor_offset > 0 && stored.last_line_hash
        is Some
}

/// Whether the last line of a file lies before its cursor, where it is looked at
/// again.
pub open spec fn can_verify(stored: StoredFile, observed_size: i64) -> bool {
    verifies(stored, observed_size) ==> stored.last_line_offset <= stored.cursor_offset
}

/// How long the last line of a file was, as far as that can be told.
pub open spec fn last_line_length(stored: StoredFile) -> i64 {
    let length = stored.cursor_offset - stored.last_line_offset;
    if length <= i64::MAX {
        length as i64
    } else {
        i64::MAX
    }
}

/// The stretch of a file to look at again before it is read on, from where and
/// how long, if there is one.
pub fn verify_range(stored: &StoredFile, observed_size: i64) -> (r: Option<(i64, i64)>)
    requires
        can_verify(*stored, observed_size),
    ensures
        r == if verifies(*stored, observed_size) {
            Some((stored.last_line_offset, last_line_length(*stored)))
        } else {
            None
        },
{
    if observed_size < stored.cursor_offset || stored.cursor_offset <= 0
        || stored.last_line_hash.is_none() {
        return None;
    }
    let length: i64 = if stored.last_line_offset < 0 && stored.cursor_offset > i64::MAX
        + stored.last_line_offset {
        i64::MAX
    } else {
        stored.cursor_offset - stored.last_line_offset
    };
    Some((stored.last_line_offset, length))
}

/// How far an import has come.
#[derive(Debug)]
pub struct ImportState {
    pub cursor_offset: i64,
    pub next_line_seq: i64,
    pub last_line_offset: i64,
    pub last_line_hash: Option<String>,
    /// Why the file is read from the start; the first batch then replaces
    /// everything that was imported of it.
    pub replace: Option<RescanReason>,
}

/// Whether, and why, a stored file has to be read from the start.
pub open spec fn rescan_of(
    stored: StoredFile,
    observed: ObservedFileState<'_>,
    force_rescan: bool,
) -> Option<RescanReason> {
    if force_rescan {
        Some(RescanReason::WatcherError)
    } else if stored.dev != observed.dev || stored.inode != observed.inode {
        Some(RescanReason::IdentityChanged)
    } else if observed.size < stored.cursor_offset {
        Some(RescanReason::Truncated)
    } else if stored.cursor_offset > 0 && opt_text(stored.last_line_hash) != opt_str(
        observed.verified_last_line_hash,
    ) {
        Some(RescanReason::LastLineChanged)
    } else {
        None
    }
}

/// Starts an import: where the stored cursor can be trusted the file is read
/// on, else it is read from the start.
pub fn start_import(
    stored: &StoredFile,
    observed: ObservedFileState<'_>,
    force_rescan: bool,
) -> (s: ImportState)
    ensures
        s.replace == rescan_of(*stored, observed, force_rescan),
        s.replace is Some ==> s.cursor_offset == 0 && s.next_line_seq == 0 && s.last_line_offset
            == 0 && s.last_line_hash is None,
        s.replace is None ==> s.cursor_offset == stored.cursor_offset && s.next_line_seq
            == stored.next_line_seq && s.last_line_offset == stored.last_line_offset
            && s.last_line_hash == stored.last_line_hash,
{
    let last_line_hash: Option<&str> = match &stored.last_line_hash {
        Some(h) => Some(h.as_str()),
        None => None,
    };
    let replace = rescan_reason(
        StoredTailState {
            dev: stored.dev,
            inode: stored.inode,
            cursor_offset: stored.cursor_offset,
            last_line_hash,
        },
        observed,
        force_rescan,
    );
    if replace.is_some() {
        ImportState {
            cursor_offset: 0,
            next_line_seq: 0,
            last_line_offset: 0,
            last_line_hash: None,
            replace,
        }
    } else {
        ImportState {
            cursor_offset: stored.cursor_offset,
            next_line_seq: stored.next_line_seq,
            last_line_offset: stored.last_line_offset,
            last_line_hash: clone_opt(&stored.last_line_hash),
            replace,
        }
    }
}

/// How a line is treated.
#[derive(Debug, Clone, Copy, PartialEq, Eq, Structural)]
pub enum RecordDisposition {
    Renderable,
    Bookkeeping,
    Sidechain,
    Unknown,
}

/// A transcript line that was understood, as far as the import reads it.
#[derive(Debug)]
pub struct AdaptedLine {
    pub disposition: RecordDisposition,
    /// Whether the line is of a kind that nobody knows.
    pub is_unknown: bool,
    pub uuid: Option<String>,
    pub parent_uuid: Option<String>,
    pub kind: String,
    pub timestamp: Option<String>,
    pub user_text: Option<String>,
}

/// A transcript line, as it is stored.
#[derive(Debug)]
pub struct NewCliNativeRecord {
    pub line_seq: i64,
    pub claude_session_id: String,
    pub uuid: Option<String>,
    pub parent_uuid: Option<String>,
    pub kind: String,
    pub ts: Option<String>,
    pub raw: String,
    pub disposition: RecordDisposition,
    pub user_prompt: Option<String>,
    pub recorded_at: Option<(i64, u32)>,
}

/// Whether `r` is what is stored of `line`, which was understood as `adapted`.
/// A line that was not understood is stored too, as one of an unknown kind.
pub open spec fn records_line(
    line: CompleteNativeLine,
    adapted: Option<AdaptedLine>,
    sid: Seq<char>,
    r: NewCliNativeRecord,
) -> bool {
    &&& r.line_seq == line.line_seq
    &&& r.raw == line.raw
    &&& r.claude_session_id@ == sid
    &&& match adapted {
        Some(a) => {
            &&& r.uuid == a.uuid
            &&& r.parent_uuid == a.parent_uuid
            &&& r.kind == a.kind
            &&& r.ts == a.timestamp
            &&& r.disposition == a.disposition
            &&& r.user_prompt == a.user_text
            &&& r.recorded_at == match a.timestamp {
                Some(t) => rfc3339_moment(t@),
                None => None,
            }
        },
        None => {
            &&& r.uuid is None
            &&& r.parent_uuid is None
            &&& r.kind@ == "unknown"@
            &&& r.ts is None
            &&& r.disposition == RecordDisposition::Unknown
            &&& r.user_prompt is None
            &&& r.recorded_at is None
        },
    }
}

/// Whether a line counts as one of an unknown kind.
pub open spec fn counts_unknown(adapted: Option<AdaptedLine>) -> bool {
    adapted is None || adapted->0.is_unknown
}

/// How many lines count as being of an unknown kind.
pub open spec fn unknown_count(adapted: Seq<Option<AdaptedLine>>) -> nat
    decreases adapted.len(),
{
    if adapted.len() == 0 {
        0
    } else {
        unknown_count(adapted.drop_last()) + if counts_unknown(adapted.last()) {
            1nat
        } else {
            0nat
        }
    }
}

/// Turns the lines of a batch into records, one for each, and counts those of
/// an unknown kind. `adapted` holds what each line was understood as.
pub fn build_records(
    lines: &Vec<CompleteNativeLine>,
    adapted: &Vec<Option<AdaptedLine>>,
    sid: &str,
) -> (r: (Vec<NewCliNativeRecord>, usize))
    requires
        adapted@.len() == lines@.len(),
    ensures
        r.0@.len() == lines@.len(),
        forall|i: int|
            0 <= i < lines@.len() ==> records_line(
                lines@[i],
                adapted@[i],
                sid@,
                #[trigger] r.0@[i],
            ),
        r.1 == unknown_count(adapted@),
{
    let mut records: Vec<NewCliNativeRecord> = Vec::new();
    let mut unknown: usize = 0;
    for i in 0..lines.len()
        invariant
            adapted@.len() == lines@.len(),
            records@.len() == i,
            forall|j: int|
                0 <= j < i ==> records_line(lines@[j], adapted@[j], sid@, #[trigger] records@[j]),
            unknown == unknown_count(adapted@.take(i as int)),
            unknown <= i,
    {
        proof {
            assert(adapted@.take(i + 1).drop_last() =~= adapted@.take(i as int));
            assert(adapted@.take(i + 1).last() == adapted@[i as int]);
        }
        let line = &lines[i];
        match &adapted[i] {
            Some(a) => {
                if a.is_unknown {
                    unknown = unknown + 1;
                }
                let recorded_at = match &a.timestamp {
                    Some(t) => parse_native_timestamp(t.as_str()),
                    None => None,
                };
                records.push(
                    NewCliNativeRecord {
                        line_seq: line.line_seq,
                        claude_session_id: sid.to_owned(),
                        uuid: clone_opt(&a.uuid),
                        parent_uuid: clone_opt(&a.parent_uuid),
                        kind: a.kind.clone(),
                        ts: clone_opt(&a.timestamp),
                        raw: line.raw.clone(),
                        disposition: a.disposition,
                        user_prompt: clone_opt(&a.user_text),
                        recorded_at,
                    },
                );
            },
            None => {
                unknown = unknown + 1;
                records.push(
                    NewCliNativeRecord {
                        line_seq: line.line_seq,
                        claude_session_id: sid.to_owned(),
                        uuid: None,
                        parent_uuid: None,
                        kind: "unknown".to_owned(),
                        ts: None,
                        raw: line.raw.clone(),
                        disposition: RecordDisposition::Unknown,
                        user_prompt: None,
                        recorded_at: None,
                    },
                );
            },
        }
    }
    proof {
        assert(adapted@.take(adapted@.len() as int) =~= adapted@);
    }
    (records, unknown)
}

/// The cursor that is stored with a batch.
#[derive(Debug)]
pub struct ImportedCursor {
    pub cursor_offset: i64,
    pub next_line_seq: i64,
    pub last_line_offset: i64,
    pub last_line_hash: Option<String>,
    pub observed_size: i64,
    pub observed_mtime_ms: Option<i64>,
}

/// What is done with a batch.
#[derive(Debug, Clone, Copy, PartialEq, Eq, Structural)]
pub enum BatchStep {
    /// Nothing was read: the import is over.
    Finished,
    /// Replace what was imported of the file by this batch.
    Replace,
    /// Add this batch.
    Append,
}

impl ImportState {
    /// What is done with a batch.
    pub fn batch_step(&self, chunk: &TailChunk) -> (step: BatchStep)
        ensures
            step == if chunk.lines@.len() == 0 {
                BatchStep::Finished
            } else if self.replace is Some {
                BatchStep::Replace
            } else {
                BatchStep::Append
            },
    {
        if chunk.lines.len() == 0 {
            BatchStep::Finished
        } else if self.replace.is_some() {
            BatchStep::Replace
        } else {
            BatchStep::Append
        }
    }

    /// The cursor that is stored with a batch.
    pub fn cursor_for(
        &self,
        chunk: &TailChunk,
        observed_size: i64,
        observed_mtime_ms: Option<i64>,
    ) -> (c: ImportedCursor)
        ensures
            c.cursor_offset == chunk.cursor_offset,
            c.next_line_seq == chunk.next_line_seq,
            c.last_line_offset == (if chunk.last_line_offset is Some {
                chunk.last_line_offset->0
            } else {
                self.last_line_offset
            }),
            c.last_line_hash == (if chunk.last_line_hash is Some {
                chunk.last_line_hash
            } else {
                self.last_line_hash
            }),
            c.observed_size == observed_size,
            c.observed_mtime_ms == observed_mtime_ms,
    {
        let last_line_offset: i64 = match chunk.last_line_offset {
            Some(o) => o,
            None => self.last_line_offset,
        };
        let last_line_hash = if chunk.last_line_hash.is_some() {
            clone_opt(&chunk.last_line_hash)
        } else {
            clone_opt(&self.last_line_hash)
        };
        ImportedCursor {
            cursor_offset: chunk.cursor_offset,
            next_line_seq: chunk.next_line_seq,
            last_line_offset,
            last_line_hash,
            observed_size,
            observed_mtime_ms,
        }
    }

    /// The state after a batch was stored, and whether to read on. The file is
    /// only ever replaced by its first batch, and an incomplete line ends the
    /// import.
    pub fn after_batch(self, chunk: &TailChunk) -> (r: (ImportState, bool))
        ensures
            r.0.cursor_offset == chunk.cursor_offset,
            r.0.next_line_seq == chunk.next_line_seq,
            r.0.last_line_offset == (if chunk.last_line_offset is Some {
                chunk.last_line_offset->0
            } else {
                self.last_line_offset
            }),
            r.0.last_line_hash == (if chunk.last_line_hash is Some {
                chunk.last_line_hash
            } else {
                self.last_line_hash
            }),
            r.0.replace is None,
            r.1 == (chunk.trailing_bytes == 0),
    {
        let c = self.cursor_for(chunk, 0, None);
        (
            ImportState {
                cursor_offset: c.cursor_offset,
                next_line_seq: c.next_line_seq,
                last_line_offset: c.last_line_offset,
                last_line_hash: c.last_line_hash,
                replace: None,
            },
            chunk.trailing_bytes == 0,
        )
    }
}

/// The cursor that an import stores is where a later look will find the last
/// line: the bytes between the stored last line and the cursor have the stored
/// digest.
pub proof fn law_stored_cursor_is_verifiable(
    bytes: Seq<u8>,
    from: int,
    max_lines: nat,
    first: int,
    chunk: TailChunk,
)
    requires
        0 <= from <= bytes.len(),
        batch_spans(bytes, from, max_lines).len() > 0,
        holds_lines(bytes, batch_spans(bytes, from, max_lines), from, from, first, chunk),
    ensures
        chunk.last_line_offset is Some && chunk.last_line_hash is Some,
        0 <= chunk.last_line_offset->0 <= chunk.cursor_offset <= bytes.len(),
        chunk.last_line_hash->0@ == line_hash(
            bytes.subrange(chunk.last_line_offset->0 as int, chunk.cursor_offset as int),
        ),
{
    let all = line_spans(bytes, from);
    let spans = batch_spans(bytes, from, max_lines);
    lemma_line_spans(bytes, from);
    assert(spans.last() == all[spans.len() - 1]);
}

/// A path that is being imported.
#[derive(Debug)]
pub struct ImportingPath {
    pub path: String,
    /// Whether it changed while it was imported.
    pub pending: bool,
    /// Whether it has to be read from the start then.
    pub force_rescan: bool,
}

/// The paths that are being imported, each by one task.
#[derive(Debug)]
pub struct ImportingPaths {
    pub active: Vec<ImportingPath>,
}

/// Where `path` is among the active ones.
pub open spec fn active_at(active: Seq<ImportingPath>, path: Seq<char>) -> Option<int>
    decreases active.len(),
{
    if active.len() == 0 {
        None
    } else if active.last().path@ == path {
        Some(active.len() - 1)
    } else {
        active_at(active.drop_last(), path)
    }
}

/// What an import that ended leads to.
#[derive(Debug, Clone, Copy, PartialEq, Eq, Structural)]
pub enum AfterImport {
    /// The path changed meanwhile: import it again.
    Again { force_rescan: bool },
    Done,
}

/// Whether no path is active twice.
pub open spec fn one_task_each(active: Seq<ImportingPath>) -> bool {
    forall|i: int, j: int|
        0 <= i < j < active.len() ==> (#[trigger] active[i]).path@ != (#[trigger] active[j]).path@
}

/// What a request to import `path` makes of the active paths: where a task is at
/// it, the request is noted there; else it becomes active and the asker starts.
pub open spec fn begun(
    before: Seq<ImportingPath>,
    after: Seq<ImportingPath>,
    path: Seq<char>,
    force_rescan: bool,
    start: bool,
) -> bool {
    match active_at(before, path) {
        Some(p) => {
            &&& !start
            &&& after == before.update(
                p,
                ImportingPath {
                    path: before[p].path,
                    pending: true,
                    force_rescan: before[p].force_rescan || force_rescan,
                },
            )
        },
        None => {
            &&& start
            &&& after.len() == before.len() + 1
            &&& after.drop_last() == before
            &&& after.last().path@ == path
            &&& !after.last().pending
            &&& !after.last().force_rescan
        },
    }
}

/// What the end of an import of `path` makes of the active paths: a noted request
/// is taken and leads to another import, else the path is active no more.
pub open spec fn finished(
    before: Seq<ImportingPath>,
    after: Seq<ImportingPath>,
    path: Seq<char>,
    outcome: AfterImport,
) -> bool {
    let p = active_at(before, path)->0;
    if before[p].pending {
        &&& outcome == (AfterImport::Again { force_rescan: before[p].force_rescan })
        &&& after == before.update(
            p,
            ImportingPath { path: before[p].path, pending: false, force_rescan: false },
        )
    } else {
        &&& outcome == AfterImport::Done
        &&& after == before.remove(p)
    }
}

/// Where a path is among the active ones depends on their paths alone.
proof fn lemma_active_by_path(a: Seq<ImportingPath>, b: Seq<ImportingPath>, path: Seq<char>)
    requires
        a.len() == b.len(),
        forall|i: int| 0 <= i < a.len() ==> (#[trigger] a[i]).path@ == b[i].path@,
    ensures
        active_at(a, path) == active_at(b, path),
    decreases a.len(),
{
    if a.len() > 0 {
        assert(a.last() == a[a.len() - 1]);
        assert forall|i: int| 0 <= i < a.drop_last().len() implies (#[trigger] a.drop_last()[i]).path@
            == b.drop_last()[i].path@ by {
            assert(a.drop_last()[i] == a[i]);
        }
        lemma_active_by_path(a.drop_last(), b.drop_last(), path);
    }
}

/// A path is found exactly where it is active.
proof fn lemma_active_at(active: Seq<ImportingPath>, path: Seq<char>)
    ensures
        match active_at(active, path) {
            Some(p) => 0 <= p < active.len() && active[p].path@ == path,
            None => forall|i: int| 0 <= i < active.len() ==> (#[trigger] active[i]).path@ != path,
        },
    decreases active.len(),
{
    if active.len() > 0 && active.last().path@ != path {
        lemma_active_at(active.drop_last(), path);
        if active_at(active, path) is None {
            assert forall|i: int| 0 <= i < active.len() implies (#[trigger] active[i]).path@
                != path by {
                if i < active.len() - 1 {
                    assert(active[i] == active.drop_last()[i]);
                }
            }
        }
    }
}

/// A change that comes in while its path is imported is never lost: the import
/// that is under way is followed by another one, from the start where that was
/// asked for, and the path stays active for it.
pub proof fn law_change_during_import_is_kept(
    before: Seq<ImportingPath>,
    noted: Seq<ImportingPath>,
    after: Seq<ImportingPath>,
    path: Seq<char>,
    force_rescan: bool,
    outcome: AfterImport,
)
    requires
        begun(before, noted, path, force_rescan, false),
        finished(noted, after, path, outcome),
    ensures
        outcome matches AfterImport::Again { force_rescan: forced } && (force_rescan ==> forced),
        active_at(after, path) is Some,
{
    lemma_active_at(before, path);
    lemma_active_by_path(before, noted, path);
    lemma_active_by_path(noted, after, path);
}

/// One task at a time imports a path: while it is active nobody else is told to
/// start.
pub proof fn law_one_import_per_path(
    before: Seq<ImportingPath>,
    active: Seq<ImportingPath>,
    after: Seq<ImportingPath>,
    path: Seq<char>,
    first_force: bool,
    force_rescan: bool,
    start: bool,
)
    requires
        begun(before, active, path, first_force, true),
        begun(active, after, path, force_rescan, start),
    ensures
        !start,
{
    assert(active.last().path@ == path);
}

/// Once an import is done, its path is active no more.
pub proof fn law_done_import_frees_its_path(
    before: Seq<ImportingPath>,
    after: Seq<ImportingPath>,
    path: Seq<char>,
)
    requires
        one_task_each(before),
        active_at(before, path) is Some,
        finished(before, after, path, AfterImport::Done),
    ensures
        active_at(after, path) is None,
{
    lemma_active_at(before, path);
    lemma_active_at(after, path);
    let p = active_at(before, path)->0;
    if active_at(after, path) is Some {
        let q = active_at(after, path)->0;
        let k = if q < p { q } else { q + 1 };
        assert(after[q] == before[k]);
        assert(before[k].path@ == before[p].path@);
    }
}

impl ImportingPaths {
    pub open spec fn valid(self) -> bool {
        one_task_each(self.active@)
    }

    pub fn new() -> (p: ImportingPaths)
        ensures
            p.valid(),
            p.active@.len() == 0,
    {
        ImportingPaths { active: Vec::new() }
    }

    fn position(&self, path: &str) -> (r: Option<usize>)
        ensures
            match r {
                Some(p) => p < self.active@.len() && self.active@[p as int].path@ == path@
                    && active_at(self.active@, path@) == Some(p as int),
                None => active_at(self.active@, path@) is None && forall|i: int|
                    0 <= i < self.active@.len() ==> (#[trigger] self.active@[i]).path@ != path@,
            },
    {
        let wanted = path.to_owned();
        let mut n: usize = self.active.len();
        proof {
            assert(self.active@.take(n as int) =~= self.active@);
        }
        while n > 0
            invariant
                wanted@ == path@,
                n <= self.active@.len(),
                active_at(self.active@, path@) == active_at(self.active@.take(n as int), path@),
                forall|i: int|
                    n <= i < self.active@.len() ==> (#[trigger] self.active@[i]).path@ != path@,
            decreases n,
        {
            proof {
                assert(self.active@.take(n as int).last() == self.active@[n - 1]);
                assert(self.active@.take(n as int).drop_last() =~= self.active@.take(n - 1));
            }
            if self.active[n - 1].path == wanted {
                return Some(n - 1);
            }
            n = n - 1;
        }
        None
    }

    /// Whether the caller is to import `path`. Where another task is at it, the
    /// request is remembered and that task does it again.
    pub fn begin(&mut self, path: &str, force_rescan: bool) -> (start: bool)
        requires
            old(self).valid(),
        ensures
            final(self).valid(),
            begun(old(self).active@, final(self).active@, path@, force_rescan, start),
    {
        let ghost before = self.active@;
        match self.position(path) {
            Some(p) => {
                self.active[p].pending = true;
                let forced = self.active[p].force_rescan || force_rescan;
                self.active[p].force_rescan = forced;
                proof {
                    let noted = ImportingPath {
                        path: before[p as int].path,
                        pending: true,
                        force_rescan: forced,
                    };
                    assert(self.active@ =~= before.update(p as int, noted));
                }
                false
            },
            None => {
                self.active.push(
                    ImportingPath { path: path.to_owned(), pending: false, force_rescan: false },
                );
                proof {
                    assert(self.active@.drop_last() =~= before);
                }
                true
            },
        }
    }

    /// An import of `path` ended. Nothing that changed meanwhile is forgotten:
    /// the path only stops being active where no request came in.
    pub fn finish(&mut self, path: &str) -> (after: AfterImport)
        requires
            old(self).valid(),
            active_at(old(self).active@, path@) is Some,
        ensures
            final(self).valid(),
            finished(old(self).active@, final(self).active@, path@, after),
    {
        let ghost before = self.active@;
        match self.position(path) {
            Some(p) => {
                if self.active[p].pending {
                    let force_rescan = self.active[p].force_rescan;
                    self.active[p].pending = false;
                    self.active[p].force_rescan = false;
                    proof {
                        let taken = ImportingPath {
                            path: before[p as int].path,
                            pending: false,
                            force_rescan: false,
                        };
                        assert(self.active@ =~= before.update(p as int, taken));
                    }
                    AfterImport::Again { force_rescan }
                } else {
                    self.active.remove(p);
                    proof {
                        let now = self.active@;
                        assert(now == before.remove(p as int));
                        assert forall|i: int, j: int| 0 <= i < j < now.len() implies (
                        #[trigger] now[i]).path@ != (#[trigger] now[j]).path@ by {
                            let a = if i < p { i } else { i + 1 };
                            let b = if j < p { j } else { j + 1 };
                            assert(now[i] == before[a]);
                            assert(now[j] == before[b]);
                        }
                    }
                    AfterImport::Done
                }
            },
            None => AfterImport::Done,
        }
    }
}

/// The revision of each session's feed. It grows where what was sent already is
/// no longer right.
#[derive(Debug)]
pub struct Revisions {
    raised: HashMap<u128, u64>,
}

impl Revisions {
    /// The revision of a session: 0 until it is raised.
    pub closed spec fn of(self, id: u128) -> u64 {
        if self.raised@.contains_key(id) {
            self.raised@[id]
        } else {
            0
        }
    }

    pub fn new() -> (r: Revisions)
        ensures
            forall|id: u128| #[trigger] r.of(id) == 0,
    {
        Revisions { raised: HashMap::new() }
    }

    /// The revision of a session.
    pub fn revision(&self, id: u128) -> (r: u64)
        ensures
            r == self.of(id),
    {
        broadcast use vstd::std_specs::hash::group_hash_axioms;

        match self.raised.get(&id) {
            Some(revision) => *revision,
            None => 0,
        }
    }

    /// Raises the revision of a session; no other session's changes.
    pub fn invalidate(&mut self, id: u128) -> (r: u64)
        requires
            old(self).of(id) < u64::MAX,
        ensures
            r == old(self).of(id) + 1,
            forall|other: u128| #[trigger]
                final(self).of(other) == if other == id {
                    r
                } else {
                    old(self).of(other)
                },
    {
        broadcast use vstd::std_specs::hash::group_hash_axioms;

        let next: u64 = self.revision(id) + 1;
        self.raised.insert(id, next);
        next
    }
}

/// What readers of feeds are told.
#[derive(Debug, Clone, Copy, PartialEq, Eq, Structural)]
pub enum NativeFeedUpdate {
    RecordsAppended { session_id: u128, seq: i64, revision: u64 },
    RevisionInvalidated { session_id: u128, revision: u64 },
}

/// The updates that announce how far each session's records have come.
pub fn published_updates(maxima: &Vec<(u128, i64)>, revisions: &Revisions) -> (out: Vec<
    NativeFeedUpdate,
>)
    ensures
        out@.len() == maxima@.len(),
        forall|i: int|
            0 <= i < out@.len() ==> #[trigger] out@[i] == (NativeFeedUpdate::RecordsAppended {
                session_id: maxima@[i].0,
                seq: maxima@[i].1,
                revision: revisions.of(maxima@[i].0),
            }),
{
    let mut out: Vec<NativeFeedUpdate> = Vec::new();
    for i in 0..maxima.len()
        invariant
            out@.len() == i,
            forall|j: int|
                0 <= j < i ==> #[trigger] out@[j] == (NativeFeedUpdate::RecordsAppended {
                    session_id: maxima@[j].0,
                    seq: maxima@[j].1,
                    revision: revisions.of(maxima@[j].0),
                }),
    {
        let (session_id, seq) = maxima[i];
        out.push(
            NativeFeedUpdate::RecordsAppended {
                session_id,
                seq,
                revision: revisions.revision(session_id),
            },
        );
    }
    out
}

/// A change of the session that a conversation belongs to.
#[derive(Debug, Clone, Copy, PartialEq, Eq, Structural)]
pub struct LinkMutation {
    pub previous_session_id: Option<u128>,
    pub session_id: u128,
    pub republished_outbox: u64,
}

/// The sessions whose feed a change of a link makes wrong: the one that it
/// leaves and the one that it comes to, where they differ.
pub fn invalidated_by(m: LinkMutation) -> (r: Vec<u128>)
    ensures
        r@ == if m.previous_session_id == Some(m.session_id) {
            Seq::empty()
        } else {
            match m.previous_session_id {
                Some(p) => seq![p, m.session_id],
                None => seq![m.session_id],
            }
        },
{
    let mut out: Vec<u128> = Vec::new();
    match m.previous_session_id {
        Some(p) => {
            if p == m.session_id {
                return out;
            }
            out.push(p);
        },
        None => {},
    }
    out.push(m.session_id);
    out
}

/// Whether a change of a link has to wake the publisher.
pub fn wakes_publisher(m: LinkMutation) -> (r: bool)
    ensures
        r == (m.republished_outbox > 0),
{
    m.republished_outbox > 0
}

/// What decides whether a transcript can be assigned to a session by hand.
#[derive(Debug)]
pub struct AssignFacts {
    pub session_id: u128,
    /// The session's workspace, if the session exists.
    pub workspace_id: Option<u128>,
    pub workspace_exists: bool,
    /// Where the session works.
    pub effective_dir: Option<String>,
    /// The workspace that each file of the conversation was found in.
    pub found_in: Vec<Option<u128>>,
    /// Whether the conversation belongs to a session already.
    pub linked: bool,
}

/// Whether one of the files was found in the workspace.
pub open spec fn found_in_workspace(found_in: Seq<Option<u128>>, workspace: u128) -> bool {
    exists|i: int| 0 <= i < found_in.len() && #[trigger] found_in[i] == Some(workspace)
}

/// Decides whether a transcript can be assigned by hand, and says where the
/// session works. Only a conversation that belongs to nobody, and was found in
/// the session's own workspace, can be.
pub fn may_assign(f: &AssignFacts, sid: &str) -> (r: Result<String, ClaudeTranscriptIngestError>)
    ensures
        match f.workspace_id {
            None => r == Err::<String, _>(ClaudeTranscriptIngestError::SessionNotFound(f.session_id)),
            Some(w) => if !f.workspace_exists {
                r == Err::<String, _>(ClaudeTranscriptIngestError::WorkspaceNotFound)
            } else if f.effective_dir is None {
                r == Err::<String, _>(ClaudeTranscriptIngestError::WorkspacePathMissing(w))
            } else if f.linked || !found_in_workspace(f.found_in@, w) {
                r is Err && (r->Err_0 matches ClaudeTranscriptIngestError::NotQuarantined(s) && s@ == sid@)
            } else {
                r == Ok::<String, ClaudeTranscriptIngestError>(f.effective_dir->0)
            },
        },
{
    let workspace: u128 = match f.workspace_id {
        Some(w) => w,
        None => return Err(ClaudeTranscriptIngestError::SessionNotFound(f.session_id)),
    };
    if !f.workspace_exists {
        return Err(ClaudeTranscriptIngestError::WorkspaceNotFound);
    }
    let dir = match &f.effective_dir {
        Some(d) => d.clone(),
        None => return Err(ClaudeTranscriptIngestError::WorkspacePathMissing(workspace)),
    };
    let mut found = false;
    for i in 0..f.found_in.len()
        invariant
            found == exists|j: int| 0 <= j < i && #[trigger] f.found_in@[j] == Some(workspace),
    {
        if let Some(w) = f.found_in[i] {
            if w == workspace {
                found = true;
                proof {
                    assert(f.found_in@[i as int] == Some(workspace));
                }
            }
        }
    }
    if !found || f.linked {
        return Err(ClaudeTranscriptIngestError::NotQuarantined(sid.to_owned()));
    }
    Ok(dir)
}

/// Where the conversations of a workspace run that belong to nobody: where its
/// latest session works, else at its root.
pub fn unassigned_cwd(session_dir: Option<String>, root: &Option<String>) -> (cwd: Option<String>)
    ensures
        cwd == if session_dir is Some {
            session_dir
        } else if root is Some && root->0@.len() > 0 {
            *root
        } else {
            None
        },
{
    match session_dir {
        Some(d) => Some(d),
        None => match root {
            Some(r) => {
                if r.as_str().is_empty() {
                    None
                } else {
                    Some(r.clone())
                }
            },
            None => None,
        },
    }
}

/// A conversation that belongs to nobody.
#[derive(Debug)]
pub struct UnassignedCliSession {
    pub claude_session_id: String,
    pub cwd: String,
    pub dir_path: String,
    pub file_name: String,
    pub mtime_ms: Option<i64>,
    pub first_prompt_snippet: Option<String>,
    pub kind: CliSessionKind,
}

/// Whether a workspace's transcripts are looked after, and where the workspace
/// works: it is not archived, its directory is there, and it has a session.
pub fn tracked_dir(
    archived: bool,
    worktree_deleted: bool,
    has_session: bool,
    effective_dir: Option<String>,
) -> (dir: Option<String>)
    ensures
        dir == if archived || worktree_deleted || !has_session {
            None
        } else {
            effective_dir
        },
{
    if archived || worktree_deleted || !has_session {
        None
    } else {
        effective_dir
    }
}

/// What is known of a record's writer.
#[derive(Debug)]
pub struct WriterFacts {
    /// Whether the record is linked to an execution.
    pub linked: bool,
    /// Whether it is bound to a turn or to a queued message.
    pub bound: bool,
    /// Whether an executor is running the session; absent where that could not
    /// be read.
    pub executor_running: Option<bool>,
    pub report: ProbeReport,
}

/// Whether a record must have been written by somebody else: nobody here
/// claims it, and it was seen that no executor runs and no agent is in the
/// session's pane. Whatever could not be seen speaks against it.
pub fn is_foreign_writer(f: &WriterFacts) -> (r: bool)
    ensures
        r == (!f.linked && !f.bound && f.executor_running == Some(false)
            && !f.report.probe_failed && !f.report.pane_session_exists),
{
    let idle = match f.executor_running {
        Some(false) => true,
        _ => false,
    };
    !f.linked && !f.bound && idle && !f.report.probe_failed && !f.report.pane_session_exists
}

/// Whether a new conversation belongs to the pane that was launched fresh in
/// its directory: the pane still waits for its conversation, its agent runs,
/// resumes none, and is the only one there.
pub fn binds_fresh_pane(
    bound_via: CliPaneBoundVia,
    claude_session_id: &Option<String>,
    released: bool,
    report: &ProbeReport,
) -> (r: bool)
    ensures
        r == (bound_via == CliPaneBoundVia::CliFresh && claude_session_id is None && !released
            && !report.probe_failed && report.pane_session_exists && report.agent_running == Some(
            true,
        ) && report.sid_evidence is NoResumeArg && report.only_active_claude_in_cwd == Some(true)),
{
    if bound_via != CliPaneBoundVia::CliFresh || claude_session_id.is_some() || released {
        return false;
    }
    if report.probe_failed || !report.pane_session_exists {
        return false;
    }
    let running = match report.agent_running {
        Some(true) => true,
        _ => false,
    };
    let fresh = match report.sid_evidence {
        SidEvidence::NoResumeArg => true,
        _ => false,
    };
    let alone = match report.only_active_claude_in_cwd {
        Some(true) => true,
        _ => false,
    };
    running && fresh && alone
}

/// A watcher of a directory.
#[derive(Debug)]
pub struct Watcher {
    pub path: String,
    pub finished: bool,
}

/// Whether `path` is one of `list`.
pub open spec fn listed(list: Seq<String>, path: Seq<char>) -> bool {
    texts(list).contains(path)
}

fn is_listed(list: &Vec<String>, path: &String) -> (r: bool)
    ensures
        r == listed(list@, path@),
{
    for i in 0..list.len()
        invariant
            forall|j: int| 0 <= j < i ==> #[trigger] texts(list@)[j] != path@,
    {
        if list[i] == *path {
            proof {
                assert(texts(list@)[i as int] == path@);
            }
            return true;
        }
        proof {
            assert(texts(list@)[i as int] == list@[i as int]@);
        }
    }
    false
}

/// The watchers that end: those whose directory is no longer wanted, and those
/// that ended by themselves.
pub open spec fn ended_watchers(running: Seq<Watcher>, wanted: Seq<String>) -> Seq<Seq<char>>
    decreases running.len(),
{
    if running.len() == 0 {
        Seq::empty()
    } else {
        let head = ended_watchers(running.drop_last(), wanted);
        let w = running.last();
        if w.finished || !listed(wanted, w.path@) {
            head.push(w.path@)
        } else {
            head
        }
    }
}

/// The directories that count as badly watched from now on: those that did, are
/// still wanted, and whose watcher goes on.
pub open spec fn still_degraded(
    degraded: Seq<String>,
    ended: Seq<Seq<char>>,
    wanted: Seq<String>,
) -> Seq<Seq<char>>
    decreases degraded.len(),
{
    if degraded.len() == 0 {
        Seq::empty()
    } else {
        let head = still_degraded(degraded.drop_last(), ended, wanted);
        let d = degraded.last()@;
        if !ended.contains(d) && listed(wanted, d) {
            head.push(d)
        } else {
            head
        }
    }
}

/// What a round of looking after watchers does.
#[derive(Debug)]
pub struct WatcherPlan {
    /// The watchers to end.
    pub end: Vec<String>,
    /// The directories that count as badly watched from now on.
    pub degraded: Vec<String>,
}

/// Plans a round of looking after watchers. With `start` off nothing is wanted.
pub fn plan_watchers(
    desired: &Vec<String>,
    start: bool,
    running: &Vec<Watcher>,
    degraded: &Vec<String>,
) -> (plan: WatcherPlan)
    ensures
        ({
            let wanted = if start {
                desired@
            } else {
                Seq::empty()
            };
            &&& texts(plan.end@) == ended_watchers(running@, wanted)
            &&& texts(plan.degraded@) == still_degraded(
                degraded@,
                ended_watchers(running@, wanted),
                wanted,
            )
        }),
{
    let none: Vec<String> = Vec::new();
    let wanted: &Vec<String> = if start {
        desired
    } else {
        &none
    };
    let mut end: Vec<String> = Vec::new();
    proof {
        assert(texts(end@) =~= Seq::<Seq<char>>::empty());
    }
    for i in 0..running.len()
        invariant
            texts(end@) == ended_watchers(running@.take(i as int), wanted@),
    {
        proof {
            assert(running@.take(i + 1).drop_last() =~= running@.take(i as int));
            assert(running@.take(i + 1).last() == running@[i as int]);
        }
        if running[i].finished || !is_listed(wanted, &running[i].path) {
            let path = running[i].path.clone();
            proof {
                lemma_texts_push(end@, path);
            }
            end.push(path);
        }
    }
    proof {
        assert(running@.take(running@.len() as int) =~= running@);
    }
    let mut kept: Vec<String> = Vec::new();
    proof {
        assert(texts(kept@) =~= Seq::<Seq<char>>::empty());
    }
    for i in 0..degraded.len()
        invariant
            texts(kept@) == still_degraded(degraded@.take(i as int), texts(end@), wanted@),
    {
        proof {
            assert(degraded@.take(i + 1).drop_last() =~= degraded@.take(i as int));
            assert(degraded@.take(i + 1).last() == degraded@[i as int]);
        }
        if !is_listed(&end, &degraded[i]) && is_listed(wanted, &degraded[i]) {
            let path = degraded[i].clone();
            proof {
                lemma_texts_push(kept@, path);
            }
            kept.push(path);
        }
    }
    proof {
        assert(degraded@.take(degraded@.len() as int) =~= degraded@);
    }
    WatcherPlan { end, degraded: kept }
}

/// What a watcher reports.
#[derive(Debug, Clone, Copy, PartialEq, Eq, Structural)]
pub enum WatchEvent {
    /// No watcher could be had.
    Unavailable,
    /// The watcher is up.
    Ready,
    Changed,
    Failed,
    Ended,
}

/// What is done about it.
#[derive(Debug, Clone, Copy, PartialEq, Eq, Structural)]
pub struct WatchStep {
    /// Whether the directory counts as badly watched from now on.
    pub degraded: bool,
    /// Whether to scan the directory, and whether from the start.
    pub scan: Option<bool>,
    /// Whether the watcher ends.
    pub stop: bool,
}

/// Decides what is done about what a watcher reports.
pub fn watch_step(event: WatchEvent) -> (s: WatchStep)
    ensures
        s == match event {
            WatchEvent::Unavailable => WatchStep { degraded: true, scan: None, stop: true },
            WatchEvent::Ready => WatchStep { degraded: false, scan: None, stop: false },
            WatchEvent::Changed => WatchStep { degraded: false, scan: Some(false), stop: false },
            WatchEvent::Failed => WatchStep { degraded: true, scan: Some(true), stop: true },
            WatchEvent::Ended => WatchStep { degraded: true, scan: None, stop: true },
        },
{
    match event {
        WatchEvent::Unavailable => WatchStep { degraded: true, scan: None, stop: true },
        WatchEvent::Ready => WatchStep { degraded: false, scan: None, stop: false },
        WatchEvent::Changed => WatchStep { degraded: false, scan: Some(false), stop: false },
        WatchEvent::Failed => WatchStep { degraded: true, scan: Some(true), stop: true },
        WatchEvent::Ended => WatchStep { degraded: true, scan: None, stop: true },
    }
}

/// A directory whose transcripts are looked after, its workspace, and where the
/// workspace works.
#[derive(Debug)]
pub struct TrackedDirectory {
    pub path: String,
    pub workspace_id: u128,
    pub cwd: String,
}

/// The directories whose transcripts are looked after.
#[derive(Debug)]
pub struct Directories {
    pub entries: Vec<TrackedDirectory>,
}

/// Where a directory is in the list.
pub open spec fn directory_at(entries: Seq<TrackedDirectory>, path: Seq<char>) -> Option<int>
    decreases entries.len(),
{
    if entries.len() == 0 {
        None
    } else if entries.last().path@ == path {
        Some(entries.len() - 1)
    } else {
        directory_at(entries.drop_last(), path)
    }
}

proof fn lemma_directory_at(entries: Seq<TrackedDirectory>, path: Seq<char>)
    ensures
        match directory_at(entries, path) {
            Some(p) => 0 <= p < entries.len() && entries[p].path@ == path,
            None => forall|i: int| 0 <= i < entries.len() ==> (#[trigger] entries[i]).path@ != path,
        },
    decreases entries.len(),
{
    if entries.len() > 0 && entries.last().path@ != path {
        lemma_directory_at(entries.drop_last(), path);
        if directory_at(entries, path) is None {
            assert forall|i: int| 0 <= i < entries.len() implies (#[trigger] entries[i]).path@
                != path by {
                if i < entries.len() - 1 {
                    assert(entries[i] == entries.drop_last()[i]);
                }
            }
        }
    }
}

/// In a list without duplicates, a path is found wherever it stands.
proof fn lemma_directory_found(entries: Seq<TrackedDirectory>, path: Seq<char>, p: int)
    requires
        each_directory_once(entries),
        0 <= p < entries.len(),
        entries[p].path@ == path,
    ensures
        directory_at(entries, path) == Some(p),
{
    lemma_directory_at(entries, path);
    if directory_at(entries, path) != Some(p) {
        let q = directory_at(entries, path)->0;
        assert(entries[q].path@ == entries[p].path@);
    }
}

/// Whether no directory stands in the list twice.
pub open spec fn each_directory_once(entries: Seq<TrackedDirectory>) -> bool {
    forall|i: int, j: int|
        0 <= i < j < entries.len() ==> (#[trigger] entries[i]).path@ != (
        #[trigger] entries[j]).path@
}

impl Directories {
    pub open spec fn valid(self) -> bool {
        each_directory_once(self.entries@)
    }

    /// What is known of a directory.
    pub open spec fn of(self, path: Seq<char>) -> Option<TrackedDirectory> {
        match directory_at(self.entries@, path) {
            Some(p) => Some(self.entries@[p]),
            None => None,
        }
    }

    pub fn new() -> (d: Directories)
        ensures
            d.valid(),
            forall|path: Seq<char>| #[trigger] d.of(path) is None,
    {
        Directories { entries: Vec::new() }
    }

    fn position(&self, path: &str) -> (r: Option<usize>)
        ensures
            match r {
                Some(p) => directory_at(self.entries@, path@) == Some(p as int) && p
                    < self.entries@.len() && self.entries@[p as int].path@ == path@,
                None => directory_at(self.entries@, path@) is None,
            },
    {
        let wanted = path.to_owned();
        let mut n: usize = self.entries.len();
        proof {
            assert(self.entries@.take(n as int) =~= self.entries@);
        }
        while n > 0
            invariant
                wanted@ == path@,
                n <= self.entries@.len(),
                directory_at(self.entries@, path@) == directory_at(
                    self.entries@.take(n as int),
                    path@,
                ),
            decreases n,
        {
            proof {
                assert(self.entries@.take(n as int).last() == self.entries@[n - 1]);
                assert(self.entries@.take(n as int).drop_last() =~= self.entries@.take(n - 1));
            }
            if self.entries[n - 1].path == wanted {
                return Some(n - 1);
            }
            n = n - 1;
        }
        None
    }

    /// What is known of a directory.
    pub fn find(&self, path: &str) -> (r: Option<&TrackedDirectory>)
        ensures
            match r {
                Some(d) => self.of(path@) == Some(*d),
                None => self.of(path@) is None,
            },
    {
        match self.position(path) {
            Some(p) => Some(&self.entries[p]),
            None => None,
        }
    }

    /// Looks after a directory. What was known of it before is replaced, and no
    /// other directory changes.
    pub fn track(&mut self, directory: TrackedDirectory)
        requires
            old(self).valid(),
        ensures
            final(self).valid(),
            forall|path: Seq<char>| #[trigger]
                final(self).of(path) == if path == directory.path@ {
                    Some(directory)
                } else {
                    old(self).of(path)
                },
    {
        let ghost before = self.entries@;
        let ghost added = directory;
        proof {
            lemma_directory_at(before, directory.path@);
        }
        match self.position(directory.path.as_str()) {
            Some(p) => {
                self.entries.set(p, directory);
                proof {
                    assert(self.entries@ == before.update(p as int, added));
                }
            },
            None => {
                self.entries.push(directory);
                proof {
                    assert(self.entries@ == before.push(added));
                }
            },
        }
        proof {
            let after = self.entries@;
            assert forall|i: int, j: int| 0 <= i < j < after.len() implies (
            #[trigger] after[i]).path@ != (#[trigger] after[j]).path@ by {
                if j < before.len() {
                    assert(before[i].path@ != before[j].path@);
                } else {
                    assert(after[i] == before[i]);
                }
            }
            assert forall|path: Seq<char>| #[trigger]
                self.of(path) == if path == added.path@ {
                    Some(added)
                } else {
                    old(self).of(path)
                } by {
                lemma_directory_at(before, path);
                lemma_directory_at(after, path);
                if path == added.path@ {
                    let p = match directory_at(before, path) {
                        Some(p) => p,
                        None => before.len() as int,
                    };
                    assert(after[p] == added);
                    lemma_directory_found(after, path, p);
                } else if directory_at(before, path) is Some {
                    let p = directory_at(before, path)->0;
                    assert(after[p] == before[p]);
                    lemma_directory_found(after, path, p);
                } else if directory_at(after, path) is Some {
                    let p = directory_at(after, path)->0;
                    if p < before.len() {
                        assert(before[p].path@ == after[p].path@);
                    }
                }
            }
        }
    }
}

/// Whether one of a workspace's own directories counts as badly watched.
pub fn watch_degraded(
    degraded: &Vec<String>,
    directories: &Directories,
    workspace_id: u128,
) -> (r: bool)
    ensures
        r == exists|i: int|
            0 <= i < directories.entries@.len() && (
            #[trigger] directories.entries@[i]).workspace_id == workspace_id && listed(
                degraded@,
                directories.entries@[i].path@,
            ),
{
    for i in 0..directories.entries.len()
        invariant
            forall|j: int|
                0 <= j < i ==> !((#[trigger] directories.entries@[j]).workspace_id == workspace_id
                    && listed(degraded@, directories.entries@[j].path@)),
    {
        if directories.entries[i].workspace_id == workspace_id && is_listed(
            degraded,
            &directories.entries[i].path,
        ) {
            return true;
        }
    }
    false
}

/// Each of `ids` once, as it is first met.
pub open spec fn distinct_ids(ids: Seq<u128>) -> Seq<u128>
    decreases ids.len(),
{
    if ids.len() == 0 {
        Seq::empty()
    } else {
        let head = distinct_ids(ids.drop_last());
        if head.contains(ids.last()) {
            head
        } else {
            head.push(ids.last())
        }
    }
}

/// The files that records come from, each once, in the order of the records.
pub fn distinct_files(file_ids: &Vec<u128>) -> (out: Vec<u128>)
    ensures
        out@ == distinct_ids(file_ids@),
{
    let mut out: Vec<u128> = Vec::new();
    for i in 0..file_ids.len()
        invariant
            out@ == distinct_ids(file_ids@.take(i as int)),
    {
        proof {
            assert(file_ids@.take(i + 1).drop_last() =~= file_ids@.take(i as int));
            assert(file_ids@.take(i + 1).last() == file_ids@[i as int]);
        }
        let id: u128 = file_ids[i];
        let mut known = false;
        for k in 0..out.len()
            invariant
                known == exists|j: int| 0 <= j < k && #[trigger] out@[j] == id,
        {
            if out[k] == id {
                known = true;
                proof {
                    assert(out@[k as int] == id);
                }
            }
        }
        if !known {
            out.push(id);
        }
    }
    proof {
        assert(file_ids@.take(file_ids@.len() as int) =~= file_ids@);
    }
    out
}

/// What is stored of a transcript that belongs to nobody.
#[derive(Debug)]
pub struct UnassignedFile {
    pub claude_session_id: String,
    pub dir_path: String,
    pub file_name: String,
    pub mtime_ms: Option<i64>,
}

/// The conversation that a transcript that belongs to nobody holds.
pub fn unassigned_session(file: UnassignedFile, cwd: String, preview: SessionPreview) -> (u:
    UnassignedCliSession)
    ensures
        u.claude_session_id == file.claude_session_id,
        u.cwd == cwd,
        u.dir_path == file.dir_path,
        u.file_name == file.file_name,
        u.mtime_ms == file.mtime_ms,
        u.first_prompt_snippet == preview.first_prompt_snippet,
        u.kind == preview.kind,
{
    UnassignedCliSession {
        claude_session_id: file.claude_session_id,
        cwd,
        dir_path: file.dir_path,
        file_name: file.file_name,
        mtime_ms: file.mtime_ms,
        first_prompt_snippet: preview.first_prompt_snippet,
        kind: preview.kind,
    }
}

/// A directory's key keeps its letters, digits and hyphens where they stand, and
/// has a hyphen in place of everything else.
pub proof fn law_slug_keeps_what_is_plain(cwd: Seq<char>, i: int)
    requires
        0 <= i < cwd.len(),
    ensures
        'a' <= cwd[i] <= 'z' || 'A' <= cwd[i] <= 'Z' || '0' <= cwd[i] <= '9' ==> project_slug(
            cwd,
        )[i] == cwd[i],
        !('a' <= cwd[i] <= 'z' || 'A' <= cwd[i] <= 'Z' || '0' <= cwd[i] <= '9') ==> project_slug(
            cwd,
        )[i] == '-',
{
}

/// A main transcript is a file whose name is something before `.jsonl` and does
/// not start as a sub-agent's does.
pub proof fn law_transcripts_are_told_by_name(name: Seq<char>)
    ensures
        transcript_name(name) <==> (exists|stem: Seq<char>|
            stem.len() > 0 && name == #[trigger] (stem + ".jsonl"@)) && !(exists|rest: Seq<char>|
            name == #[trigger] ("agent-"@ + rest)),
{
    let end = ".jsonl"@;
    let start = "agent-"@;
    if exists|stem: Seq<char>| stem.len() > 0 && name == #[trigger] (stem + end) {
        let stem = choose|stem: Seq<char>| stem.len() > 0 && name == #[trigger] (stem + end);
        assert(name.subrange(name.len() - end.len(), name.len() as int) =~= end);
    }
    if finishes_with(name, end) && name.len() > end.len() {
        let stem = name.take(name.len() - end.len());
        assert(name =~= stem + end) by {
            assert forall|k: int| 0 <= k < name.len() implies name[k] == (stem + end)[k] by {
                if k >= stem.len() {
                    assert(name.subrange(name.len() - end.len(), name.len() as int)[k - stem.len()]
                        == end[k - stem.len()]);
                }
            }
        }
    }
    if exists|rest: Seq<char>| name == #[trigger] (start + rest) {
        let rest = choose|rest: Seq<char>| name == #[trigger] (start + rest);
        assert(name.subrange(0, start.len() as int) =~= start);
    }
    if begins_with(name, start) {
        let rest = name.skip(start.len() as int);
        assert(name =~= start + rest) by {
            assert forall|k: int| 0 <= k < name.len() implies name[k] == (start + rest)[k] by {
                if k < start.len() {
                    assert(name.subrange(0, start.len() as int)[k] == start[k]);
                }
            }
        }
    }
}

proof fn lemma_last_dot(name: Seq<char>, n: int, dot: int)
    requires
        0 <= dot < n <= name.len(),
        name[dot] == '.',
        forall|k: int| dot < k < n ==> name[k] != '.',
    ensures
        last_dot(name, n) == dot,
    decreases n,
{
    if n - 1 > dot {
        lemma_last_dot(name, n - 1, dot);
    }
}

/// A conversation's identifier is its file's name up to the last dot, so the file
/// that is named after a conversation leads back to it.
pub proof fn law_file_name_leads_back_to_its_conversation(stem: Seq<char>, extension: Seq<char>)
    requires
        stem.len() > 0,
        !extension.contains('.'),
    ensures
        stem_of(stem.push('.') + extension) == stem,
        stem_of(stem + ".jsonl"@) == stem,
{
    let name = stem.push('.') + extension;
    let n = stem.len() as int;
    assert forall|k: int| n < k < name.len() implies name[k] != '.' by {
        assert(name[k] == extension[k - n - 1]);
    }
    lemma_last_dot(name, name.len() as int, n);
    assert(name.take(n) =~= stem);
    reveal_strlit(".jsonl");
    let file = stem + ".jsonl"@;
    lemma_last_dot(file, file.len() as int, n);
    assert(file.take(n) =~= stem);
}

/// A short prompt is shown whole; of a longer one the first 160 characters and an
/// ellipsis.
pub proof fn law_snippet_is_the_start_of_the_prompt(prompt: Seq<char>)
    ensures
        prompt.len() <= 160 ==> snippet_of(prompt) == prompt,
        prompt.len() > 160 ==> {
            let s = snippet_of(prompt);
            &&& s.len() == 161
            &&& s[160] == '\u{2026}'
            &&& forall|i: int| 0 <= i < 160 ==> #[trigger] s[i] == prompt[i]
        },
{
}

proof fn lemma_reach(lines: Seq<Option<PreviewLine>>, k: int)
    requires
        0 <= k <= lines.len(),
    ensures
        0 <= preview_reach(lines, k) <= k,
        forall|j: int| 0 <= j < preview_reach(lines, k) - 1 ==> !is_typed(#[trigger] lines[j]),
        preview_reach(lines, k) < k ==> preview_reach(lines, k) >= 1 && is_typed(
            lines[preview_reach(lines, k) - 1],
        ),
    decreases k,
{
    if k > 0 {
        lemma_reach(lines, k - 1);
    }
}

proof fn lemma_entrypoint_within(lines: Seq<Option<PreviewLine>>, n: int)
    requires
        0 <= n <= lines.len(),
    ensures
        entrypoint_within(lines, n) is None ==> forall|i: int|
            0 <= i < n ==> (#[trigger] lines[i] is None || lines[i]->0.entrypoint is None),
        entrypoint_within(lines, n) is Some ==> exists|i: int| #[trigger]
            names_first(lines, n, i, entrypoint_within(lines, n)->0),
    decreases n,
{
    if n > 0 {
        lemma_entrypoint_within(lines, n - 1);
        let now = entrypoint_within(lines, n);
        if entrypoint_within(lines, n - 1) is Some {
            assert(now == entrypoint_within(lines, n - 1));
            let i = choose|i: int| #[trigger] names_first(lines, n - 1, i, now->0);
            assert(names_first(lines, n, i, now->0));
        } else if names_entrypoint(lines[n - 1]) {
            assert(now == Some(lines[n - 1]->0.entrypoint->0@));
            assert(names_first(lines, n, n - 1, now->0));
        }
    }
}

/// Whether line `i`, among the first `n`, is the first that names an entrypoint,
/// and names `e`.
pub open spec fn names_first(
    lines: Seq<Option<PreviewLine>>,
    n: int,
    i: int,
    e: Seq<char>,
) -> bool {
    &&& 0 <= i < n
    &&& lines[i] is Some
    &&& lines[i]->0.entrypoint is Some
    &&& lines[i]->0.entrypoint->0@ == e
    &&& forall|j: int|
        0 <= j < i ==> (#[trigger] lines[j] is None || lines[j]->0.entrypoint is None)
}

/// Whether the first `n` of the lines are those that a preview reads: no more than
/// the limit, and none behind the first that the user typed.
pub open spec fn read_for_preview(lines: Seq<Option<PreviewLine>>, n: int) -> bool {
    &&& 0 <= n <= lines.len()
    &&& n <= 50
    &&& forall|j: int|
        0 <= j < n - 1 ==> (#[trigger] lines[j] is None || lines[j]->0.user_text is None)
    &&& n == 50 || n == lines.len() || n > 0 && lines[n - 1] is Some
        && lines[n - 1]->0.user_text is Some
}

/// A preview shows the first text that the user typed among the first fifty lines,
/// and tells who started the conversation by the first entrypoint that is named up
/// to there: the two that programs have, or else the user.
pub proof fn law_preview_shows_the_first_prompt(
    lines: Seq<Option<PreviewLine>>,
    p: SessionPreview,
)
    requires
        previews(lines, p),
    ensures
        exists|n: int| #[trigger]
            read_for_preview(lines, n) && {
                let typed = n > 0 && lines[n - 1] is Some && lines[n - 1]->0.user_text is Some;
                &&& typed <==> p.first_prompt_snippet is Some
                &&& typed ==> p.first_prompt_snippet->0@ == snippet_of(
                    lines[n - 1]->0.user_text->0@,
                )
                &&& p.kind is Subagent <==> exists|i: int|
                    #[trigger] names_first(lines, n, i, "sdk-cli"@) || names_first(
                        lines,
                        n,
                        i,
                        "sdk-py"@,
                    )
            },
{
    let limit = preview_limit(lines);
    let n = preview_reach(lines, limit);
    lemma_reach(lines, limit);
    lemma_entrypoint_within(lines, n);
    assert(read_for_preview(lines, n));
    let typed = n > 0 && lines[n - 1] is Some && lines[n - 1]->0.user_text is Some;
    if p.first_prompt_snippet is Some {
        let i = choose|i: int| #[trigger]
            first_typed(lines, i) && p.first_prompt_snippet->0@ == snippet_of(
                lines[i]->0.user_text->0@,
            );
        assert(is_typed(lines[i]));
        if i < n - 1 {
            assert(!is_typed(lines[i]));
        }
        if i > n - 1 {
            assert(!is_typed(lines[n - 1]));
        }
        assert(i == n - 1);
    } else if typed {
        assert(is_typed(lines[n - 1]));
    }
    let e = entrypoint_within(lines, n);
    if p.kind is Subagent {
        let i = choose|i: int| #[trigger] names_first(lines, n, i, e->0);
        assert(names_first(lines, n, i, "sdk-cli"@) || names_first(lines, n, i, "sdk-py"@));
    }
    if exists|i: int|
        #[trigger] names_first(lines, n, i, "sdk-cli"@) || names_first(lines, n, i, "sdk-py"@) {
        let i = choose|i: int|
            #[trigger] names_first(lines, n, i, "sdk-cli"@) || names_first(
                lines,
                n,
                i,
                "sdk-py"@,
            );
        assert(lines[i] is Some && lines[i]->0.entrypoint is Some);
        assert(e is Some);
        let k = choose|k: int| #[trigger] names_first(lines, n, k, e->0);
        assert(k == i) by {
            if k < i {
                assert(lines[k] is None || lines[k]->0.entrypoint is None);
            }
            if i < k {
                assert(lines[i] is None || lines[i]->0.entrypoint is None);
            }
        }
    }
}

/// What is stored of a line always holds the line itself and its number, whatever
/// it was understood as; nothing is made up for one that was not.
pub proof fn law_no_line_is_lost(
    line: CompleteNativeLine,
    adapted: Option<AdaptedLine>,
    sid: Seq<char>,
    r: NewCliNativeRecord,
)
    requires
        records_line(line, adapted, sid, r),
    ensures
        r.raw == line.raw && r.line_seq == line.line_seq && r.claude_session_id@ == sid,
        adapted is None ==> r.disposition is Unknown && r.uuid is None && r.parent_uuid is None
            && r.user_prompt is None && r.ts is None && r.recorded_at is None,
        adapted matches Some(a) ==> r.disposition == a.disposition && r.uuid == a.uuid
            && r.parent_uuid == a.parent_uuid && r.kind == a.kind && r.user_prompt == a.user_text
            && r.ts == a.timestamp && (a.timestamp matches Some(t) ==> r.recorded_at
            == rfc3339_moment(t@)),
{
}

/// The lines of an unknown kind are those that were not understood and those that
/// were found to be of no known kind.
pub proof fn law_unknown_lines_are_counted(adapted: Seq<Option<AdaptedLine>>)
    ensures
        unknown_count(adapted) == adapted.filter(
            |a: Option<AdaptedLine>| a is None || a->0.is_unknown,
        ).len(),
    decreases adapted.len(),
{
    reveal(Seq::filter);
    if adapted.len() > 0 {
        law_unknown_lines_are_counted(adapted.drop_last());
    }
}

/// A request to import a path starts an import exactly where no task is at the
/// path. Otherwise it is noted with that task, which then reads from the start
/// where one of the requests asked for that; nothing else changes.
pub proof fn law_request_is_started_or_noted(
    before: Seq<ImportingPath>,
    after: Seq<ImportingPath>,
    path: Seq<char>,
    force_rescan: bool,
    start: bool,
)
    requires
        one_task_each(before),
        begun(before, after, path, force_rescan, start),
    ensures
        start <==> forall|i: int| 0 <= i < before.len() ==> (#[trigger] before[i]).path@ != path,
        start ==> after.len() == before.len() + 1 && after[before.len() as int].path@ == path
            && !after[before.len() as int].pending && !after[before.len() as int].force_rescan,
        !start ==> after.len() == before.len(),
        forall|i: int|
            0 <= i < before.len() ==> {
                let (old_one, new_one) = (#[trigger] before[i], after[i]);
                &&& old_one.path@ != path ==> new_one == old_one
                &&& old_one.path@ == path ==> new_one.path == old_one.path && new_one.pending
                    && new_one.force_rescan == (old_one.force_rescan || force_rescan)
            },
{
    lemma_active_at(before, path);
    if start {
        assert forall|i: int| 0 <= i < before.len() implies #[trigger] before[i] == after[i] by {
            assert(after.drop_last()[i] == before[i]);
        }
    } else {
        let p = active_at(before, path)->0;
        assert(before[p].path@ == path);
        assert forall|i: int| 0 <= i < before.len() && i != p implies (#[trigger] before[i]).path@
            != path by {
            assert(before[i].path@ != before[p].path@);
        }
    }
}

/// The end of an import leads to another one exactly where a request was noted,
/// from the start where that asked for it; the note is gone. Otherwise the path is
/// free. No other path is touched.
pub proof fn law_noted_request_is_taken_up(
    before: Seq<ImportingPath>,
    after: Seq<ImportingPath>,
    path: Seq<char>,
    outcome: AfterImport,
    p: int,
)
    requires
        one_task_each(before),
        0 <= p < before.len(),
        before[p].path@ == path,
        finished(before, after, path, outcome),
    ensures
        before[p].pending ==> {
            &&& outcome == (AfterImport::Again { force_rescan: before[p].force_rescan })
            &&& after.len() == before.len()
            &&& after[p].path == before[p].path
            &&& !after[p].pending && !after[p].force_rescan
            &&& forall|i: int| 0 <= i < before.len() && i != p ==> #[trigger] after[i] == before[i]
        },
        !before[p].pending ==> {
            &&& outcome is Done
            &&& after.len() == before.len() - 1
            &&& forall|i: int| 0 <= i < p ==> #[trigger] after[i] == before[i]
            &&& forall|i: int| p <= i < after.len() ==> #[trigger] after[i] == before[i + 1]
        },
{
    lemma_active_at(before, path);
    let q = active_at(before, path)->0;
    assert(q == p) by {
        if q != p {
            assert(before[q].path@ != before[p].path@);
        }
    }
}

/// A watcher ends exactly where it ended by itself or its directory is no longer
/// wanted.
pub proof fn law_unwanted_watchers_end(running: Seq<Watcher>, wanted: Seq<String>)
    ensures
        ended_watchers(running, wanted) == running.filter(
            |w: Watcher| w.finished || !texts(wanted).contains(w.path@),
        ).map_values(|w: Watcher| w.path@),
    decreases running.len(),
{
    reveal(Seq::filter);
    if running.len() > 0 {
        law_unwanted_watchers_end(running.drop_last(), wanted);
    }
    assert(ended_watchers(running, wanted) =~= running.filter(
        |w: Watcher| w.finished || !texts(wanted).contains(w.path@),
    ).map_values(|w: Watcher| w.path@));
}

/// A directory stays badly watched exactly where it is still wanted and its watcher
/// goes on.
pub proof fn law_bad_watch_lasts_until_its_watcher_ends(
    degraded: Seq<String>,
    ended: Seq<Seq<char>>,
    wanted: Seq<String>,
)
    ensures
        still_degraded(degraded, ended, wanted) == texts(degraded).filter(
            |d: Seq<char>| !ended.contains(d) && texts(wanted).contains(d),
        ),
    decreases degraded.len(),
{
    reveal(Seq::filter);
    if degraded.len() > 0 {
        law_bad_watch_lasts_until_its_watcher_ends(degraded.drop_last(), ended, wanted);
        assert(texts(degraded).drop_last() =~= texts(degraded.drop_last()));
        assert(texts(degraded).last() == degraded.last()@);
    }
    assert(still_degraded(degraded, ended, wanted) =~= texts(degraded).filter(
        |d: Seq<char>| !ended.contains(d) && texts(wanted).contains(d),
    ));
}

/// What is known of a directory is what stands in the list under its path, and
/// nothing is known of one that does not stand there.
pub proof fn law_directory_is_found_by_its_path(d: Directories, path: Seq<char>)
    requires
        d.valid(),
    ensures
        forall|i: int|
            0 <= i < d.entries@.len() && (#[trigger] d.entries@[i]).path@ == path ==> d.of(path)
                == Some(d.entries@[i]),
        d.of(path) is Some ==> d.entries@.contains(d.of(path)->0) && d.of(path)->0.path@ == path,
{
    lemma_directory_at(d.entries@, path);
    assert forall|i: int|
        0 <= i < d.entries@.len() && (#[trigger] d.entries@[i]).path@ == path implies d.of(path)
        == Some(d.entries@[i]) by {
        lemma_directory_found(d.entries@, path, i);
    }
}

/// Whether `at` holds, in order, where each identifier first occurs.
pub open spec fn first_places(ids: Seq<u128>, at: Seq<int>) -> bool {
    &&& forall|k: int|
        0 <= k < at.len() ==> 0 <= #[trigger] at[k] < ids.len() && !ids.take(at[k]).contains(
            ids[at[k]],
        )
    &&& forall|j: int, k: int| 0 <= j < k < at.len() ==> #[trigger] at[j] < #[trigger] at[k]
    &&& forall|i: int|
        0 <= i < ids.len() && !#[trigger] ids.take(i).contains(ids[i]) ==> at.contains(i)
}

/// Each file is listed once, where it is first met, and none is left out.
pub proof fn law_files_are_listed_as_first_met(ids: Seq<u128>)
    ensures
        exists|at: Seq<int>| #[trigger]
            first_places(ids, at) && distinct_ids(ids) == Seq::new(at.len(), |k: int| ids[at[k]]),
        forall|id: u128| #[trigger] distinct_ids(ids).contains(id) <==> ids.contains(id),
    decreases ids.len(),
{
    let all = distinct_ids(ids);
    if ids.len() == 0 {
        let at = Seq::<int>::empty();
        assert(first_places(ids, at));
        assert(all =~= Seq::new(at.len(), |k: int| ids[at[k]]));
    } else {
        let rest = ids.drop_last();
        let n = rest.len() as int;
        law_files_are_listed_as_first_met(rest);
        let head = distinct_ids(rest);
        let before = choose|at: Seq<int>| #[trigger]
            first_places(rest, at) && head == Seq::new(at.len(), |k: int| rest[at[k]]);
        let more = !head.contains(ids[n]);
        let at = if more {
            before.push(n)
        } else {
            before
        };
        assert(ids.take(n) =~= rest);
        assert forall|i: int| 0 <= i < n implies #[trigger] ids.take(i) == rest.take(i) && ids[i]
            == rest[i] by {
            assert(ids.take(i) =~= rest.take(i));
        }
        assert forall|k: int| 0 <= k < at.len() implies 0 <= #[trigger] at[k] < ids.len()
            && !ids.take(at[k]).contains(ids[at[k]]) by {
            if k < before.len() {
                assert(at[k] == before[k]);
                assert(ids.take(before[k]) == rest.take(before[k]));
            }
        }
        assert forall|j: int, k: int| 0 <= j < k < at.len() implies #[trigger] at[j]
            < #[trigger] at[k] by {
            assert(at[j] == before[j]);
            assert(k < before.len() ==> at[k] == before[k]);
        }
        assert forall|i: int| 0 <= i < ids.len() && !#[trigger] ids.take(i).contains(
            ids[i],
        ) implies at.contains(i) by {
            if i < n {
                assert(!rest.take(i).contains(rest[i]));
                let k = choose|k: int| 0 <= k < before.len() && before[k] == i;
                assert(at[k] == i);
            } else {
                assert(at[at.len() - 1] == n);
            }
        }
        assert(first_places(ids, at));
        assert(all =~= Seq::new(at.len(), |k: int| ids[at[k]])) by {
            assert forall|k: int| 0 <= k < all.len() implies all[k] == ids[at[k]] by {
                if k < before.len() {
                    assert(all[k] == head[k]);
                    assert(0 <= before[k] < n);
                }
            }
        }
        assert forall|id: u128| #[trigger] all.contains(id) <==> ids.contains(id) by {
            assert(head.contains(id) <==> rest.contains(id));
            if ids.contains(id) {
                let i = choose|i: int| 0 <= i < ids.len() && ids[i] == id;
                if i < n {
                    assert(rest[i] == id);
                    let k = choose|k: int| 0 <= k < head.len() && head[k] == id;
                    assert(all[k] == id);
                } else if more {
                    assert(all[all.len() - 1] == id);
                }
            }
            if all.contains(id) {
                let k = choose|k: int| 0 <= k < all.len() && all[k] == id;
                if k < head.len() {
                    assert(head[k] == id);
                    let i = choose|i: int| 0 <= i < rest.len() && rest[i] == id;
                    assert(ids[i] == id);
                } else {
                    assert(ids[n] == id);
                }
            }
        }
    }
}

/// A conversation was found in a workspace where one of its files was.
pub proof fn law_found_where_a_file_is(found_in: Seq<Option<u128>>, workspace: u128)
    ensures
        found_in_workspace(found_in, workspace) <==> found_in.contains(Some(workspace)),
{
    if found_in.contains(Some(workspace)) {
        let i = choose|i: int| 0 <= i < found_in.len() && found_in[i] == Some(workspace);
        assert(found_in[i] == Some(workspace));
    }
}

/// What programs start is told by the two entrypoints that they have.
pub proof fn law_programs_have_their_entrypoints(entrypoint: Option<Seq<char>>)
    ensures
        entrypoint is None ==> !program_entrypoint(entrypoint),
        entrypoint matches Some(e) ==> (program_entrypoint(entrypoint) <==> e == "sdk-cli"@ || e
            == "sdk-py"@),
{
}

proof fn lemma_no_dot(name: Seq<char>, from: int, n: int)
    requires
        0 <= from <= n <= name.len(),
        forall|k: int| from <= k < n ==> #[trigger] name[k] != '.',
        from == 0 || name[from - 1] == '.',
    ensures
        last_dot(name, n) == from - 1,
    decreases n,
{
    if n > from {
        assert(name[n - 1] != '.');
        lemma_no_dot(name, from, n - 1);
    }
}

/// A file name without a dot, or with one in front alone, has no extension.
pub proof fn law_name_without_extension(rest: Seq<char>)
    requires
        forall|k: int| 0 <= k < rest.len() ==> #[trigger] rest[k] != '.',
    ensures
        stem_of(rest) == rest,
        stem_of(seq!['.'] + rest) == seq!['.'] + rest,
{
    lemma_no_dot(rest, 0, rest.len() as int);
    let name = seq!['.'] + rest;
    assert forall|k: int| 1 <= k < name.len() implies #[trigger] name[k] != '.' by {
        assert(name[k] == rest[k - 1]);
    }
    lemma_no_dot(name, 1, name.len() as int);
}

/// The last line of a file is looked at again where it is known and the file still
/// reaches as far as it was read.
pub proof fn law_last_line_is_looked_at_again(stored: StoredFile, observed_size: i64)
    ensures
        verifies(stored, observed_size) <==> stored.last_line_hash is Some && 0
            < stored.cursor_offset <= observed_size,
        can_verify(stored, observed_size) && verifies(stored, observed_size)
            && stored.last_line_offset >= 0 ==> stored.last_line_offset + last_line_length(stored)
            == stored.cursor_offset,
{
}

} // verus!
