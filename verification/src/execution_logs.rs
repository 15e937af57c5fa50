//! The logs of executions: moving them from the database to files, writing
//! them while an execution runs, and finding them again.

use vstd::prelude::*;
use vstd::string::*;

use crate::foreign::{uuid_chars, uuid_text};
use crate::msg_store::LogMsg;
use crate::text::{concat2, decimal, decimal_text, ends_with};

verus! {

/// How often the link of a native record is stored before it is given up.
pub const NATIVE_LINK_INSERT_ATTEMPTS: u32 = 5;

/// The pause between two attempts.
pub const NATIVE_LINK_RETRY_DELAY_MS: u64 = 25;

/// How often the progress of the migration is reported.
pub const PROGRESS_INTERVAL: u64 = 100;

/// A stored log as a line: it ends in one line break, its own or an added one.
pub open spec fn as_line(log: Seq<char>) -> Seq<char> {
    if log.len() > 0 && log.last() == '\n' {
        log
    } else {
        log.push('\n')
    }
}

/// A stored log as a line.
pub fn log_line(log: String) -> (line: String)
    ensures
        line@ == as_line(log@),
{
    let mut line = log;
    proof {
        reveal_strlit("\n");
        assert("\n"@ =~= seq!['\n']);
        if line@.len() > 0 {
            let tail = line@.subrange(line@.len() - 1, line@.len() as int);
            assert(tail[0] == line@.last());
            if line@.last() == '\n' {
                assert(tail =~= seq!['\n']);
            }
        }
    }
    if !ends_with(line.as_str(), "\n") {
        line.push('\n');
    }
    line
}

/// A message as a line of a log file.
pub fn jsonl_line(json: String) -> (line: String)
    ensures
        line@ == json@.push('\n'),
{
    let mut line = json;
    line.push('\n');
    line
}

/// The report on the progress of the migration, where one is due: the share of
/// the executions that are done, if their number is known.
pub fn migration_progress(completed: u64, total: u64) -> (r: Option<String>)
    requires
        completed <= 184467440737095516,
    ensures
        completed % PROGRESS_INTERVAL != 0 ==> r is None,
        completed % PROGRESS_INTERVAL == 0 ==> r is Some && r->0@ == "sqlite-migration:"@ + (
        if total > 0 {
            decimal((completed as nat * 100) / (total as nat))
        } else {
            "?"@
        }),
{
    if completed % PROGRESS_INTERVAL != 0 {
        return None;
    }
    if total > 0 {
        Some(concat2("sqlite-migration:", decimal_text(completed * 100 / total).as_str()))
    } else {
        Some(concat2("sqlite-migration:", "?"))
    }
}

/// How far the migration of all logs has come.
#[derive(Debug)]
pub enum MigrationStep {
    /// Connect to the database.
    Connect,
    /// Are there any logs in it?
    CheckAny,
    /// Move the logs of every execution to its file.
    MoveAll,
    /// Delete the logs from the database.
    DeleteAll,
    /// Compact the database.
    Compact,
    /// The migration is over; `moved` says whether there was anything to move.
    Done { moved: bool },
    Failed(String),
}

impl MigrationStep {
    /// Whether `next` is the step after one that came out as `answer` says. For
    /// the check it says whether there are any logs. The failure to connect is
    /// reported as one of the migration's own connection.
    pub open spec fn leads_to(self, answer: Result<bool, String>, next: MigrationStep) -> bool {
        match (self, answer) {
            (MigrationStep::Done { .. }, _) => next == self,
            (MigrationStep::Failed(_), _) => next == self,
            (MigrationStep::Connect, Ok(_)) => next == MigrationStep::CheckAny,
            (MigrationStep::Connect, Err(e)) => next matches MigrationStep::Failed(m) && m@
                == "Migration DB pool error: "@ + e@,
            (MigrationStep::CheckAny, Ok(any)) => next == if any {
                MigrationStep::MoveAll
            } else {
                MigrationStep::Done { moved: false }
            },
            (MigrationStep::MoveAll, Ok(_)) => next == MigrationStep::DeleteAll,
            (MigrationStep::DeleteAll, Ok(_)) => next == MigrationStep::Compact,
            (MigrationStep::Compact, Ok(_)) => next == (MigrationStep::Done { moved: true }),
            (_, Err(e)) => next == MigrationStep::Failed(e),
        }
    }

    pub fn next(self, answer: Result<bool, String>) -> (n: MigrationStep)
        ensures
            self.leads_to(answer, n),
    {
        match (self, answer) {
            (MigrationStep::Done { moved }, _) => MigrationStep::Done { moved },
            (MigrationStep::Failed(e), _) => MigrationStep::Failed(e),
            (MigrationStep::Connect, Err(e)) => MigrationStep::Failed(
                concat2("Migration DB pool error: ", e.as_str()),
            ),
            (_, Err(e)) => MigrationStep::Failed(e),
            (MigrationStep::Connect, Ok(_)) => MigrationStep::CheckAny,
            (MigrationStep::CheckAny, Ok(any)) => {
                if any {
                    MigrationStep::MoveAll
                } else {
                    MigrationStep::Done { moved: false }
                }
            },
            (MigrationStep::MoveAll, Ok(_)) => MigrationStep::DeleteAll,
            (MigrationStep::DeleteAll, Ok(_)) => MigrationStep::Compact,
            (MigrationStep::Compact, Ok(_)) => MigrationStep::Done { moved: true },
        }
    }

    /// What the user is told on entering a step, where `is_tty` says whether
    /// they see a progress bar.
    pub open spec fn told(self, is_tty: bool) -> Seq<Seq<char>> {
        match self {
            MigrationStep::MoveAll => if is_tty {
                seq![
                    "Performing one time database migration to move logs from SQLite to flat file to improve performance, data remains local, may take a few minutes, please don't exit while this process is running..."@,
                ]
            } else {
                Seq::empty()
            },
            MigrationStep::DeleteAll => if is_tty {
                Seq::empty()
            } else {
                seq!["sqlite-migration:done"@, "Compacting database..."@]
            },
            MigrationStep::Done { moved: true } => seq!["Database migration complete."@],
            _ => Seq::empty(),
        }
    }

    /// The lines that the user is told on entering a step.
    pub fn notices(&self, is_tty: bool) -> (lines: Vec<&'static str>)
        ensures
            lines@.map_values(|l: &'static str| l@) == self.told(is_tty),
    {
        let mut lines: Vec<&'static str> = Vec::new();
        match self {
            MigrationStep::MoveAll => {
                if is_tty {
                    lines.push(
                        "Performing one time database migration to move logs from SQLite to flat file to improve performance, data remains local, may take a few minutes, please don't exit while this process is running...",
                    );
                }
            },
            MigrationStep::DeleteAll => {
                if !is_tty {
                    lines.push("sqlite-migration:done");
                    lines.push("Compacting database...");
                }
            },
            MigrationStep::Done { moved } => {
                if *moved {
                    lines.push("Database migration complete.");
                }
            },
            _ => {},
        }
        proof {
            assert(lines@.map_values(|l: &'static str| l@) =~= self.told(is_tty));
        }
        lines
    }
}

/// Logs are deleted from the database only where every one of them was moved,
/// and the migration is done only where they were deleted or none was there.
pub proof fn law_delete_needs_move(s: MigrationStep, answer: Result<bool, String>, n: MigrationStep)
    requires
        s.leads_to(answer, n),
        !(s is Done),
    ensures
        n is DeleteAll ==> s is MoveAll && answer is Ok,
        n == (MigrationStep::Done { moved: true }) ==> s is Compact && answer is Ok,
        n == (MigrationStep::Done { moved: false }) ==> s is CheckAny && answer == Ok::<_, String>(
            false,
        ),
{
}

/// How far the migration of one execution's logs has come.
#[derive(Debug)]
pub enum ProcessMigration {
    /// Is the file there already?
    CheckFile,
    /// The directory of the file is made.
    MakeDir,
    /// The temporary file is opened, and emptied.
    OpenTemp,
    /// The lines are written to the temporary file; `any` says whether there
    /// was one.
    Copy { any: bool },
    /// Nothing was written: the temporary file goes away, as far as it can.
    Discard,
    /// The temporary file is forced to disk.
    Sync,
    /// It takes its final name.
    Rename,
    /// `moved` says whether the logs were moved now.
    Done { moved: bool },
    Failed(String),
}

/// What came of a step.
#[derive(Debug)]
pub enum ProcessAnswer {
    FileExists(bool),
    /// A log was read from the database. What is to be written of it comes back
    /// with the next step.
    Log(String),
    /// There are no more logs.
    EndOfLogs,
    /// The step was carried out.
    Carried,
    Failed(String),
}

impl ProcessMigration {
    /// The step after an answer. An answer to another question than the one
    /// that was asked changes nothing.
    pub open spec fn after(self, answer: ProcessAnswer) -> ProcessMigration {
        match (self, answer) {
            (ProcessMigration::CheckFile, ProcessAnswer::FileExists(exists)) => if exists {
                ProcessMigration::Done { moved: false }
            } else {
                ProcessMigration::MakeDir
            },
            (ProcessMigration::MakeDir, ProcessAnswer::Carried) => ProcessMigration::OpenTemp,
            (ProcessMigration::OpenTemp, ProcessAnswer::Carried) => ProcessMigration::Copy {
                any: false,
            },
            (ProcessMigration::Copy { .. }, ProcessAnswer::Log(_)) => ProcessMigration::Copy {
                any: true,
            },
            (ProcessMigration::Copy { any }, ProcessAnswer::EndOfLogs) => if any {
                ProcessMigration::Sync
            } else {
                ProcessMigration::Discard
            },
            (ProcessMigration::Discard, ProcessAnswer::Carried) => ProcessMigration::Done {
                moved: false,
            },
            (ProcessMigration::Discard, ProcessAnswer::Failed(_)) => ProcessMigration::Done {
                moved: false,
            },
            (ProcessMigration::Sync, ProcessAnswer::Carried) => ProcessMigration::Rename,
            (ProcessMigration::Rename, ProcessAnswer::Carried) => ProcessMigration::Done {
                moved: true,
            },
            (ProcessMigration::CheckFile, ProcessAnswer::Failed(_)) => self,
            (ProcessMigration::Done { .. }, ProcessAnswer::Failed(_)) => self,
            (ProcessMigration::Failed(_), ProcessAnswer::Failed(_)) => self,
            (_, ProcessAnswer::Failed(e)) => ProcessMigration::Failed(e),
            _ => self,
        }
    }

    /// What an answer adds to the temporary file.
    pub open spec fn adds(self, answer: ProcessAnswer) -> Seq<char> {
        if self is Copy && answer is Log {
            as_line(answer->Log_0@)
        } else {
            Seq::empty()
        }
    }

    /// The next step, and the line that is written to the temporary file.
    pub fn next(self, answer: ProcessAnswer) -> (r: (ProcessMigration, Option<String>))
        ensures
            r.0 == self.after(answer),
            r.1 is Some <==> self is Copy && answer is Log,
            r.1 is Some ==> r.1->0@ == self.adds(answer),
    {
        match (self, answer) {
            (ProcessMigration::CheckFile, ProcessAnswer::FileExists(exists)) => {
                if exists {
                    (ProcessMigration::Done { moved: false }, None)
                } else {
                    (ProcessMigration::MakeDir, None)
                }
            },
            (ProcessMigration::MakeDir, ProcessAnswer::Carried) => (
                ProcessMigration::OpenTemp,
                None,
            ),
            (ProcessMigration::OpenTemp, ProcessAnswer::Carried) => (
                ProcessMigration::Copy { any: false },
                None,
            ),
            (ProcessMigration::Copy { .. }, ProcessAnswer::Log(log)) => (
                ProcessMigration::Copy { any: true },
                Some(log_line(log)),
            ),
            (ProcessMigration::Copy { any }, ProcessAnswer::EndOfLogs) => {
                if any {
                    (ProcessMigration::Sync, None)
                } else {
                    (ProcessMigration::Discard, None)
                }
            },
            (ProcessMigration::Discard, ProcessAnswer::Carried) => (
                ProcessMigration::Done { moved: false },
                None,
            ),
            (ProcessMigration::Discard, ProcessAnswer::Failed(_)) => (
                ProcessMigration::Done { moved: false },
                None,
            ),
            (ProcessMigration::Sync, ProcessAnswer::Carried) => (ProcessMigration::Rename, None),
            (ProcessMigration::Rename, ProcessAnswer::Carried) => (
                ProcessMigration::Done { moved: true },
                None,
            ),
            (ProcessMigration::CheckFile, ProcessAnswer::Failed(_)) => (
                ProcessMigration::CheckFile,
                None,
            ),
            (ProcessMigration::Done { moved }, ProcessAnswer::Failed(_)) => (
                ProcessMigration::Done { moved },
                None,
            ),
            (ProcessMigration::Failed(first), ProcessAnswer::Failed(_)) => (
                ProcessMigration::Failed(first),
                None,
            ),
            (_, ProcessAnswer::Failed(e)) => (ProcessMigration::Failed(e), None),
            (same, _) => (same, None),
        }
    }
}

/// Where the migration of one execution stands after the answers so far.
pub open spec fn process_run(answers: Seq<ProcessAnswer>) -> ProcessMigration
    decreases answers.len(),
{
    if answers.len() == 0 {
        ProcessMigration::CheckFile
    } else {
        process_run(answers.drop_last()).after(answers.last())
    }
}

/// What the temporary file holds after the answers so far.
pub open spec fn process_file(answers: Seq<ProcessAnswer>) -> Seq<char>
    decreases answers.len(),
{
    if answers.len() == 0 {
        Seq::empty()
    } else {
        process_file(answers.drop_last()) + process_run(answers.drop_last()).adds(answers.last())
    }
}

/// The logs that were read from the database, as lines.
pub open spec fn read_lines(answers: Seq<ProcessAnswer>) -> Seq<char>
    decreases answers.len(),
{
    if answers.len() == 0 {
        Seq::empty()
    } else {
        let head = read_lines(answers.drop_last());
        match answers.last() {
            ProcessAnswer::Log(log) => head + as_line(log@),
            _ => head,
        }
    }
}

/// Whether logs were only read while they were asked for: after the temporary
/// file was opened, and before the last one.
pub open spec fn reads_in_time(answers: Seq<ProcessAnswer>) -> bool
    decreases answers.len(),
{
    answers.len() == 0 || (reads_in_time(answers.drop_last()) && (answers.last() is Log
        ==> process_run(answers.drop_last()) is Copy))
}

/// A log file only takes its final name where there was a log, all logs were
/// read, and it holds every one of them as a line, in order. A file that is
/// there already is never written again.
pub proof fn law_published_log_is_complete(answers: Seq<ProcessAnswer>)
    requires
        reads_in_time(answers),
    ensures
        process_file(answers) == read_lines(answers),
        process_run(answers) is Sync || process_run(answers) is Rename || process_run(answers) == (
        ProcessMigration::Done { moved: true }) ==> read_lines(answers).len() > 0
            && answers.contains(ProcessAnswer::EndOfLogs),
        ProcessMigration::CheckFile.after(ProcessAnswer::FileExists(true)) == (
        ProcessMigration::Done { moved: false }),
{
    lemma_published_log(answers);
}

proof fn lemma_published_log(answers: Seq<ProcessAnswer>)
    requires
        reads_in_time(answers),
    ensures
        process_file(answers) == read_lines(answers),
        process_run(answers) == (ProcessMigration::Copy { any: true }) ==> read_lines(answers).len()
            > 0,
        process_run(answers) is Sync || process_run(answers) is Rename || process_run(answers) == (
        ProcessMigration::Done { moved: true }) ==> read_lines(answers).len() > 0
            && answers.contains(ProcessAnswer::EndOfLogs),
    decreases answers.len(),
{
    if answers.len() > 0 {
        let head = answers.drop_last();
        lemma_published_log(head);
        assert(answers[answers.len() - 1] == answers.last());
        if head.contains(ProcessAnswer::EndOfLogs) {
            let k = choose|k: int| 0 <= k < head.len() && head[k] == ProcessAnswer::EndOfLogs;
            assert(answers[k] == ProcessAnswer::EndOfLogs);
        }
        if answers.last() is Log {
            assert(as_line(answers.last()->Log_0@).len() > 0);
        }
        assert(process_file(head) + Seq::<char>::empty() =~= process_file(head));
    }
}

/// Why logs could not be read, written or removed.
#[derive(Debug)]
pub struct LogError {
    /// What was attempted.
    pub context: String,
    /// What the system said.
    pub source: String,
}

/// What removing a directory came to.
#[derive(Debug)]
pub enum Removal {
    Removed,
    /// It was not there.
    NotFound,
    Failed(String),
}

/// The outcome of removing a session's logs from `dir`: there may be none.
pub fn session_logs_removed(removal: Removal, dir: &str) -> (r: Result<(), LogError>)
    ensures
        match removal {
            Removal::Failed(source) => r is Err && r->Err_0.source == source && r->Err_0.context@
                == "remove session process logs at "@ + dir@,
            _ => r is Ok,
        },
{
    match removal {
        Removal::Failed(source) => Err(
            LogError { context: concat2("remove session process logs at ", dir), source },
        ),
        _ => Ok(()),
    }
}

/// The steps of adding a message to a log.
#[derive(Debug, Clone, Copy, PartialEq, Eq, Structural)]
pub enum AppendStage {
    CreateWriter,
    Serialize,
    Append,
}

/// Why a message could not be added to the log of an execution.
pub fn append_failure(stage: AppendStage, execution_id: u128, source: String) -> (e: LogError)
    ensures
        e.source == source,
        e.context@ == match stage {
            AppendStage::CreateWriter => "create log writer for execution "@,
            AppendStage::Serialize => "serialize log message for execution "@,
            AppendStage::Append => "append log message for execution "@,
        } + uuid_chars(execution_id),
{
    let id = uuid_text(execution_id);
    let context = match stage {
        AppendStage::CreateWriter => concat2("create log writer for execution ", id.as_str()),
        AppendStage::Serialize => concat2("serialize log message for execution ", id.as_str()),
        AppendStage::Append => concat2("append log message for execution ", id.as_str()),
    };
    LogError { context, source }
}

/// What the database holds of an execution's messages.
#[derive(Debug)]
pub enum DatabaseLogs {
    Unreadable,
    Empty,
    Unparsable,
    Messages(Vec<LogMsg>),
}

/// Whether the database has to be asked: the log file is not there, cannot be
/// read, or says nothing.
pub fn needs_database(file: &Option<Vec<LogMsg>>) -> (r: bool)
    ensures
        r == (file is None || file->0@.len() == 0),
{
    match file {
        Some(messages) => messages.len() == 0,
        None => true,
    }
}

/// The messages of an execution: those of its log file, else those of the
/// database.
pub fn load_raw_log_messages(file: Option<Vec<LogMsg>>, database: DatabaseLogs) -> (r: Option<
    Vec<LogMsg>,
>)
    ensures
        r == if file is Some && file->0@.len() > 0 {
            file
        } else {
            match database {
                DatabaseLogs::Messages(m) => Some(m),
                _ => None,
            }
        },
{
    if let Some(messages) = file {
        if messages.len() > 0 {
            return Some(messages);
        }
    }
    match database {
        DatabaseLogs::Messages(m) => Some(m),
        _ => None,
    }
}

/// What the writer of the log file does with a message.
#[derive(Debug, Clone, Copy, PartialEq, Eq, Structural)]
pub enum OutputStep {
    Persist,
    Skip,
    Stop,
}

/// Decides what the writer of the log file does with a message.
pub fn output_step(msg: &LogMsg) -> (s: OutputStep)
    ensures
        s == match *msg {
            LogMsg::Stdout(_) => OutputStep::Persist,
            LogMsg::Stderr(_) => OutputStep::Persist,
            LogMsg::Finished => OutputStep::Stop,
            _ => OutputStep::Skip,
        },
{
    match msg {
        LogMsg::Stdout(_) => OutputStep::Persist,
        LogMsg::Stderr(_) => OutputStep::Persist,
        LogMsg::Finished => OutputStep::Stop,
        _ => OutputStep::Skip,
    }
}

/// What is stored of a message beside the log file.
#[derive(Debug, PartialEq, Eq)]
pub enum MetadataStep {
    SessionId(String),
    MessageId(String),
    NativeUuid(String),
    /// Nothing; the reader goes on, also behind the end of the execution.
    Skip,
}

/// Decides what is stored of a message beside the log file.
pub fn metadata_step(msg: &LogMsg) -> (s: MetadataStep)
    ensures
        s == match *msg {
            LogMsg::SessionId(id) => MetadataStep::SessionId(id),
            LogMsg::MessageId(id) => MetadataStep::MessageId(id),
            LogMsg::NativeUuid(id) => MetadataStep::NativeUuid(id),
            _ => MetadataStep::Skip,
        },
{
    match msg {
        LogMsg::SessionId(id) => MetadataStep::SessionId(id.clone()),
        LogMsg::MessageId(id) => MetadataStep::MessageId(id.clone()),
        LogMsg::NativeUuid(id) => MetadataStep::NativeUuid(id.clone()),
        _ => MetadataStep::Skip,
    }
}

/// What an attempt to store a link leads to.
#[derive(Debug, Clone, Copy, PartialEq, Eq, Structural)]
pub enum LinkStep {
    /// It is stored: tell the readers of feeds.
    Persisted,
    /// Try again after a pause.
    Retry { attempt: u32, wait_ms: u64 },
    GaveUp,
}

/// Decides what attempt number `attempt` to store a link leads to.
pub fn link_step(attempt: u32, stored: bool) -> (s: LinkStep)
    ensures
        s == if stored {
            LinkStep::Persisted
        } else if attempt < NATIVE_LINK_INSERT_ATTEMPTS {
            LinkStep::Retry { attempt: (attempt + 1) as u32, wait_ms: NATIVE_LINK_RETRY_DELAY_MS }
        } else {
            LinkStep::GaveUp
        },
{
    if stored {
        LinkStep::Persisted
    } else if attempt < NATIVE_LINK_INSERT_ATTEMPTS {
        LinkStep::Retry { attempt: attempt + 1, wait_ms: NATIVE_LINK_RETRY_DELAY_MS }
    } else {
        LinkStep::GaveUp
    }
}

/// Where the log of an execution may be.
#[derive(Debug)]
pub struct LogPlaces {
    pub execution_id: u128,
    pub own: String,
    /// The file among the installed application's data, where that is known.
    pub installed: Option<String>,
    /// Whether this is a development build, which falls back to the installed
    /// application's data.
    pub development: bool,
}

/// How far the search for the log of an execution has come.
#[derive(Debug)]
pub enum LogSearch {
    FindExecution,
    /// Is its own file there?
    CheckOwn,
    ReadOwn,
    /// The installed application's file is read.
    ReadInstalled { path: String },
    /// The log, if there is one.
    Done(Result<Option<String>, LogError>),
    /// The database failed, with this text.
    DatabaseFailed(String),
}

/// What came of a step.
#[derive(Debug)]
pub enum LogAnswer {
    /// Whether the execution exists.
    Execution(bool),
    /// The file is there.
    Present,
    /// The file was read.
    Text(String),
    /// The file is not there.
    Missing,
    Failed(String),
}

impl LogSearch {
    /// Whether `self` is the end of a search that failed.
    pub open spec fn failed_with(self, context: Seq<char>, source: String) -> bool {
        self is Done && self->Done_0 is Err && self->Done_0->Err_0.context@ == context
            && self->Done_0->Err_0.source == source
    }

    /// Whether `next` is the state after an answer. An answer to another
    /// question than the one that was asked changes nothing.
    pub open spec fn leads_to(self, places: LogPlaces, answer: LogAnswer, next: LogSearch) -> bool {
        let id = uuid_chars(places.execution_id);
        match (self, answer) {
            (LogSearch::FindExecution, LogAnswer::Execution(exists)) => next == if exists {
                LogSearch::CheckOwn
            } else {
                LogSearch::Done(Ok(None))
            },
            (LogSearch::FindExecution, LogAnswer::Failed(source)) => next
                == LogSearch::DatabaseFailed(source),
            (LogSearch::CheckOwn, LogAnswer::Present) => next == LogSearch::ReadOwn,
            (LogSearch::CheckOwn, LogAnswer::Missing) => match places.installed {
                Some(path) => next == if places.development {
                    LogSearch::ReadInstalled { path }
                } else {
                    LogSearch::Done(Ok(None))
                },
                None => next == LogSearch::Done(Ok(None)),
            },
            (LogSearch::CheckOwn, LogAnswer::Failed(source)) => next.failed_with(
                "check execution log file exists for execution "@ + id + " at "@ + places.own@,
                source,
            ),
            (LogSearch::ReadOwn, LogAnswer::Text(text)) => next == LogSearch::Done(
                Ok(Some(text)),
            ),
            (LogSearch::ReadOwn, LogAnswer::Failed(source)) => next.failed_with(
                "read execution log file for execution "@ + id,
                source,
            ),
            (LogSearch::ReadInstalled { .. }, LogAnswer::Text(text)) => next == LogSearch::Done(
                Ok(Some(text)),
            ),
            (LogSearch::ReadInstalled { .. }, LogAnswer::Missing) => next == LogSearch::Done(
                Ok(None),
            ),
            (LogSearch::ReadInstalled { path }, LogAnswer::Failed(source)) => next.failed_with(
                "read execution log file for execution "@ + id + " from "@ + path@,
                source,
            ),
            _ => next == self,
        }
    }

    pub fn next(self, places: &LogPlaces, answer: LogAnswer) -> (n: LogSearch)
        ensures
            self.leads_to(*places, answer, n),
    {
        match (self, answer) {
            (LogSearch::FindExecution, LogAnswer::Execution(exists)) => {
                if exists {
                    LogSearch::CheckOwn
                } else {
                    LogSearch::Done(Ok(None))
                }
            },
            (LogSearch::FindExecution, LogAnswer::Failed(source)) => LogSearch::DatabaseFailed(
                source,
            ),
            (LogSearch::CheckOwn, LogAnswer::Present) => LogSearch::ReadOwn,
            (LogSearch::CheckOwn, LogAnswer::Missing) => match &places.installed {
                Some(path) => {
                    if places.development {
                        LogSearch::ReadInstalled { path: path.clone() }
                    } else {
                        LogSearch::Done(Ok(None))
                    }
                },
                None => LogSearch::Done(Ok(None)),
            },
            (LogSearch::CheckOwn, LogAnswer::Failed(source)) => {
                let mut context = concat2(
                    "check execution log file exists for execution ",
                    uuid_text(places.execution_id).as_str(),
                );
                context.append(" at ");
                context.append(places.own.as_str());
                LogSearch::Done(Err(LogError { context, source }))
            },
            (LogSearch::ReadOwn, LogAnswer::Text(text)) => LogSearch::Done(Ok(Some(text))),
            (LogSearch::ReadOwn, LogAnswer::Failed(source)) => {
                let context = concat2(
                    "read execution log file for execution ",
                    uuid_text(places.execution_id).as_str(),
                );
                LogSearch::Done(Err(LogError { context, source }))
            },
            (LogSearch::ReadInstalled { .. }, LogAnswer::Text(text)) => LogSearch::Done(
                Ok(Some(text)),
            ),
            (LogSearch::ReadInstalled { .. }, LogAnswer::Missing) => LogSearch::Done(Ok(None)),
            (LogSearch::ReadInstalled { path }, LogAnswer::Failed(source)) => {
                let mut context = concat2(
                    "read execution log file for execution ",
                    uuid_text(places.execution_id).as_str(),
                );
                context.append(" from ");
                context.append(path.as_str());
                LogSearch::Done(Err(LogError { context, source }))
            },
            (same, _) => same,
        }
    }
}

/// A log becomes one line or more: it gets a line break at its end where it has
/// none there, and is kept as it is otherwise.
pub proof fn law_log_ends_with_its_line(log: Seq<char>)
    ensures
        as_line(log.push('\n')) == log.push('\n'),
        log.len() == 0 || log[log.len() - 1] != '\n' ==> as_line(log) == log.push('\n'),
{
}

/// The migration connects, looks for logs, and, where there are any, moves them all,
/// deletes them and compacts the database. Without logs it is over at once, and
/// whatever fails ends it.
pub proof fn law_migration_goes_on(
    yes: bool,
    e: String,
    s: MigrationStep,
    next: MigrationStep,
)
    ensures
        ({
            let carried = Ok::<bool, String>(yes);
            &&& MigrationStep::Connect.leads_to(carried, next) ==> next is CheckAny
            &&& MigrationStep::CheckAny.leads_to(carried, next) ==> (yes ==> next is MoveAll) && (
            !yes ==> next == (MigrationStep::Done { moved: false }))
            &&& MigrationStep::MoveAll.leads_to(carried, next) ==> next is DeleteAll
            &&& MigrationStep::DeleteAll.leads_to(carried, next) ==> next is Compact
            &&& MigrationStep::Compact.leads_to(carried, next) ==> next == (MigrationStep::Done {
                moved: true,
            })
            &&& !(s is Connect || s is Done || s is Failed) && s.leads_to(Err(e), next) ==> next
                == MigrationStep::Failed(e)
            &&& MigrationStep::Connect.leads_to(Err(e), next) ==> next is Failed
        }),
{
}

/// The logs of an execution are moved where it has no file yet and there is one: they
/// are written to a temporary file, which is forced to disk and renamed. Without a
/// log the temporary file goes away, as far as it can, and nothing counts as moved.
pub proof fn law_process_migration_goes_on(log: String, other: String, e: String)
    ensures
        ({
            let carried = ProcessAnswer::Carried;
            let failed = ProcessAnswer::Failed(e);
            let start = ProcessMigration::CheckFile;
            let dir = start.after(ProcessAnswer::FileExists(false));
            let open = dir.after(carried);
            let empty = open.after(carried);
            let some = empty.after(ProcessAnswer::Log(log));
            let full = some.after(ProcessAnswer::EndOfLogs);
            let synced = full.after(carried);
            let nothing = empty.after(ProcessAnswer::EndOfLogs);
            &&& start.after(ProcessAnswer::FileExists(true)) == (ProcessMigration::Done {
                moved: false,
            })
            &&& dir is MakeDir && open is OpenTemp
            &&& some.after(ProcessAnswer::Log(other)) == some
            &&& full is Sync && synced is Rename
            &&& synced.after(carried) == (ProcessMigration::Done { moved: true })
            &&& nothing is Discard
            &&& nothing.after(carried) == (ProcessMigration::Done { moved: false })
            &&& nothing.after(failed) == (ProcessMigration::Done { moved: false })
            &&& dir.after(failed) == ProcessMigration::Failed(e)
            &&& open.after(failed) == ProcessMigration::Failed(e)
            &&& empty.after(failed) == ProcessMigration::Failed(e)
            &&& some.after(failed) == ProcessMigration::Failed(e)
            &&& full.after(failed) == ProcessMigration::Failed(e)
            &&& synced.after(failed) == ProcessMigration::Failed(e)
            &&& empty.adds(ProcessAnswer::Log(log)) == as_line(log@)
            &&& some.adds(ProcessAnswer::Log(other)) == as_line(other@)
            &&& open.adds(ProcessAnswer::Log(log)).len() == 0
            &&& full.adds(ProcessAnswer::Log(log)).len() == 0
        }),
{
}

/// The log of an execution that exists is the text of its own file. Where there is
/// none, a development build looks among the installed application's data, and no
/// other build does.
pub proof fn law_log_is_looked_for_at_home_first(
    places: LogPlaces,
    text: String,
    path: String,
    e: String,
    next: LogSearch,
)
    ensures
        LogSearch::FindExecution.leads_to(places, LogAnswer::Execution(true), next)
            ==> next is CheckOwn,
        LogSearch::FindExecution.leads_to(places, LogAnswer::Execution(false), next) ==> next
            == LogSearch::Done(Ok(None)),
        LogSearch::FindExecution.leads_to(places, LogAnswer::Failed(e), next) ==> next
            == LogSearch::DatabaseFailed(e),
        LogSearch::CheckOwn.leads_to(places, LogAnswer::Present, next) ==> next is ReadOwn,
        LogSearch::CheckOwn.leads_to(places, LogAnswer::Missing, next) ==> {
            &&& places.development ==> (places.installed matches Some(there) ==> next == (
            LogSearch::ReadInstalled { path: there }))
            &&& !places.development || places.installed is None ==> next == LogSearch::Done(
                Ok(None),
            )
        },
        LogSearch::ReadOwn.leads_to(places, LogAnswer::Text(text), next) ==> next
            == LogSearch::Done(Ok(Some(text))),
        (LogSearch::ReadInstalled { path }).leads_to(places, LogAnswer::Text(text), next) ==> next
            == LogSearch::Done(Ok(Some(text))),
        (LogSearch::ReadInstalled { path }).leads_to(places, LogAnswer::Missing, next) ==> next
            == LogSearch::Done(Ok(None)),
        LogSearch::CheckOwn.leads_to(places, LogAnswer::Failed(e), next) || LogSearch::ReadOwn.leads_to(
            places,
            LogAnswer::Failed(e),
            next,
        ) || (LogSearch::ReadInstalled { path }).leads_to(places, LogAnswer::Failed(e), next) ==> (
        next matches LogSearch::Done(Err(why)) && why.source == e),
{
}

} // verus!
