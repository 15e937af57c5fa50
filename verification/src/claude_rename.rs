//! Telling a running conversation that its workspace was renamed: through the
//! files that it reads its title from, and by typing the command where nobody
//! is at the keyboard.

use vstd::prelude::*;
use vstd::string::*;

use crate::foreign::{json_string, parse_uuid, to_json_string, uuid_char, uuid_parsed};
use crate::path_text::{file_name, final_name, join, joined_path, parent, parent_of};
use crate::text::{
    chars_of, concat2, concat3, control, decimal, decimal_text, ends_with, finishes_with,
    is_control, opt_text, substring_of,
};

verus! {

/// How long nobody may have typed before the command is typed, in seconds.
pub const RENAME_IDLE_MARGIN_SECS: i64 = 90;

/// The file beside a transcript that holds its title.
pub open spec fn sidecar_of(path: Seq<char>) -> Option<Seq<char>> {
    match (final_name(path), parent_of(path)) {
        (Some(name), Some(dir)) => if finishes_with(name, ".jsonl"@) {
            let stem = name.take(name.len() - ".jsonl"@.len());
            Some(joined_path(joined_path(dir, stem), "custom-title.json"@))
        } else {
            None
        },
        _ => None,
    }
}

/// The file beside a transcript that holds its title: in a directory that is
/// named like the transcript.
pub fn custom_title_sidecar_path(transcript_path: &str) -> (r: Option<String>)
    ensures
        opt_text(r) == sidecar_of(transcript_path@),
{
    let name = match file_name(transcript_path) {
        Some(n) => n,
        None => return None,
    };
    let dir = match parent(transcript_path) {
        Some(d) => d,
        None => return None,
    };
    if !ends_with(name.as_str(), ".jsonl") {
        return None;
    }
    let chars = chars_of(name.as_str());
    let suffix: usize = chars_of(".jsonl").len();
    let stem = substring_of(&chars, 0, chars.len() - suffix);
    proof {
        assert(stem@ =~= name@.take(name@.len() - ".jsonl"@.len()));
    }
    let inner = join(dir.as_str(), stem.as_str());
    Some(join(inner.as_str(), "custom-title.json"))
}

/// A name that can be typed as one line of text: it is not empty, and holds
/// nothing that a terminal takes for a key.
pub open spec fn typeable(name: Seq<char>) -> bool {
    name.len() > 0 && forall|i: int| 0 <= i < name.len() ==> !control(#[trigger] name[i])
}

/// Whether the command may be typed: the name can be typed, and it was seen
/// that nobody typed for long enough.
pub fn should_inject_rename_keys(
    name: &str,
    latest_client_activity: Option<i64>,
    now: i64,
) -> (r: bool)
    ensures
        r == (typeable(name@) && latest_client_activity is Some && now
            - latest_client_activity->0 >= RENAME_IDLE_MARGIN_SECS),
{
    let chars = chars_of(name);
    if chars.len() == 0 {
        return false;
    }
    for i in 0..chars.len()
        invariant
            chars@ == name@,
            forall|j: int| 0 <= j < i ==> !control(#[trigger] name@[j]),
    {
        if is_control(chars[i]) {
            return false;
        }
    }
    match latest_client_activity {
        Some(activity) => now as i128 - activity as i128 >= 90,
        None => false,
    }
}

/// Whether an identifier that an agent reported may be used in a path.
pub fn is_valid_claude_session_id(claude_session_id: &str) -> (r: bool)
    ensures
        r == (uuid_parsed(claude_session_id@) is Some),
        r ==> claude_session_id@.len() > 0 && forall|i: int|
            0 <= i < claude_session_id@.len() ==> uuid_char(#[trigger] claude_session_id@[i]),
{
    parse_uuid(claude_session_id).is_some()
}

/// An identifier that is used in a path can lead nowhere else: it holds neither
/// a separator nor a dot.
pub proof fn law_valid_id_is_one_name(id: Seq<char>)
    requires
        forall|i: int| 0 <= i < id.len() ==> uuid_char(#[trigger] id[i]),
    ensures
        !id.contains('/'),
        !id.contains('\\'),
        !id.contains('.'),
{
}

/// What is typed.
pub fn rename_command(name: &str) -> (c: String)
    ensures
        c@ == "/rename "@ + name@,
{
    concat2("/rename ", name)
}

/// What the file that holds a title says.
pub fn sidecar_payload(name: &str) -> (json: String)
    ensures
        json@ == "{\"customTitle\":"@ + json_string(name@) + "}"@,
{
    concat3("{\"customTitle\":", to_json_string(name).as_str(), "}")
}

/// The line that tells a transcript its title.
pub fn title_record(claude_session_id: &str, name: &str) -> (line: String)
    ensures
        line@ == "{\"customTitle\":"@ + json_string(name@) + ",\"sessionId\":"@ + json_string(
            claude_session_id@,
        ) + ",\"type\":\"custom-title\"}\n"@,
{
    let mut line = concat2("{\"customTitle\":", to_json_string(name).as_str());
    line.append(",\"sessionId\":");
    line.append(to_json_string(claude_session_id).as_str());
    line.append(",\"type\":\"custom-title\"}\n");
    line
}

/// The name of the file that a title is written to first; `pid` keeps two
/// servers apart.
pub fn sidecar_temp_name(pid: u64) -> (name: String)
    ensures
        name@ == "custom-title.json."@ + decimal(pid as nat) + ".tmp"@,
{
    concat3("custom-title.json.", decimal_text(pid).as_str(), ".tmp")
}

/// How far a rename was passed on.
#[derive(Debug)]
pub enum RenamePhase {
    /// Does the workspace have a session?
    FindSession,
    /// Which conversation does its latest turn belong to?
    FindTurn,
    /// Which conversation is it linked to?
    FindLink,
    /// Where is the transcript of the conversation?
    FindTranscript { sid: String },
    /// Write the title beside the transcript.
    WriteSidecar { sid: String, path: String },
    /// Append the title to the transcript.
    AppendRecord { sid: String, path: String },
    /// Is there a terminal?
    LocatePane,
    /// Does the agent run in it?
    ProbePane,
    /// When did anybody type last?
    ReadActivity,
    /// Type the command. The files carry the title in any case.
    TypeCommand,
    Done(Result<(), String>),
}

/// What came of a step.
#[derive(Debug)]
pub enum RenameAnswer {
    /// Whether what was looked for is there.
    Found(bool),
    /// The conversation, where there is one.
    Sid(Option<String>),
    /// The transcript, where it is a file.
    Transcript(Option<String>),
    /// The step was carried out.
    Carried,
    /// Whether the agent runs, where that can be told.
    AgentRunning(Option<bool>),
    /// When anybody typed last, where that can be told, and what time it is.
    Activity { latest: Option<i64>, now: i64 },
    Failed(String),
}

impl RenamePhase {
    /// The phase after a conversation was found.
    pub open spec fn with_sid(sid: String) -> RenamePhase {
        if uuid_parsed(sid@) is Some {
            RenamePhase::FindTranscript { sid }
        } else {
            RenamePhase::Done(Ok(()))
        }
    }

    /// The phase after a step. What is not there ends the matter without an
    /// error; an answer to another question than the one that was asked changes
    /// nothing.
    pub open spec fn after(self, name: Seq<char>, answer: RenameAnswer) -> RenamePhase {
        match (self, answer) {
            (RenamePhase::FindSession, RenameAnswer::Found(yes)) => if yes {
                RenamePhase::FindTurn
            } else {
                RenamePhase::Done(Ok(()))
            },
            (RenamePhase::FindTurn, RenameAnswer::Sid(found)) => match found {
                Some(sid) => RenamePhase::with_sid(sid),
                None => RenamePhase::FindLink,
            },
            (RenamePhase::FindLink, RenameAnswer::Sid(found)) => match found {
                Some(sid) => RenamePhase::with_sid(sid),
                None => RenamePhase::Done(Ok(())),
            },
            (RenamePhase::FindTranscript { sid }, RenameAnswer::Transcript(found)) => match found {
                Some(path) => RenamePhase::WriteSidecar { sid, path },
                None => RenamePhase::Done(Ok(())),
            },
            (
                RenamePhase::WriteSidecar { sid, path },
                RenameAnswer::Carried,
            ) => RenamePhase::AppendRecord { sid, path },
            (RenamePhase::AppendRecord { .. }, RenameAnswer::Carried) => RenamePhase::LocatePane,
            (RenamePhase::LocatePane, RenameAnswer::Found(yes)) => if yes {
                RenamePhase::ProbePane
            } else {
                RenamePhase::Done(Ok(()))
            },
            (RenamePhase::ProbePane, RenameAnswer::AgentRunning(running)) => if running == Some(
                true,
            ) {
                RenamePhase::ReadActivity
            } else {
                RenamePhase::Done(Ok(()))
            },
            (RenamePhase::ReadActivity, RenameAnswer::Activity { latest, now }) => if typeable(name)
                && latest is Some && now - latest->0 >= RENAME_IDLE_MARGIN_SECS {
                RenamePhase::TypeCommand
            } else {
                RenamePhase::Done(Ok(()))
            },
            (RenamePhase::TypeCommand, RenameAnswer::Carried) => RenamePhase::Done(Ok(())),
            (RenamePhase::TypeCommand, RenameAnswer::Failed(_)) => RenamePhase::Done(Ok(())),
            (RenamePhase::FindSession, RenameAnswer::Failed(e)) => RenamePhase::Done(Err(e)),
            (RenamePhase::FindTurn, RenameAnswer::Failed(e)) => RenamePhase::Done(Err(e)),
            (RenamePhase::FindLink, RenameAnswer::Failed(e)) => RenamePhase::Done(Err(e)),
            (RenamePhase::WriteSidecar { .. }, RenameAnswer::Failed(e)) => RenamePhase::Done(
                Err(e),
            ),
            (RenamePhase::AppendRecord { .. }, RenameAnswer::Failed(e)) => RenamePhase::Done(
                Err(e),
            ),
            _ => self,
        }
    }

    pub fn start() -> (p: RenamePhase)
        ensures
            p == RenamePhase::FindSession,
    {
        RenamePhase::FindSession
    }

    fn locate(sid: String) -> (p: RenamePhase)
        ensures
            p == RenamePhase::with_sid(sid),
    {
        if is_valid_claude_session_id(sid.as_str()) {
            RenamePhase::FindTranscript { sid }
        } else {
            RenamePhase::Done(Ok(()))
        }
    }

    /// Takes what came of the step that the phase stands for.
    pub fn step(self, name: &str, answer: RenameAnswer) -> (next: RenamePhase)
        ensures
            next == self.after(name@, answer),
    {
        match (self, answer) {
            (RenamePhase::FindSession, RenameAnswer::Found(yes)) => {
                if yes {
                    RenamePhase::FindTurn
                } else {
                    RenamePhase::Done(Ok(()))
                }
            },
            (RenamePhase::FindTurn, RenameAnswer::Sid(found)) => match found {
                Some(sid) => RenamePhase::locate(sid),
                None => RenamePhase::FindLink,
            },
            (RenamePhase::FindLink, RenameAnswer::Sid(found)) => match found {
                Some(sid) => RenamePhase::locate(sid),
                None => RenamePhase::Done(Ok(())),
            },
            (RenamePhase::FindTranscript { sid }, RenameAnswer::Transcript(found)) => match found {
                Some(path) => RenamePhase::WriteSidecar { sid, path },
                None => RenamePhase::Done(Ok(())),
            },
            (RenamePhase::WriteSidecar { sid, path }, RenameAnswer::Carried) => {
                RenamePhase::AppendRecord { sid, path }
            },
            (RenamePhase::AppendRecord { .. }, RenameAnswer::Carried) => RenamePhase::LocatePane,
            (RenamePhase::LocatePane, RenameAnswer::Found(yes)) => {
                if yes {
                    RenamePhase::ProbePane
                } else {
                    RenamePhase::Done(Ok(()))
                }
            },
            (RenamePhase::ProbePane, RenameAnswer::AgentRunning(running)) => match running {
                Some(true) => RenamePhase::ReadActivity,
                _ => RenamePhase::Done(Ok(())),
            },
            (RenamePhase::ReadActivity, RenameAnswer::Activity { latest, now }) => {
                if should_inject_rename_keys(name, latest, now) {
                    RenamePhase::TypeCommand
                } else {
                    RenamePhase::Done(Ok(()))
                }
            },
            (RenamePhase::TypeCommand, RenameAnswer::Carried) => RenamePhase::Done(Ok(())),
            (RenamePhase::TypeCommand, RenameAnswer::Failed(_)) => RenamePhase::Done(Ok(())),
            (RenamePhase::FindSession, RenameAnswer::Failed(e)) => RenamePhase::Done(Err(e)),
            (RenamePhase::FindTurn, RenameAnswer::Failed(e)) => RenamePhase::Done(Err(e)),
            (RenamePhase::FindLink, RenameAnswer::Failed(e)) => RenamePhase::Done(Err(e)),
            (RenamePhase::WriteSidecar { .. }, RenameAnswer::Failed(e)) => RenamePhase::Done(
                Err(e),
            ),
            (RenamePhase::AppendRecord { .. }, RenameAnswer::Failed(e)) => RenamePhase::Done(
                Err(e),
            ),
            (same, _) => same,
        }
    }
}

/// An identifier that an agent reported only ever leads to a file where it is a
/// plain one.
pub proof fn law_only_plain_ids_reach_files(p: RenamePhase, name: Seq<char>, answer: RenameAnswer)
    requires
        !(p is FindTranscript),
        p.after(name, answer) is FindTranscript,
    ensures
        uuid_parsed(p.after(name, answer)->FindTranscript_sid@) is Some,
{
}

/// Keys are typed only where the name can be typed and somebody's idleness was
/// seen, and only after both files carry the name.
pub proof fn law_keys_come_last(p: RenamePhase, name: Seq<char>, answer: RenameAnswer)
    ensures
        !(p is TypeCommand) && p.after(name, answer) is TypeCommand ==> p is ReadActivity
            && typeable(name) && (answer matches RenameAnswer::Activity { latest, now } && latest
            is Some && now - latest->0 >= RENAME_IDLE_MARGIN_SECS),
        !(p is ReadActivity) && p.after(name, answer) is ReadActivity ==> p is ProbePane && answer
            == RenameAnswer::AgentRunning(Some(true)),
        !(p is ProbePane) && p.after(name, answer) is ProbePane ==> p is LocatePane,
        !(p is LocatePane) && p.after(name, answer) is LocatePane ==> p is AppendRecord && answer
            is Carried,
        !(p is AppendRecord) && p.after(name, answer) is AppendRecord ==> p is WriteSidecar
            && answer is Carried,
{
}

/// What passing a rename on meets outside.
pub ghost struct RenameWorld {
    pub session: Result<bool, String>,
    pub turn: Result<Option<String>, String>,
    pub link: Result<Option<String>, String>,
    pub transcript: Option<String>,
    /// Why the title could not be written beside the transcript, if so.
    pub sidecar: Option<String>,
    /// Why the title could not be appended to the transcript, if so.
    pub record: Option<String>,
    pub pane: bool,
    pub agent: Option<bool>,
    pub latest: Option<i64>,
    pub now: i64,
}

impl RenameWorld {
    /// The conversation that is renamed: that of the latest turn, else the linked
    /// one.
    pub open spec fn conversation(self) -> Option<String> {
        match self.turn {
            Ok(Some(sid)) => Some(sid),
            Ok(None) => match self.link {
                Ok(found) => found,
                Err(_) => None,
            },
            Err(_) => None,
        }
    }

    /// What is answered in a phase. Whatever concerns another conversation or
    /// another file fails.
    pub open spec fn answer(self, p: RenamePhase) -> RenameAnswer {
        match p {
            RenamePhase::FindSession => match self.session {
                Ok(yes) => RenameAnswer::Found(yes),
                Err(e) => RenameAnswer::Failed(e),
            },
            RenamePhase::FindTurn => match self.turn {
                Ok(found) => RenameAnswer::Sid(found),
                Err(e) => RenameAnswer::Failed(e),
            },
            RenamePhase::FindLink => match self.link {
                Ok(found) => RenameAnswer::Sid(found),
                Err(e) => RenameAnswer::Failed(e),
            },
            RenamePhase::FindTranscript { sid } => RenameAnswer::Transcript(
                if Some(sid) == self.conversation() {
                    self.transcript
                } else {
                    None
                },
            ),
            RenamePhase::WriteSidecar { sid, path } => if Some(sid) != self.conversation() || Some(
                path,
            ) != self.transcript {
                RenameAnswer::Failed(path)
            } else {
                match self.sidecar {
                    None => RenameAnswer::Carried,
                    Some(e) => RenameAnswer::Failed(e),
                }
            },
            RenamePhase::AppendRecord { sid, path } => if Some(sid) != self.conversation() || Some(
                path,
            ) != self.transcript {
                RenameAnswer::Failed(path)
            } else {
                match self.record {
                    None => RenameAnswer::Carried,
                    Some(e) => RenameAnswer::Failed(e),
                }
            },
            RenamePhase::LocatePane => RenameAnswer::Found(self.pane),
            RenamePhase::ProbePane => RenameAnswer::AgentRunning(self.agent),
            RenamePhase::ReadActivity => RenameAnswer::Activity {
                latest: self.latest,
                now: self.now,
            },
            _ => RenameAnswer::Carried,
        }
    }

    /// Where passing the rename on comes to in `fuel` steps: to its end, or to
    /// where the command is typed.
    pub open spec fn serve(self, name: Seq<char>, p: RenamePhase, fuel: nat) -> RenamePhase
        decreases fuel,
    {
        if fuel == 0 || p is Done || p is TypeCommand {
            p
        } else {
            self.serve(name, p.after(name, self.answer(p)), (fuel - 1) as nat)
        }
    }

    /// What comes of a rename.
    pub open spec fn outcome(self, name: Seq<char>) -> RenamePhase {
        self.serve(name, RenamePhase::FindSession, 10)
    }
}

/// A rename is passed on to the transcript of the conversation of the workspace's
/// latest turn, or else of the linked one: beside it and in it. Where there is no
/// session, no conversation or no transcript, or its identifier is no plain one,
/// there is nothing to do; a lookup or a file that fails is the outcome.
pub proof fn law_rename_reaches_the_transcript(w: RenameWorld, name: Seq<char>)
    ensures
        ({
            let r = w.outcome(name);
            let nothing = r == RenamePhase::Done(Ok(()));
            &&& w.session matches Err(e) ==> r == RenamePhase::Done(Err(e))
            &&& w.session == Ok::<bool, String>(false) ==> nothing
            &&& w.session == Ok::<bool, String>(true) ==> {
                &&& w.turn matches Err(e) ==> r == RenamePhase::Done(Err(e))
                &&& w.turn == Ok::<Option<String>, String>(None) ==> (w.link matches Err(e) ==> r
                    == RenamePhase::Done(Err(e)))
                &&& w.turn is Ok && (w.turn->Ok_0 is Some || w.link is Ok) ==> {
                    &&& w.conversation() is None ==> nothing
                    &&& w.conversation() matches Some(sid) ==> {
                        let plain = uuid_parsed(sid@) is Some;
                        &&& !plain || w.transcript is None ==> nothing
                        &&& plain && w.transcript is Some ==> {
                            &&& w.sidecar matches Some(e) ==> r == RenamePhase::Done(Err(e))
                            &&& w.sidecar is None ==> (w.record matches Some(e) ==> r
                                == RenamePhase::Done(Err(e)))
                        }
                    }
                }
            }
        }),
{
    reveal_with_fuel(RenameWorld::serve, 11);
}

/// Once both files carry the name, the command is typed exactly where the agent is
/// seen to run in the terminal, nobody typed for a minute and a half, and the name
/// can be typed as one line. Whatever comes of that, the rename went well.
pub proof fn law_command_is_typed_into_an_idle_terminal(
    w: RenameWorld,
    name: Seq<char>,
    sid: String,
    e: String,
)
    requires
        w.session == Ok::<bool, String>(true),
        w.turn == Ok::<Option<String>, String>(Some(sid)),
        uuid_parsed(sid@) is Some,
        w.transcript is Some,
        w.sidecar is None,
        w.record is None,
    ensures
        ({
            let one_line = name.len() > 0 && forall|i: int|
                0 <= i < name.len() ==> !control(#[trigger] name[i]);
            let idle = w.latest matches Some(at) && w.now - at >= 90;
            let types = w.pane && w.agent == Some(true) && idle && one_line;
            &&& types ==> w.outcome(name) is TypeCommand
            &&& !types ==> w.outcome(name) == RenamePhase::Done(Ok(()))
        }),
        RenamePhase::TypeCommand.after(name, RenameAnswer::Carried) == RenamePhase::Done(Ok(())),
        RenamePhase::TypeCommand.after(name, RenameAnswer::Failed(e)) == RenamePhase::Done(Ok(())),
{
    reveal_with_fuel(RenameWorld::serve, 11);
}

/// The title of the transcript `dir/stem.jsonl` stands in `dir/stem/custom-title.json`;
/// a file of another kind has none.
pub proof fn law_title_stands_beside_its_transcript(path: Seq<char>, dir: Seq<char>, stem: Seq<char>)
    requires
        parent_of(path) == Some(dir),
        final_name(path) == Some(stem + ".jsonl"@),
    ensures
        sidecar_of(path) == Some(joined_path(joined_path(dir, stem), "custom-title.json"@)),
{
    let name = stem + ".jsonl"@;
    let end = ".jsonl"@;
    assert(name.subrange(name.len() - end.len(), name.len() as int) =~= end);
    assert(name.take(name.len() - end.len()) =~= stem);
}

} // verus!
