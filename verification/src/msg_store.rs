//! The messages that a running execution keeps in memory, within a budget of
//! bytes.

use std::collections::VecDeque;

use vstd::prelude::*;

verus! {

/// How many bytes of messages are kept where nothing else is configured.
pub const DEFAULT_HISTORY_BYTES: usize = 16777216;

/// How many messages a subscriber may fall behind where nothing else is
/// configured.
pub const DEFAULT_BROADCAST_CAPACITY: usize = 32768;

/// A message of an execution.
#[derive(Debug, PartialEq, Eq)]
pub enum LogMsg {
    Stdout(String),
    Stderr(String),
    /// A change of the shown entries, as JSON.
    JsonPatch(String),
    SessionId(String),
    MessageId(String),
    NativeUuid(String),
    Ready,
    Finished,
}

/// A kept message and what it counts for.
#[derive(Debug, PartialEq, Eq)]
pub struct StoredMsg {
    pub msg: LogMsg,
    pub bytes: usize,
}

/// What the messages count for together.
pub open spec fn total(history: Seq<StoredMsg>) -> nat
    decreases history.len(),
{
    if history.len() == 0 {
        0
    } else {
        history[0].bytes as nat + total(history.subrange(1, history.len() as int))
    }
}

/// What is left of `history` once there is room for `bytes` more: the oldest
/// messages go first, and only as many as have to.
pub open spec fn making_room(history: Seq<StoredMsg>, bytes: nat, budget: nat) -> Seq<StoredMsg>
    decreases history.len(),
{
    if history.len() > 0 && total(history) + bytes > budget && budget < usize::MAX {
        making_room(history.subrange(1, history.len() as int), bytes, budget)
    } else {
        history
    }
}

/// The messages of an execution, the newest last.
#[derive(Debug)]
pub struct MsgStore {
    history: VecDeque<StoredMsg>,
    total_bytes: usize,
    budget: usize,
}

impl MsgStore {
    pub closed spec fn history(self) -> Seq<StoredMsg> {
        self.history@
    }

    pub closed spec fn budget(self) -> nat {
        self.budget as nat
    }

    /// The count is kept: it is what the messages count for, as far as a
    /// machine word goes.
    pub closed spec fn valid(self) -> bool {
        &&& self.total_bytes == if total(self.history@) <= usize::MAX {
            total(self.history@)
        } else {
            usize::MAX as nat
        }
        &&& self.budget < usize::MAX ==> total(self.history@) <= usize::MAX
    }

    /// An empty store with a budget of bytes.
    pub fn new(budget: usize) -> (s: MsgStore)
        ensures
            s.valid(),
            s.history().len() == 0,
            s.budget() == budget,
    {
        MsgStore { history: VecDeque::new(), total_bytes: 0, budget }
    }

    /// Keeps a message that counts for `bytes`. The oldest messages make room
    /// for it; the message itself is kept in any case.
    pub fn push(&mut self, msg: LogMsg, bytes: usize)
        requires
            old(self).valid(),
        ensures
            final(self).valid(),
            final(self).budget() == old(self).budget(),
            final(self).history() == making_room(
                old(self).history(),
                bytes as nat,
                old(self).budget(),
            ).push(StoredMsg { msg, bytes }),
    {
        let ghost first = self.history@;
        let ghost kept = making_room(first, bytes as nat, self.budget as nat);
        let mut done = false;
        while !done && self.total_bytes.saturating_add(bytes) > self.budget
            invariant
                self.valid(),
                self.budget == old(self).budget,
                kept == making_room(self.history@, bytes as nat, self.budget as nat),
                done ==> self.history@.len() == 0,
            decreases self.history@.len(), if done { 0int } else { 1int },
        {
            let ghost before = self.history@;
            match self.history.pop_front() {
                Some(front) => {
                    proof {
                        assert(total(before) == front.bytes as nat + total(self.history@));
                    }
                    self.total_bytes = self.total_bytes.saturating_sub(front.bytes);
                },
                None => {
                    done = true;
                },
            }
        }
        proof {
            assert(self.history@ == kept);
            lemma_total_push(kept, StoredMsg { msg, bytes });
        }
        self.history.push_back(StoredMsg { msg, bytes });
        self.total_bytes = self.total_bytes.saturating_add(bytes);
    }

    pub fn push_stdout(&mut self, s: String, bytes: usize)
        requires
            old(self).valid(),
        ensures
            final(self).valid(),
            final(self).budget() == old(self).budget(),
            final(self).history() == making_room(
                old(self).history(),
                bytes as nat,
                old(self).budget(),
            ).push(StoredMsg { msg: LogMsg::Stdout(s), bytes }),
    {
        self.push(LogMsg::Stdout(s), bytes);
    }

    pub fn push_patch(&mut self, patch: String, bytes: usize)
        requires
            old(self).valid(),
        ensures
            final(self).valid(),
            final(self).budget() == old(self).budget(),
            final(self).history() == making_room(
                old(self).history(),
                bytes as nat,
                old(self).budget(),
            ).push(StoredMsg { msg: LogMsg::JsonPatch(patch), bytes }),
    {
        self.push(LogMsg::JsonPatch(patch), bytes);
    }

    pub fn push_session_id(&mut self, session_id: String, bytes: usize)
        requires
            old(self).valid(),
        ensures
            final(self).valid(),
            final(self).budget() == old(self).budget(),
            final(self).history() == making_room(
                old(self).history(),
                bytes as nat,
                old(self).budget(),
            ).push(StoredMsg { msg: LogMsg::SessionId(session_id), bytes }),
    {
        self.push(LogMsg::SessionId(session_id), bytes);
    }

    pub fn push_message_id(&mut self, id: String, bytes: usize)
        requires
            old(self).valid(),
        ensures
            final(self).valid(),
            final(self).budget() == old(self).budget(),
            final(self).history() == making_room(
                old(self).history(),
                bytes as nat,
                old(self).budget(),
            ).push(StoredMsg { msg: LogMsg::MessageId(id), bytes }),
    {
        self.push(LogMsg::MessageId(id), bytes);
    }

    pub fn push_native_uuid(&mut self, uuid: String, bytes: usize)
        requires
            old(self).valid(),
        ensures
            final(self).valid(),
            final(self).budget() == old(self).budget(),
            final(self).history() == making_room(
                old(self).history(),
                bytes as nat,
                old(self).budget(),
            ).push(StoredMsg { msg: LogMsg::NativeUuid(uuid), bytes }),
    {
        self.push(LogMsg::NativeUuid(uuid), bytes);
    }

    pub fn push_finished(&mut self, bytes: usize)
        requires
            old(self).valid(),
        ensures
            final(self).valid(),
            final(self).budget() == old(self).budget(),
            final(self).history() == making_room(
                old(self).history(),
                bytes as nat,
                old(self).budget(),
            ).push(StoredMsg { msg: LogMsg::Finished, bytes }),
    {
        self.push(LogMsg::Finished, bytes);
    }

    /// The kept messages, the newest last.
    pub fn get_history(&self) -> (out: Vec<LogMsg>)
        ensures
            out@ == self.history().map_values(|m: StoredMsg| m.msg),
    {
        let mut out: Vec<LogMsg> = Vec::new();
        for i in 0..self.history.len()
            invariant
                out@ == self.history@.take(i as int).map_values(|m: StoredMsg| m.msg),
        {
            out.push(clone_msg(&self.history[i].msg));
            proof {
                assert(self.history@.take(i + 1).map_values(|m: StoredMsg| m.msg)
                    =~= self.history@.take(i as int).map_values(|m: StoredMsg| m.msg).push(
                    self.history@[i as int].msg,
                ));
            }
        }
        proof {
            assert(self.history@.take(self.history@.len() as int) =~= self.history@);
        }
        out
    }
}

impl Default for MsgStore {
    fn default() -> (s: Self)
        ensures
            s.valid(),
            s.history().len() == 0,
            s.budget() == DEFAULT_HISTORY_BYTES,
    {
        MsgStore::new(DEFAULT_HISTORY_BYTES)
    }
}

/// A copy of a message.
pub fn clone_msg(msg: &LogMsg) -> (out: LogMsg)
    ensures
        out == *msg,
{
    match msg {
        LogMsg::Stdout(s) => LogMsg::Stdout(s.clone()),
        LogMsg::Stderr(s) => LogMsg::Stderr(s.clone()),
        LogMsg::JsonPatch(s) => LogMsg::JsonPatch(s.clone()),
        LogMsg::SessionId(s) => LogMsg::SessionId(s.clone()),
        LogMsg::MessageId(s) => LogMsg::MessageId(s.clone()),
        LogMsg::NativeUuid(s) => LogMsg::NativeUuid(s.clone()),
        LogMsg::Ready => LogMsg::Ready,
        LogMsg::Finished => LogMsg::Finished,
    }
}

/// What a reader of one output stream makes of a message.
#[derive(Debug, PartialEq, Eq)]
pub enum StreamItem {
    /// A chunk of the stream.
    Chunk(String),
    /// Nothing of this stream.
    Skip,
    /// The end of the stream.
    End,
}

/// What a reader of the standard output makes of a message.
pub fn stdout_item(msg: &LogMsg) -> (item: StreamItem)
    ensures
        item == match *msg {
            LogMsg::Finished => StreamItem::End,
            LogMsg::Stdout(s) => StreamItem::Chunk(s),
            _ => StreamItem::Skip,
        },
{
    match msg {
        LogMsg::Finished => StreamItem::End,
        LogMsg::Stdout(s) => StreamItem::Chunk(s.clone()),
        _ => StreamItem::Skip,
    }
}

/// What a reader of the standard error makes of a message.
pub fn stderr_item(msg: &LogMsg) -> (item: StreamItem)
    ensures
        item == match *msg {
            LogMsg::Finished => StreamItem::End,
            LogMsg::Stderr(s) => StreamItem::Chunk(s),
            _ => StreamItem::Skip,
        },
{
    match msg {
        LogMsg::Finished => StreamItem::End,
        LogMsg::Stderr(s) => StreamItem::Chunk(s.clone()),
        _ => StreamItem::Skip,
    }
}

/// The message that stands for a failed source.
pub fn stream_error_msg(error: &str) -> (msg: LogMsg)
    ensures
        msg matches LogMsg::Stderr(s) && s@ == "stream error: "@ + error@,
{
    LogMsg::Stderr(crate::text::concat2("stream error: ", error))
}

proof fn lemma_total_push(h: Seq<StoredMsg>, m: StoredMsg)
    ensures
        total(h.push(m)) == total(h) + m.bytes,
    decreases h.len(),
{
    let grown = h.push(m);
    if h.len() == 0 {
        assert(grown.subrange(1, 1) =~= Seq::<StoredMsg>::empty());
        assert(total(grown.subrange(1, grown.len() as int)) == 0);
    } else {
        let rest = h.subrange(1, h.len() as int);
        lemma_total_push(rest, m);
        assert(grown.subrange(1, grown.len() as int) =~= rest.push(m));
    }
}

proof fn lemma_room(h: Seq<StoredMsg>, bytes: nat, budget: nat)
    ensures
        ({
            let kept = making_room(h, bytes, budget);
            &&& kept.len() <= h.len()
            &&& kept == h.subrange(h.len() - kept.len(), h.len() as int)
            &&& budget < usize::MAX ==> kept.len() == 0 || total(kept) + bytes <= budget
        }),
    decreases h.len(),
{
    if h.len() > 0 && total(h) + bytes > budget && budget < usize::MAX {
        let rest = h.subrange(1, h.len() as int);
        lemma_room(rest, bytes, budget);
        let kept = making_room(rest, bytes, budget);
        assert(rest.subrange(rest.len() - kept.len(), rest.len() as int) =~= h.subrange(
            h.len() - kept.len(),
            h.len() as int,
        ));
    } else {
        assert(h.subrange(0, h.len() as int) =~= h);
    }
}

/// What is kept is always the latest messages, without a gap; the newest one is
/// among them; and beyond it they stay within the budget.
pub proof fn law_history_is_bounded_suffix(h: Seq<StoredMsg>, m: StoredMsg, budget: nat)
    requires
        budget < usize::MAX || total(h) + m.bytes <= budget,
    ensures
        ({
            let kept = making_room(h, m.bytes as nat, budget).push(m);
            &&& kept.last() == m
            &&& kept == h.push(m).subrange(h.len() + 1 - kept.len(), h.len() as int + 1)
            &&& total(kept) <= budget || kept.len() == 1
        }),
{
    lemma_room(h, m.bytes as nat, budget);
    let room = making_room(h, m.bytes as nat, budget);
    lemma_total_push(room, m);
    assert(room.push(m) =~= h.push(m).subrange(h.len() - room.len(), h.len() as int + 1));
}

proof fn lemma_room_is_needed(h: Seq<StoredMsg>, bytes: nat, budget: nat, j: int)
    requires
        0 <= j < h.len() - making_room(h, bytes, budget).len(),
    ensures
        total(h.subrange(j, h.len() as int)) + bytes > budget,
    decreases h.len(),
{
    if j == 0 {
        assert(h.subrange(0, h.len() as int) =~= h);
    } else {
        let rest = h.subrange(1, h.len() as int);
        lemma_room_is_needed(rest, bytes, budget, j - 1);
        assert(rest.subrange(j - 1, rest.len() as int) =~= h.subrange(j, h.len() as int));
    }
}

/// No more is dropped than has to be: had any dropped message been kept, with
/// all that came after it, the budget would not have been enough.
pub proof fn law_only_needed_room_is_made(h: Seq<StoredMsg>, m: StoredMsg, budget: nat)
    ensures
        ({
            let kept = making_room(h, m.bytes as nat, budget);
            &&& kept.len() <= h.len()
            &&& forall|j: int|
                0 <= j < h.len() - kept.len() ==> total(
                    (#[trigger] h.subrange(j, h.len() as int)).push(m),
                ) > budget
        }),
{
    let kept = making_room(h, m.bytes as nat, budget);
    lemma_room(h, m.bytes as nat, budget);
    assert forall|j: int| 0 <= j < h.len() - kept.len() implies total(
        (#[trigger] h.subrange(j, h.len() as int)).push(m),
    ) > budget by {
        lemma_room_is_needed(h, m.bytes as nat, budget, j);
        lemma_total_push(h.subrange(j, h.len() as int), m);
    }
}

/// What messages count for together is the sum of what each counts for, and every
/// message counts.
pub proof fn law_every_message_counts(h: Seq<StoredMsg>, m: StoredMsg, k: int)
    ensures
        total(Seq::empty()) == 0,
        total(h.push(m)) == total(h) + m.bytes,
        0 <= k < h.len() ==> total(h) >= h[k].bytes,
    decreases h.len(),
{
    lemma_total_push(h, m);
    if 0 < k < h.len() {
        let rest = h.subrange(1, h.len() as int);
        law_every_message_counts(rest, m, k - 1);
        assert(rest[k - 1] == h[k]);
    }
}

} // verus!
