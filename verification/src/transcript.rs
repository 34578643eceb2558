//! The shared transcript of a team of subagents: an append-only, numbered
//! log of messages, and which of them each member gets to see.
use vstd::prelude::*;

use crate::agents::DebugToolCall;
use crate::text::{ascii_lower, chars_of, lower_chars, owned, seq_eq, str_eq, to_ascii_lowercase};

verus! {

broadcast use vstd::string::group_string_axioms;

/// What a transcript message is.
#[derive(Debug, Clone, Copy, PartialEq, Eq, Structural)]
pub enum TeamMessageKind {
    System,
    Directive,
    Response,
    Discussion,
}

/// One message of a team transcript; `meta_json` is optional metadata as
/// JSON text.
#[derive(Debug, Clone)]
pub struct TeamMessage {
    pub ts: String,
    pub session_id: String,
    pub seq: usize,
    pub from: String,
    pub to: String,
    pub kind: TeamMessageKind,
    pub content: String,
    pub tool_calls: Vec<DebugToolCall>,
    pub meta_json: Option<String>,
}

/// The transcript of one team session. Messages are numbered from 1 in the
/// order they were appended, and all carry the session's id.
pub struct TeamSession {
    session_id: String,
    log_path: String,
    messages: Vec<TeamMessage>,
    seq: usize,
}

impl TeamSession {
    /// The messages are numbered 1, 2, … in order, carry the session id, and
    /// the counter is the number of messages.
    pub closed spec fn wf(&self) -> bool {
        &&& self.seq == self.messages@.len()
        &&& forall|i: int|
            0 <= i < self.messages@.len() ==> (#[trigger] self.messages@[i]).seq == i + 1
                && self.messages@[i].session_id@ == self.session_id@
    }

    /// The messages appended so far, in order.
    pub closed spec fn transcript(&self) -> Seq<TeamMessage> {
        self.messages@
    }

    /// The session's id.
    pub closed spec fn id(&self) -> Seq<char> {
        self.session_id@
    }

    /// Where the session's transcript is written.
    pub closed spec fn path(&self) -> Seq<char> {
        self.log_path@
    }

    /// An empty session with the given id, written to `log_path`.
    pub fn new(session_id: String, log_path: String) -> (s: TeamSession)
        ensures
            s.wf(),
            s.id() == session_id@,
            s.path() == log_path@,
            s.transcript().len() == 0,
    {
        TeamSession { session_id, log_path, messages: Vec::new(), seq: 0 }
    }

    pub fn session_id(&self) -> (r: &str)
        ensures
            r@ == self.id(),
    {
        self.session_id.as_str()
    }

    pub fn log_path(&self) -> (r: &str)
        ensures
            r@ == self.path(),
    {
        self.log_path.as_str()
    }

    pub fn messages(&self) -> (r: &[TeamMessage])
        ensures
            r@ == self.transcript(),
    {
        self.messages.as_slice()
    }

    /// The number the next message gets.
    fn next_seq(&mut self) -> (r: usize)
        requires
            old(self).wf(),
            old(self).transcript().len() < usize::MAX,
        ensures
            r == old(self).transcript().len() + 1,
            final(self).seq == r,
            final(self).messages == old(self).messages,
            final(self).session_id == old(self).session_id,
            final(self).log_path == old(self).log_path,
    {
        self.seq = self.seq + 1;
        self.seq
    }

    /// Appends a message stamped `ts` and returns its number, the number of
    /// messages before it plus one.
    pub fn append(
        &mut self,
        ts: String,
        from: &str,
        to: &str,
        kind: TeamMessageKind,
        content: &str,
        tool_calls: Vec<DebugToolCall>,
        meta_json: Option<String>,
    ) -> (seq: usize)
        requires
            old(self).wf(),
            old(self).transcript().len() < usize::MAX,
        ensures
            final(self).wf(),
            final(self).id() == old(self).id(),
            final(self).path() == old(self).path(),
            seq == old(self).transcript().len() + 1,
            final(self).transcript().len() == seq,
            final(self).transcript().take(old(self).transcript().len() as int) == old(self).transcript(),
            ({
                let m = final(self).transcript().last();
                &&& m.seq == seq
                &&& m.ts@ == ts@
                &&& m.session_id@ == old(self).id()
                &&& m.from@ == from@
                &&& m.to@ == to@
                &&& m.kind == kind
                &&& m.content@ == content@
                &&& m.tool_calls@ == tool_calls@
                &&& m.meta_json == meta_json
            }),
    {
        let n = self.next_seq();
        let msg = TeamMessage {
            ts,
            session_id: owned(self.session_id.as_str()),
            seq: n,
            from: owned(from),
            to: owned(to),
            kind,
            content: owned(content),
            tool_calls,
            meta_json,
        };
        let ghost before = self.messages@;
        self.messages.push(msg);
        proof {
            assert(self.messages@.take(before.len() as int) =~= before);
        }
        n
    }

    /// The messages member `member_name` sees, in order.
    pub fn messages_visible_for(&self, member_name: &str) -> (r: Vec<&TeamMessage>)
        ensures
            derefs(r@) == visible_messages(self.transcript(), member_name@),
    {
        let member = to_ascii_lowercase(member_name);
        let mv = chars_of(member.as_str());
        let mut r: Vec<&TeamMessage> = Vec::new();
        let mut i: usize = 0;
        while i < self.messages.len()
            invariant
                i <= self.messages@.len(),
                mv@ == ascii_lower(member_name@),
                derefs(r@) == visible_messages(self.messages@.take(i as int), member_name@),
            decreases self.messages@.len() - i,
        {
            let m = &self.messages[i];
            proof {
                assert(self.messages@.take(i + 1).drop_last() =~= self.messages@.take(i as int));
            }
            let to_v = chars_of(m.to.as_str());
            let to_l = lower_chars(&to_v);
            let from_v = chars_of(m.from.as_str());
            let from_l = lower_chars(&from_v);
            let shown = m.kind == TeamMessageKind::System || str_eq(m.to.as_str(), "*") || seq_eq(
                &to_l,
                &mv,
            ) || seq_eq(&from_l, &mv) || m.kind == TeamMessageKind::Response;
            if shown {
                let ghost before = r@;
                r.push(m);
                proof {
                    assert(derefs(r@) =~= derefs(before).push(*m));
                }
            }
            i = i + 1;
        }
        proof {
            assert(self.messages@.take(self.messages@.len() as int) =~= self.messages@);
        }
        r
    }
}

/// The messages behind a sequence of references.
pub open spec fn derefs(rs: Seq<&TeamMessage>) -> Seq<TeamMessage> {
    rs.map_values(|m: &TeamMessage| *m)
}

/// Whether a member sees a message: system messages, broadcasts (`*`),
/// messages to or from the member (names compared ignoring ASCII case) and
/// responses. A directive shows only as a broadcast or to or from the member.
pub open spec fn is_visible(m: TeamMessage, member: Seq<char>) -> bool {
    ||| m.kind == TeamMessageKind::System
    ||| m.to@ == "*"@
    ||| ascii_lower(m.to@) == ascii_lower(member)
    ||| ascii_lower(m.from@) == ascii_lower(member)
    ||| m.kind == TeamMessageKind::Response
}

/// The messages of `ms` a member sees, in order.
pub open spec fn visible_messages(ms: Seq<TeamMessage>, member: Seq<char>) -> Seq<TeamMessage>
    decreases ms.len(),
{
    if ms.len() == 0 {
        seq![]
    } else if is_visible(ms.last(), member) {
        visible_messages(ms.drop_last(), member).push(ms.last())
    } else {
        visible_messages(ms.drop_last(), member)
    }
}

} // verus!
