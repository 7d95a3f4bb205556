//! The transcript of a session.
use vstd::prelude::*;

use crate::runtime::types::SessionId;
use crate::text;

verus! {

/// Who speaks in a transcript.
#[derive(Debug, Clone, Copy, PartialEq, Eq, Structural)]
pub enum Role {
    User,
    Assistant,
    Tool,
}

/// The name of a role.
pub open spec fn role_label(role: Role) -> Seq<char> {
    match role {
        Role::User => "User"@,
        Role::Assistant => "Assistant"@,
        Role::Tool => "Tool"@,
    }
}

/// The role that a name means.
pub open spec fn role_named(name: Seq<char>) -> Option<Role> {
    if name == "User"@ || name == "user"@ {
        Some(Role::User)
    } else if name == "Assistant"@ || name == "assistant"@ {
        Some(Role::Assistant)
    } else if name == "Tool"@ || name == "tool"@ {
        Some(Role::Tool)
    } else {
        None
    }
}

/// A name that means no role.
#[derive(Debug)]
pub struct RoleParseError(pub String);

impl RoleParseError {
    pub fn message(&self) -> (r: String)
        ensures
            r@ == "unknown transcript role: "@ + self.0@,
    {
        text::cat2("unknown transcript role: ", self.0.as_str())
    }
}

impl Role {
    /// The name of the role.
    pub fn label(self) -> (r: &'static str)
        ensures
            r@ == role_label(self),
    {
        match self {
            Role::User => "User",
            Role::Assistant => "Assistant",
            Role::Tool => "Tool",
        }
    }

    /// The role that the name means.
    pub fn parse(value: &str) -> (r: Result<Role, RoleParseError>)
        ensures
            match r {
                Ok(role) => role_named(value@) == Some(role),
                Err(e) => role_named(value@) is None && e.0@ == value@,
            },
    {
        if text::same(value, "User") || text::same(value, "user") {
            Ok(Role::User)
        } else if text::same(value, "Assistant") || text::same(value, "assistant") {
            Ok(Role::Assistant)
        } else if text::same(value, "Tool") || text::same(value, "tool") {
            Ok(Role::Tool)
        } else {
            Err(RoleParseError(value.to_string()))
        }
    }
}

/// The name of a role means the role.
pub proof fn labels_name_their_roles(role: Role)
    ensures
        role_named(role_label(role)) == Some(role),
{
    reveal_strlit("User");
    reveal_strlit("user");
    reveal_strlit("Assistant");
    reveal_strlit("assistant");
    reveal_strlit("Tool");
    reveal_strlit("tool");
    assert("Assistant"@.len() == 9);
    assert("Tool"@[0] == 'T');
    assert("User"@[0] == 'U');
    assert("user"@[0] == 'u');
    assert("tool"@[0] == 't');
}

/// A message of a transcript.
#[derive(Debug)]
pub struct TranscriptMessage {
    pub role: Role,
    pub content: String,
}

/// The content of a `TranscriptMessage`.
pub struct MessageView {
    pub role: Role,
    pub content: Seq<char>,
}

impl View for TranscriptMessage {
    type V = MessageView;

    open spec fn view(&self) -> MessageView {
        MessageView {
            role: self.role,
            content: self.content@,
        }
    }
}

impl TranscriptMessage {
    pub fn new(role: Role, content: &str) -> (r: TranscriptMessage)
        ensures
            r@ == (MessageView { role, content: content@ }),
    {
        TranscriptMessage { role, content: content.to_string() }
    }
}

pub open spec fn message_views(messages: Seq<TranscriptMessage>) -> Seq<MessageView> {
    messages.map_values(|m: TranscriptMessage| m@)
}

/// A session and its transcript.
#[derive(Debug)]
pub struct SessionState {
    pub session_id: SessionId,
    pub transcript: Vec<TranscriptMessage>,
}

/// The content of a `SessionState`.
pub struct SessionView {
    pub session_id: SessionId,
    pub transcript: Seq<MessageView>,
}

impl View for SessionState {
    type V = SessionView;

    open spec fn view(&self) -> SessionView {
        SessionView { session_id: self.session_id, transcript: message_views(self.transcript@) }
    }
}

/// A session with one more message.
pub open spec fn said(state: SessionView, role: Role, content: Seq<char>) -> SessionView {
    SessionView { transcript: state.transcript.push(MessageView { role, content }), ..state }
}

impl SessionState {
    /// The session without messages.
    pub fn new(session_id: SessionId) -> (r: SessionState)
        ensures
            r@ == (SessionView { session_id, transcript: Seq::empty() }),
    {
        let r = SessionState { session_id, transcript: Vec::new() };
        assert(message_views(r.transcript@) =~= Seq::empty());
        r
    }

    pub fn with_transcript(session_id: SessionId, transcript: Vec<TranscriptMessage>) -> (r:
        SessionState)
        ensures
            r@ == (SessionView { session_id, transcript: message_views(transcript@) }),
    {
        SessionState { session_id, transcript }
    }

    /// Appends a message.
    pub fn push(&mut self, role: Role, content: &str)
        ensures
            final(self)@ == said(old(self)@, role, content@),
    {
        let ghost before = message_views(self.transcript@);
        self.transcript.push(TranscriptMessage::new(role, content));
        assert(message_views(self.transcript@) =~= before.push(
            MessageView { role, content: content@ },
        ));
    }

    /// The messages with the names of their roles, as a request is made of them.
    pub fn context_messages(&self) -> (r: Vec<(String, String)>)
        ensures
            r@.len() == self@.transcript.len(),
            forall|i: int|
                0 <= i < r@.len() ==> (#[trigger] r@[i]).0@ == role_label(
                    self@.transcript[i].role,
                ) && r@[i].1@ == self@.transcript[i].content,
    {
        let ghost all = self@.transcript;
        let mut r: Vec<(String, String)> = Vec::new();
        let mut i: usize = 0;
        while i < self.transcript.len()
            invariant
                i <= self.transcript@.len(),
                r@.len() == i,
                all == message_views(self.transcript@),
                forall|k: int|
                    0 <= k < i ==> (#[trigger] r@[k]).0@ == role_label(all[k].role) && r@[k].1@
                        == all[k].content,
            decreases self.transcript@.len() - i,
        {
            let m = &self.transcript[i];
            assert(all[i as int] == m@);
            r.push((m.role.label().to_string(), m.content.clone()));
            i += 1;
        }
        r
    }
}

} // verus!
