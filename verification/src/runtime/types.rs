//! What sessions, permissions and rules are made of.
use vstd::prelude::*;

use crate::text;

verus! {

/// Identifies a session.
#[derive(Debug, Clone, Copy, PartialEq, Eq, Structural, Hash)]
pub struct SessionId(pub u128);

/// Identifies a tool call.
#[derive(Debug, Clone, Copy, PartialEq, Eq, Structural, Hash)]
pub struct ToolCallId(pub u128);

/// Identifies a question to the user whether a tool call may run.
#[derive(Debug, Clone, Copy, PartialEq, Eq, Structural, Hash)]
pub struct PermissionRequestId(pub u128);

/// What makes a tool call risky.
#[derive(Debug, Clone, Copy, PartialEq, Eq, Structural, Hash)]
pub enum RiskFlag {
    RecursiveRemove,
    Sudo,
    GitForcePush,
    PackagePublish,
    ReadOutsideWorkspace,
    WriteOutsideWorkspace,
    GitDirectory,
    NetworkAccess,
    EnvFile,
    Dotfile,
}

/// When the user is asked whether a tool call may run.
#[derive(Debug, Clone, Copy, PartialEq, Eq, Structural, Hash)]
pub enum ApprovalPolicy {
    Never,
    Always,
    OnRequest,
    Mutating,
    OnFailure,
}

/// The user's answer.
#[derive(Debug, Clone, Copy, PartialEq, Eq, Structural, Hash)]
pub enum PermissionDecision {
    Allow,
    AllowAlways,
    Deny,
}

/// What a rule that allows tool calls looks at.
#[derive(Debug, Clone, Copy, PartialEq, Eq, Structural, Hash)]
pub enum AllowRuleKind {
    ToolName,
    BashPrefix,
    BashRegex,
    PathWrite,
}

/// A rule that allows tool calls without asking.
#[derive(Debug)]
pub struct AllowRule {
    pub kind: AllowRuleKind,
    pub value: String,
}

/// The content of an `AllowRule`.
pub struct RuleView {
    pub kind: AllowRuleKind,
    pub value: Seq<char>,
}

impl View for AllowRule {
    type V = RuleView;

    open spec fn view(&self) -> RuleView {
        RuleView { kind: self.kind, value: self.value@ }
    }
}

impl AllowRule {
    pub fn new(kind: AllowRuleKind, value: &str) -> (r: AllowRule)
        ensures
            r@ == (RuleView { kind, value: value@ }),
    {
        AllowRule { kind, value: value.to_string() }
    }

    pub fn same(&self, other: &AllowRule) -> (r: bool)
        ensures
            r == (self@ == other@),
    {
        self.kind == other.kind && text::same(self.value.as_str(), other.value.as_str())
    }
}

impl Clone for AllowRule {
    fn clone(&self) -> (r: AllowRule)
        ensures
            r@ == self@,
    {
        AllowRule { kind: self.kind, value: self.value.clone() }
    }
}

/// What a session is doing.
#[derive(Debug, Clone, Copy, PartialEq, Eq, Structural, Hash)]
pub enum SessionStatus {
    Idle,
    Starting,
    Streaming,
    RunningTools,
    WaitingForPermission,
    Completed,
    Failed,
}

/// Why a turn or a step of it ended.
#[derive(Debug, Clone, Copy, PartialEq, Eq, Structural, Hash)]
pub enum StopReason {
    EndTurn,
    Interrupted,
    Error,
}

} // verus!
