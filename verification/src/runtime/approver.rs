//! Who decides on the tool calls that need approval.
use vstd::prelude::*;

use crate::runtime::local::ApprovalRequest;
use crate::runtime::types::PermissionDecision;

verus! {

/// What decides whether a tool call may run.
pub trait Approver {
    fn decide(&self, request: &ApprovalRequest) -> PermissionDecision;

    /// The message that goes with the latest decision, such as why a call was denied.
    fn last_message(&self) -> Option<String>;
}

/// Allows every call, for runs without a user.
#[derive(Debug)]
pub struct AutoApprove;

impl Approver for AutoApprove {
    fn decide(&self, request: &ApprovalRequest) -> (r: PermissionDecision)
        ensures
            r == PermissionDecision::Allow,
    {
        PermissionDecision::Allow
    }

    fn last_message(&self) -> (r: Option<String>)
        ensures
            r is None,
    {
        None
    }
}

/// Denies every call, for locked runs.
#[derive(Debug)]
pub struct AutoDeny;

impl Approver for AutoDeny {
    fn decide(&self, request: &ApprovalRequest) -> (r: PermissionDecision)
        ensures
            r == PermissionDecision::Deny,
    {
        PermissionDecision::Deny
    }

    fn last_message(&self) -> (r: Option<String>)
        ensures
            r is None,
    {
        None
    }
}

} // verus!
