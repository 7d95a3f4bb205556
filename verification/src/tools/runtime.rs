//! The workspace that the tools work in, and how far they are confined to it.
use vstd::prelude::*;

use crate::sandbox::{SandboxPolicy, SandboxPolicyView};
use crate::tools::error::{ToolError, ToolErrorView};
use crate::tools::files::{DEFAULT_GREP_MATCH_LIMIT, DEFAULT_OUTPUT_LIMIT_BYTES};
use crate::tools::paths::{PathRequest, PathRequestView};

verus! {

/// The setting in which tools are carried out.
#[derive(Debug)]
pub struct ToolRuntime {
    workspace_root: String,
    output_limit_bytes: usize,
    grep_match_limit: usize,
    sandbox: SandboxPolicy,
    allow_outside_paths: bool,
}

/// The content of a `ToolRuntime`.
pub struct RuntimeView {
    pub workspace_root: Seq<char>,
    pub output_limit_bytes: usize,
    pub grep_match_limit: usize,
    pub sandbox: SandboxPolicyView,
    pub allow_outside_paths: bool,
}

impl View for ToolRuntime {
    type V = RuntimeView;

    closed spec fn view(&self) -> RuntimeView {
        RuntimeView {
            workspace_root: self.workspace_root@,
            output_limit_bytes: self.output_limit_bytes,
            grep_match_limit: self.grep_match_limit,
            sandbox: self.sandbox@,
            allow_outside_paths: self.allow_outside_paths,
        }
    }
}

/// What is known of a directory that is to become a workspace.
#[derive(Debug)]
pub struct WorkspaceFacts {
    /// Whether the path leads to a directory, or why that cannot be told.
    pub is_dir: Result<bool, String>,
    /// The path without links and dots, or why there is none.
    pub canonical: Result<String, String>,
}

/// The canonical path of a workspace: an error where the path cannot be inspected, is no
/// directory or cannot be made canonical.
pub open spec fn workspace_of(path: Seq<char>, facts: WorkspaceFacts) -> Result<
    Seq<char>,
    ToolErrorView,
> {
    match facts.is_dir {
        Err(source) => Err(ToolErrorView::WorkspaceIo { path, source: source@ }),
        Ok(false) => Err(ToolErrorView::WorkspaceNotDirectory { path }),
        Ok(true) => match facts.canonical {
            Err(source) => Err(ToolErrorView::WorkspaceIo { path, source: source@ }),
            Ok(canonical) => Ok(canonical@),
        },
    }
}

/// The setting in a workspace, with the given freedom.
pub open spec fn runtime_in(
    root: Seq<char>,
    sandbox: SandboxPolicyView,
    allow_outside_paths: bool,
) -> RuntimeView {
    RuntimeView {
        workspace_root: root,
        output_limit_bytes: DEFAULT_OUTPUT_LIMIT_BYTES,
        grep_match_limit: DEFAULT_GREP_MATCH_LIMIT,
        sandbox,
        allow_outside_paths,
    }
}

/// The content of what building a runtime returned.
pub open spec fn runtime_result(r: Result<ToolRuntime, ToolError>) -> Result<
    RuntimeView,
    ToolErrorView,
> {
    match r {
        Ok(runtime) => Ok(runtime@),
        Err(e) => Err(e@),
    }
}

/// The setting in the workspace, where there is one.
pub open spec fn built(
    workspace: Result<Seq<char>, ToolErrorView>,
    sandbox: SandboxPolicyView,
    allow_outside_paths: bool,
) -> Result<RuntimeView, ToolErrorView> {
    match workspace {
        Ok(root) => Ok(runtime_in(root, sandbox, allow_outside_paths)),
        Err(e) => Err(e),
    }
}

/// The policy that confines commands to a workspace and the temporary directory.
pub open spec fn default_policy(root: Seq<char>, temp_dir: Option<Seq<char>>) -> SandboxPolicyView {
    SandboxPolicyView::Restricted {
        write_roots: match temp_dir {
            Some(tmp) => seq![root, tmp],
            None => seq![root],
        },
        deny_network: true,
    }
}

fn canonical_workspace(path: &str, facts: WorkspaceFacts) -> (r: Result<String, ToolError>)
    ensures
        match r {
            Ok(root) => workspace_of(path@, facts) == Ok::<Seq<char>, ToolErrorView>(root@),
            Err(e) => workspace_of(path@, facts) == Err::<Seq<char>, ToolErrorView>(e@),
        },
{
    match facts.is_dir {
        Err(source) => Err(ToolError::workspace_io(path, source.as_str())),
        Ok(is_dir) => if !is_dir {
            Err(ToolError::WorkspaceNotDirectory { path: path.to_string() })
        } else {
            match facts.canonical {
                Err(source) => Err(ToolError::workspace_io(path, source.as_str())),
                Ok(canonical) => Ok(canonical),
            }
        },
    }
}

impl ToolRuntime {
    /// A setting in which paths stay in the workspace and commands run unconfined.
    pub fn new(path: &str, facts: WorkspaceFacts) -> (r: Result<ToolRuntime, ToolError>)
        ensures
            runtime_result(r) == built(
                workspace_of(path@, facts),
                SandboxPolicyView::Disabled,
                false,
            ),
    {
        match canonical_workspace(path, facts) {
            Err(e) => Err(e),
            Ok(workspace_root) => Ok(
                ToolRuntime {
                    workspace_root,
                    output_limit_bytes: DEFAULT_OUTPUT_LIMIT_BYTES,
                    grep_match_limit: DEFAULT_GREP_MATCH_LIMIT,
                    sandbox: SandboxPolicy::Disabled,
                    allow_outside_paths: false,
                },
            ),
        }
    }

    /// A setting in which paths may lead anywhere and commands run unconfined.
    pub fn unrestricted(path: &str, facts: WorkspaceFacts) -> (r: Result<ToolRuntime, ToolError>)
        ensures
            runtime_result(r) == built(workspace_of(path@, facts), SandboxPolicyView::Disabled, true),
    {
        match ToolRuntime::new(path, facts) {
            Err(e) => Err(e),
            Ok(mut runtime) => {
                runtime.allow_outside_paths = true;
                Ok(runtime)
            },
        }
    }

    /// A setting whose commands are confined by `sandbox`.
    pub fn with_sandbox(path: &str, facts: WorkspaceFacts, sandbox: SandboxPolicy) -> (r: Result<
        ToolRuntime,
        ToolError,
    >)
        ensures
            runtime_result(r) == built(workspace_of(path@, facts), sandbox@, false),
    {
        match ToolRuntime::new(path, facts) {
            Err(e) => Err(e),
            Ok(mut runtime) => {
                runtime.sandbox = sandbox;
                Ok(runtime)
            },
        }
    }

    /// A setting whose commands may write to the workspace and the temporary directory
    /// only, without network.
    pub fn sandboxed(path: &str, facts: WorkspaceFacts, temp_dir: Option<&str>) -> (r: Result<
        ToolRuntime,
        ToolError,
    >)
        ensures
            runtime_result(r) == match workspace_of(path@, facts) {
                Ok(root) => Ok(
                    runtime_in(
                        root,
                        default_policy(
                            root,
                            match temp_dir {
                                Some(tmp) => Some(tmp@),
                                None => None,
                            },
                        ),
                        false,
                    ),
                ),
                Err(e) => Err(e),
            },
    {
        match ToolRuntime::new(path, facts) {
            Err(e) => Err(e),
            Ok(mut runtime) => {
                runtime.sandbox =
                SandboxPolicy::workspace_default(runtime.workspace_root.as_str(), temp_dir);
                Ok(runtime)
            },
        }
    }

    /// The setting for a single call that the user approved: the same workspace, paths may
    /// lead anywhere and commands run unconfined.
    pub fn approved_outside_access(&self) -> (r: ToolRuntime)
        ensures
            r@ == (RuntimeView {
                sandbox: SandboxPolicyView::Disabled,
                allow_outside_paths: true,
                ..self@
            }),
    {
        ToolRuntime {
            workspace_root: self.workspace_root.clone(),
            output_limit_bytes: self.output_limit_bytes,
            grep_match_limit: self.grep_match_limit,
            sandbox: SandboxPolicy::Disabled,
            allow_outside_paths: true,
        }
    }

    pub fn workspace_root(&self) -> (r: &str)
        ensures
            r@ == self@.workspace_root,
    {
        self.workspace_root.as_str()
    }

    pub fn sandbox(&self) -> (r: &SandboxPolicy)
        ensures
            r@ == self@.sandbox,
    {
        &self.sandbox
    }

    pub fn output_limit_bytes(&self) -> (r: usize)
        ensures
            r == self@.output_limit_bytes,
    {
        self.output_limit_bytes
    }

    pub fn grep_match_limit(&self) -> (r: usize)
        ensures
            r == self@.grep_match_limit,
    {
        self.grep_match_limit
    }

    /// The request for the file that `input` means in this setting.
    pub fn path_request(&self, input: &str, write: bool) -> (r: PathRequest)
        ensures
            r@ == (PathRequestView {
                workspace_root: self@.workspace_root,
                allow_outside: self@.allow_outside_paths,
                input: input@,
                write,
            }),
    {
        PathRequest {
            workspace_root: self.workspace_root.clone(),
            allow_outside: self.allow_outside_paths,
            input: input.to_string(),
            write,
        }
    }
}

/// Where nothing else is said, commands may write below the workspace and the directory for
/// temporary files, and nowhere else, and the network is denied.
pub proof fn commands_are_confined_by_default(root: Seq<char>, temp: Seq<char>)
    ensures
        default_policy(root, None) == (SandboxPolicyView::Restricted {
            write_roots: seq![root],
            deny_network: true,
        }),
        default_policy(root, Some(temp)) == (SandboxPolicyView::Restricted {
            write_roots: seq![root, temp],
            deny_network: true,
        }),
{
}

/// A workspace must be a directory that can be looked at; the tools then work in it without
/// links and dots, with the limits that hold by default.
pub proof fn a_workspace_is_a_directory(
    path: Seq<char>,
    facts: WorkspaceFacts,
    sandbox: SandboxPolicyView,
    outside: bool,
)
    ensures
        facts.is_dir matches Ok(true) && facts.canonical is Ok ==> (built(
            workspace_of(path, facts),
            sandbox,
            outside,
        ) matches Ok(r) && r.workspace_root == facts.canonical->Ok_0@ && r.sandbox == sandbox
            && r.allow_outside_paths == outside && r.output_limit_bytes == 65536
            && r.grep_match_limit == 100),
        facts.is_dir matches Ok(false) ==> built(workspace_of(path, facts), sandbox, outside)
            == Err::<RuntimeView, ToolErrorView>(ToolErrorView::WorkspaceNotDirectory { path }),
        facts.is_dir matches Err(source) ==> built(workspace_of(path, facts), sandbox, outside)
            == Err::<RuntimeView, ToolErrorView>(
            ToolErrorView::WorkspaceIo { path, source: source@ },
        ),
{
}

} // verus!
