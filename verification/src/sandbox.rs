//! How shell commands are confined: a Seatbelt profile that denies by default, allows
//! reads, and allows writes under the given roots only.
use vstd::prelude::*;

use crate::text;
use crate::text_laws;

verus! {

/// The operating systems between which the confinement of commands differs.
#[derive(Debug, Clone, Copy, PartialEq, Eq, Structural)]
pub enum Platform {
    MacOs,
    Other,
}

/// How shell commands are confined.
#[derive(Debug)]
pub enum SandboxPolicy {
    /// Commands run without confinement.
    Disabled,
    /// Writes are confined to the roots, and the network may be denied.
    Restricted { write_roots: Vec<String>, deny_network: bool },
}

/// The content of a `SandboxPolicy`.
pub enum SandboxPolicyView {
    Disabled,
    Restricted { write_roots: Seq<Seq<char>>, deny_network: bool },
}

impl View for SandboxPolicy {
    type V = SandboxPolicyView;

    open spec fn view(&self) -> SandboxPolicyView {
        match self {
            SandboxPolicy::Disabled => SandboxPolicyView::Disabled,
            SandboxPolicy::Restricted { write_roots, deny_network } => {
                SandboxPolicyView::Restricted {
                    write_roots: text::views(write_roots@),
                    deny_network: *deny_network,
                }
            },
        }
    }
}

/// A text with a backslash before each backslash and each quotation mark.
pub open spec fn escaped(s: Seq<char>) -> Seq<char>
    decreases s.len(),
{
    if s.len() == 0 {
        seq![]
    } else if s.last() == '\\' || s.last() == '"' {
        escaped(s.drop_last()).push('\\').push(s.last())
    } else {
        escaped(s.drop_last()).push(s.last())
    }
}

/// A path as a string literal of a profile.
pub open spec fn quoted(path: Seq<char>) -> Seq<char> {
    "\""@ + escaped(path) + "\""@
}

/// The line of a profile that allows writes under a root.
pub open spec fn root_line(root: Seq<char>) -> Seq<char> {
    "    (subpath "@ + quoted(root) + ")\n"@
}

pub open spec fn root_lines(roots: Seq<Seq<char>>) -> Seq<char> {
    text::concat(roots.map_values(|root: Seq<char>| root_line(root)))
}

pub open spec fn profile_head() -> Seq<char> {
    "(version 1)\n(deny default)\n(allow process-exec)\n(allow process-fork)\n(allow signal (target self))\n(allow sysctl-read)\n(allow mach-lookup)\n(allow file-read*)\n"@
}

pub open spec fn profile_writes() -> Seq<char> {
    "(allow file-write*\n    (literal \"/dev/null\")\n    (literal \"/dev/stdout\")\n    (literal \"/dev/stderr\")\n    (literal \"/dev/tty\")\n"@
}

/// The profile that confines writes to the roots.
pub open spec fn seatbelt_profile(roots: Seq<Seq<char>>, deny_network: bool) -> Seq<char> {
    profile_head() + (if deny_network {
        "(deny network*)\n"@
    } else {
        "(allow network*)\n"@
    }) + profile_writes() + root_lines(roots) + ")\n"@
}

/// The program and the arguments that run a shell command under a policy.
pub open spec fn shell_command(
    policy: SandboxPolicyView,
    platform: Platform,
    command: Seq<char>,
) -> (Seq<char>, Seq<Seq<char>>) {
    match policy {
        SandboxPolicyView::Restricted { write_roots, deny_network } if platform
            == Platform::MacOs => (
            "sandbox-exec"@,
            seq!["-p"@, seatbelt_profile(write_roots, deny_network), "sh"@, "-lc"@, command],
        ),
        _ => ("sh"@, seq!["-lc"@, command]),
    }
}

fn escape(s: &str) -> (r: String)
    ensures
        r@ == escaped(s@),
{
    let cs = text::chars_of(s);
    let mut r = String::new();
    let mut i: usize = 0;
    while i < cs.len()
        invariant
            i <= cs@.len(),
            r@ == escaped(cs@.take(i as int)),
        decreases cs@.len() - i,
    {
        assert(cs@.take(i + 1).drop_last() =~= cs@.take(i as int));
        if cs[i] == '\\' || cs[i] == '"' {
            r.push('\\');
        }
        r.push(cs[i]);
        i += 1;
    }
    assert(cs@.take(i as int) =~= cs@);
    r
}

/// The path as a string literal of a profile.
pub fn quote_sb_path(path: &str) -> (r: String)
    ensures
        r@ == quoted(path@),
{
    text::cat3("\"", escape(path).as_str(), "\"")
}

/// The profile that denies by default and allows writes under the given roots only.
pub fn build_seatbelt_profile(write_roots: &[String], deny_network: bool) -> (r: String)
    ensures
        r@ == seatbelt_profile(text::views(write_roots@), deny_network),
{
    let network = if deny_network {
        "(deny network*)\n"
    } else {
        "(allow network*)\n"
    };
    let mut lines: Vec<String> = Vec::new();
    let mut i: usize = 0;
    while i < write_roots.len()
        invariant
            i <= write_roots@.len(),
            lines@.len() == i,
            forall|k: int| 0 <= k < i ==> (#[trigger] lines@[k])@ == root_line(write_roots@[k]@),
        decreases write_roots@.len() - i,
    {
        let quoted_root = quote_sb_path(write_roots[i].as_str());
        lines.push(text::cat3("    (subpath ", quoted_root.as_str(), ")\n"));
        i += 1;
    }
    assert(text::views(lines@) =~= text::views(write_roots@).map_values(
        |root: Seq<char>| root_line(root),
    ));
    let roots = text::concat_strings(lines.as_slice());
    text::cat5(
        "(version 1)\n(deny default)\n(allow process-exec)\n(allow process-fork)\n(allow signal (target self))\n(allow sysctl-read)\n(allow mach-lookup)\n(allow file-read*)\n",
        network,
        "(allow file-write*\n    (literal \"/dev/null\")\n    (literal \"/dev/stdout\")\n    (literal \"/dev/stderr\")\n    (literal \"/dev/tty\")\n",
        roots.as_str(),
        ")\n",
    )
}

impl SandboxPolicy {
    /// The policy for a workspace: writes under it and under the temporary directory,
    /// where that is known, and no network.
    pub fn workspace_default(workspace_root: &str, temp_dir: Option<&str>) -> (r: SandboxPolicy)
        ensures
            r@ == (SandboxPolicyView::Restricted {
                write_roots: match temp_dir {
                    Some(tmp) => seq![workspace_root@, tmp@],
                    None => seq![workspace_root@],
                },
                deny_network: true,
            }),
    {
        let write_roots = match temp_dir {
            Some(tmp) => text::list2(workspace_root, tmp),
            None => text::list1(workspace_root),
        };
        SandboxPolicy::Restricted { write_roots, deny_network: true }
    }

    /// Whether the policy confines anything on the platform.
    pub fn is_enforced(&self, platform: Platform) -> (r: bool)
        ensures
            r == (platform == Platform::MacOs && self@ is Restricted),
    {
        match self {
            SandboxPolicy::Restricted { .. } => platform == Platform::MacOs,
            SandboxPolicy::Disabled => false,
        }
    }

    /// The program and the arguments that run a shell command under the policy.
    pub fn wrap_shell_command(&self, platform: Platform, command: &str) -> (r: (
        String,
        Vec<String>,
    ))
        ensures
            (r.0@, text::views(r.1@)) == shell_command(self@, platform, command@),
    {
        match self {
            SandboxPolicy::Restricted { write_roots, deny_network } if platform
                == Platform::MacOs => {
                let profile = build_seatbelt_profile(write_roots.as_slice(), *deny_network);
                let mut args = text::list3("-p", profile.as_str(), "sh");
                let ghost before = text::views(args@);
                args.push("-lc".to_string());
                args.push(command.to_string());
                assert(text::views(args@) =~= before.push("-lc"@).push(command@));
                assert(text::views(args@) =~= seq![
                    "-p"@,
                    profile@,
                    "sh"@,
                    "-lc"@,
                    command@,
                ]);
                ("sandbox-exec".to_string(), args)
            },
            _ => ("sh".to_string(), text::list2("-lc", command)),
        }
    }
}

/// What a string literal of a profile denotes, read from the right: an escaped character
/// stands for itself.
pub open spec fn unescaped(s: Seq<char>) -> Seq<char>
    decreases s.len(),
{
    if s.len() == 0 {
        seq![]
    } else if s[0] == '\\' && s.len() > 1 {
        seq![s[1]] + unescaped(s.skip(2))
    } else {
        seq![s[0]] + unescaped(s.skip(1))
    }
}

/// A quoted path denotes the path: no part of it ends the literal or is lost.
pub proof fn quoting_keeps_the_path(path: Seq<char>)
    ensures
        unescaped(escaped(path)) == path,
    decreases path.len(),
{
    if path.len() > 0 {
        lemma_escaped_front(path);
        quoting_keeps_the_path(path.skip(1));
        let rest = escaped(path.skip(1));
        let head = if path[0] == '\\' || path[0] == '"' {
            seq!['\\', path[0]]
        } else {
            seq![path[0]]
        };
        assert(escaped(path) == head + rest);
        assert((head + rest).skip(head.len() as int) =~= rest);
        assert(seq![path[0]] + path.skip(1) =~= path);
    }
}

proof fn lemma_escaped_front(s: Seq<char>)
    requires
        s.len() > 0,
    ensures
        escaped(s) == (if s[0] == '\\' || s[0] == '"' {
            seq!['\\', s[0]]
        } else {
            seq![s[0]]
        }) + escaped(s.skip(1)),
    decreases s.len(),
{
    let head = if s[0] == '\\' || s[0] == '"' {
        seq!['\\', s[0]]
    } else {
        seq![s[0]]
    };
    if s.len() == 1 {
        assert(s.drop_last() =~= seq![]);
        assert(s.skip(1) =~= seq![]);
        assert(escaped(s) =~= head + escaped(s.skip(1)));
    } else {
        lemma_escaped_front(s.drop_last());
        assert(s.drop_last().skip(1) =~= s.skip(1).drop_last());
        assert(escaped(s) =~= head + escaped(s.skip(1)));
    }
}

/// A shell command runs in the system's sandbox exactly where it is restricted and there is
/// such a sandbox, under the profile of the policy; the shell and the command are the same
/// with and without it.
pub proof fn restricted_commands_run_in_the_sandbox(
    policy: SandboxPolicyView,
    platform: Platform,
    command: Seq<char>,
)
    ensures
        ({
            let (program, args) = shell_command(policy, platform, command);
            &&& args.len() >= 2 && args[args.len() - 1] == command && args[args.len() - 2] == "-lc"@
            &&& match policy {
                SandboxPolicyView::Restricted { write_roots, deny_network } if platform
                    == Platform::MacOs => program == "sandbox-exec"@ && args.len() == 5 && args[0]
                    == "-p"@ && args[1] == seatbelt_profile(write_roots, deny_network) && args[2]
                    == "sh"@,
                _ => program == "sh"@ && args.len() == 2,
            }
        }),
{
}

proof fn lemma_holds(a: Seq<char>, p: Seq<char>, b: Seq<char>)
    ensures
        text::contains(a + p + b, p),
{
    let n = a.len() as int;
    assert((a + p + b).subrange(n, n + p.len()) =~= p);
    assert(text::occurs_at(a + p + b, p, n));
}

/// A profile denies what it does not allow. It allows writing below each root, which is
/// named in quotes, and it denies the network, or allows it, as the policy says.
pub proof fn a_profile_confines_what_the_policy_says(
    roots: Seq<Seq<char>>,
    deny_network: bool,
    i: int,
)
    requires
        0 <= i < roots.len(),
    ensures
        text::contains(seatbelt_profile(roots, deny_network), "(deny default)\n"@),
        text::contains(
            seatbelt_profile(roots, deny_network),
            "    (subpath \""@ + escaped(roots[i]) + "\")\n"@,
        ),
        deny_network ==> text::contains(
            seatbelt_profile(roots, deny_network),
            "(deny network*)\n"@,
        ),
        !deny_network ==> text::contains(
            seatbelt_profile(roots, deny_network),
            "(allow network*)\n"@,
        ),
        "    (subpath \""@ + escaped(roots[i]) + "\")\n"@ == "    (subpath "@ + quoted(roots[i])
            + ")\n"@,
{
    let head = profile_head();
    let net = if deny_network {
        "(deny network*)\n"@
    } else {
        "(allow network*)\n"@
    };
    let lines = roots.map_values(|root: Seq<char>| root_line(root));
    let whole = seatbelt_profile(roots, deny_network);
    let tail = ")\n"@;
    assert(whole =~= head + net + (profile_writes() + root_lines(roots) + tail));
    lemma_holds(head, net, profile_writes() + root_lines(roots) + tail);
    reveal_strlit("    (subpath \"");
    reveal_strlit("\")\n");
    reveal_strlit("    (subpath ");
    reveal_strlit("\"");
    reveal_strlit(")\n");
    let line = "    (subpath \""@ + escaped(roots[i]) + "\")\n"@;
    assert(line =~= root_line(roots[i]));
    let a = lines.take(i);
    let b = lines.skip(i + 1);
    assert(lines =~= a + seq![lines[i]] + b);
    text_laws::lemma_concat_add(a, seq![lines[i]]);
    text_laws::lemma_concat_add(a + seq![lines[i]], b);
    text_laws::lemma_concat_one(lines[i]);
    let front = head + net + profile_writes() + text::concat(a);
    assert(whole =~= front + line + (text::concat(b) + tail));
    lemma_holds(front, line, text::concat(b) + tail);
    lemma_denies_by_default(net + profile_writes() + root_lines(roots) + tail);
    assert(whole =~= head + (net + profile_writes() + root_lines(roots) + tail));
}

proof fn lemma_denies_by_default(rest: Seq<char>)
    ensures
        text::contains(profile_head() + rest, "(deny default)\n"@),
{
    reveal_strlit(
        "(version 1)\n(deny default)\n(allow process-exec)\n(allow process-fork)\n(allow signal (target self))\n(allow sysctl-read)\n(allow mach-lookup)\n(allow file-read*)\n",
    );
    reveal_strlit("(deny default)\n");
    let p = "(deny default)\n"@;
    let whole = profile_head() + rest;
    assert(whole.subrange(12, 12 + p.len() as int) =~= p);
    assert(text::occurs_at(whole, p, 12));
}

} // verus!
