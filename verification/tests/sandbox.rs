use inductor::sandbox::{build_seatbelt_profile, quote_sb_path, Platform, SandboxPolicy};

fn roots(paths: &[&str]) -> Vec<String> {
    paths.iter().map(|path| path.to_string()).collect()
}

#[test]
fn profile_denies_by_default_and_scopes_writes() {
    let profile = build_seatbelt_profile(&roots(&["/tmp/workspace"]), true);

    assert!(profile.contains("(deny default)"));
    assert!(profile.contains("(allow file-read*)"));
    assert!(profile.contains("(deny network*)"));
    assert!(profile.contains("(subpath \"/tmp/workspace\")"));
}

#[test]
fn profile_can_allow_network() {
    let profile = build_seatbelt_profile(&roots(&["/ws"]), false);
    assert!(profile.contains("(allow network*)"));
    assert!(!profile.contains("(deny network*)"));
}

#[test]
fn disabled_policy_returns_plain_shell() {
    for platform in [Platform::MacOs, Platform::Other] {
        let (program, args) = SandboxPolicy::Disabled.wrap_shell_command(platform, "echo hi");
        assert_eq!(program, "sh");
        assert_eq!(args, vec!["-lc", "echo hi"]);
    }
}

#[test]
fn restricted_policy_wraps_on_macos() {
    let policy = SandboxPolicy::Restricted {
        write_roots: roots(&["/ws"]),
        deny_network: true,
    };

    let (program, args) = policy.wrap_shell_command(Platform::MacOs, "echo hi");
    assert_eq!(program, "sandbox-exec");
    assert_eq!(args[0], "-p");
    assert!(args[1].contains("(deny default)"));
    assert_eq!(args[args.len() - 1], "echo hi");

    let (program, _) = policy.wrap_shell_command(Platform::Other, "echo hi");
    assert_eq!(program, "sh");
}

#[test]
fn path_quoting_escapes_special_characters() {
    assert_eq!(quote_sb_path("/tmp/a\"b"), "\"/tmp/a\\\"b\"");
    assert_eq!(quote_sb_path("/tmp/a\\b"), "\"/tmp/a\\\\b\"");
}

#[test]
fn only_restricted_policies_are_enforced_and_only_on_macos() {
    let policy = SandboxPolicy::workspace_default("/ws", Some("/tmp"));
    assert!(policy.is_enforced(Platform::MacOs));
    assert!(!policy.is_enforced(Platform::Other));
    assert!(!SandboxPolicy::Disabled.is_enforced(Platform::MacOs));
    match policy {
        SandboxPolicy::Restricted { write_roots, deny_network } => {
            assert_eq!(write_roots, vec!["/ws", "/tmp"]);
            assert!(deny_network);
        }
        SandboxPolicy::Disabled => panic!("the policy of a workspace is restricted"),
    }
}

#[test]
fn a_profile_is_written_line_by_line() {
    let profile = build_seatbelt_profile(&roots(&["/a", "/b"]), true);
    assert_eq!(
        profile,
        "(version 1)\n(deny default)\n(allow process-exec)\n(allow process-fork)\n\
         (allow signal (target self))\n(allow sysctl-read)\n(allow mach-lookup)\n\
         (allow file-read*)\n(deny network*)\n(allow file-write*\n    \
         (literal \"/dev/null\")\n    (literal \"/dev/stdout\")\n    \
         (literal \"/dev/stderr\")\n    (literal \"/dev/tty\")\n    \
         (subpath \"/a\")\n    (subpath \"/b\")\n)\n"
    );
}
