use agent_sandbox::{PermissionGate, PermissionLevel, SandboxError, ToolPermission};

#[test]
fn unregistered_tool_is_denied() {
    let gate = PermissionGate::new();
    let args: Vec<String> = vec!["anything".to_string()];
    match gate.check_command("python", &args) {
        Err(SandboxError::PermissionDenied(_)) => {}
        other => panic!("expected a permission denial, got {:?}", other),
    }
    match gate.check_tool("python") {
        Err(SandboxError::PermissionDenied(m)) => {
            assert_eq!(m, "Tool 'python' is not registered in the permission gate");
        }
        other => panic!("expected a permission denial, got {:?}", other),
    }
}

#[test]
fn unknown_tool_allowed_after_override() {
    let mut gate = PermissionGate::new();
    gate.allow_unknown();
    assert_eq!(gate.check_tool("python"), Ok(PermissionLevel::Execute));
    gate.set_default_level(PermissionLevel::ReadOnly);
    assert_eq!(gate.check_tool("python"), Ok(PermissionLevel::ReadOnly));
}

#[test]
fn argument_allow_list_decides() {
    let gate = PermissionGate::default_permissions();
    let ok: Vec<String> = vec!["status".to_string()];
    assert_eq!(gate.check_command("git", &ok), Ok(PermissionLevel::Full));
    let substring: Vec<String> = vec!["status=short".to_string()];
    assert_eq!(gate.check_command("git", &substring), Ok(PermissionLevel::Full));
    let bad: Vec<String> = vec!["frobnicate".to_string()];
    match gate.check_command("git", &bad) {
        Err(SandboxError::PermissionDenied(m)) => {
            assert_eq!(m, "Arguments not allowed for tool 'git'");
        }
        other => panic!("expected a permission denial, got {:?}", other),
    }
}

#[test]
fn empty_allow_list_means_no_restriction() {
    let gate = PermissionGate::default_permissions();
    let args: Vec<String> = vec!["-rf".to_string(), "/tmp/x".to_string()];
    assert_eq!(gate.check_command("rm", &args), Ok(PermissionLevel::Execute));
    let none: Vec<String> = Vec::new();
    assert_eq!(gate.check_command("rm", &none), Ok(PermissionLevel::Execute));
}

#[test]
fn denied_path_overrides_allowed_path() {
    let p = ToolPermission::new("tool")
        .allow_path("/a".to_string())
        .deny_path("/a/b".to_string());
    assert!(p.check_path("/a/c"));
    assert!(!p.check_path("/a/b/c"));
    let q = ToolPermission::new("tool")
        .deny_path("/a/b".to_string())
        .allow_path("/a".to_string());
    assert!(q.check_path("/a/c"));
    assert!(!q.check_path("/a/b/c"));
}

#[test]
fn empty_allowed_paths_allow_everything_not_denied() {
    let p = ToolPermission::new("tool").deny_path("/secret".to_string());
    assert!(p.check_path("/anywhere/else"));
    assert!(!p.check_path("/secret/file"));
}

#[test]
fn gate_path_check_honors_denied_level() {
    let gate = PermissionGate::default_permissions();
    assert_eq!(gate.check_path("sudo", "/tmp"), Ok(false));
    assert_eq!(gate.check_path("rm", "/tmp/x"), Ok(true));
    assert_eq!(gate.check_path("rm", "/etc/passwd"), Ok(false));
}

#[test]
fn default_registry_seeds_nine_tools() {
    let gate = PermissionGate::default_permissions();
    let mut tools = gate.list_tools();
    tools.sort();
    assert_eq!(
        tools,
        vec![
            "chmod", "curl", "file_read", "file_write", "git", "npm", "rm", "sudo", "yarn"
        ]
    );
    let git = gate.get_permission("git").expect("git is seeded");
    assert_eq!(git.level, PermissionLevel::Full);
    assert!(git.requires_approval);
    assert_eq!(
        git.allowed_args,
        vec!["status", "diff", "log", "add", "commit", "push", "pull"]
    );
    let sudo = gate.get_permission("sudo").expect("sudo is seeded");
    assert_eq!(sudo.level, PermissionLevel::Denied);
    assert!(gate.requires_approval("rm"));
    assert!(gate.requires_approval("chmod"));
    assert!(!gate.requires_approval("npm"));
    assert!(!gate.requires_approval("unknown-tool"));
}

#[test]
fn reregistration_replaces_a_record() {
    let mut gate = PermissionGate::default_permissions();
    gate.register_tool(ToolPermission::new("git").with_level(PermissionLevel::ReadOnly));
    let git = gate.get_permission("git").expect("git is still registered");
    assert_eq!(git.level, PermissionLevel::ReadOnly);
    assert!(!git.requires_approval);
    assert_eq!(gate.list_tools().len(), 9);
}

#[test]
fn default_level_is_denied() {
    assert_eq!(PermissionLevel::default(), PermissionLevel::Denied);
}

#[test]
fn error_messages_carry_their_prefix() {
    let e = SandboxError::PermissionDenied("nope".to_string());
    assert_eq!(e.message(), "Permission denied: nope");
    let e = SandboxError::InvalidCommand("Empty command".to_string());
    assert_eq!(e.message(), "Invalid command: Empty command");
    let e = SandboxError::VirtualFileNotFound("a.txt".to_string());
    assert_eq!(e.message(), "Virtual file not found: a.txt");
    let e = SandboxError::FileSystemError("missing".to_string());
    assert_eq!(e.message(), "File system error: missing");
}

#[test]
fn path_prefixes_stop_at_component_boundaries() {
    let gate = PermissionGate::default_permissions();
    assert_eq!(gate.check_path("rm", "/tmp"), Ok(true));
    assert_eq!(gate.check_path("rm", "/tmp/x"), Ok(true));
    assert_eq!(gate.check_path("rm", "/tmpfoo"), Ok(false));
    let p = ToolPermission::new("tool").deny_path("/secret/".to_string());
    assert!(!p.check_path("/secret/key"));
    assert!(p.check_path("/public/key"));
}

#[test]
fn a_trailing_separator_on_a_prefix_entry_is_ignored() {
    let p = ToolPermission::new("tool").allow_path("/tmp/".to_string());
    assert!(p.check_path("/tmp"));
    assert!(p.check_path("/tmp/x"));
    assert!(!p.check_path("/tmpfoo"));
}
