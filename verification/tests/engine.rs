use agent_sandbox::{
    Dispatch, ExecutionMode, ExecutionStatus, MountEntry, PermissionLevel, ProcessOutput, Sandbox,
    SandboxError, ToolPermission, split,
};

#[test]
fn split_honors_quoting_and_escapes() {
    let words = split("git commit -m 'fix: bug'").expect("tokenizes");
    assert_eq!(words, vec!["git", "commit", "-m", "fix: bug"]);
    let words = split("echo \"two words\"").expect("tokenizes");
    assert_eq!(words, vec!["echo", "two words"]);
    let words = split("a\\ b c").expect("tokenizes");
    assert_eq!(words, vec!["a b", "c"]);
    let words = split("  spaced\tout  ").expect("tokenizes");
    assert_eq!(words, vec!["spaced", "out"]);
}

#[test]
fn split_rejects_an_unterminated_quote() {
    assert_eq!(split("echo 'open"), Err("Unclosed quote".to_string()));
}

#[test]
fn empty_command_is_invalid() {
    let mut sandbox = Sandbox::new();
    match sandbox.execute("") {
        Err(SandboxError::InvalidCommand(m)) => assert_eq!(m, "Empty command"),
        other => panic!("expected an invalid command, got {:?}", other),
    }
    match sandbox.execute("echo 'open") {
        Err(SandboxError::InvalidCommand(m)) => assert_eq!(m, "Unclosed quote"),
        other => panic!("expected an invalid command, got {:?}", other),
    }
}

#[test]
fn unregistered_tool_is_blocked_before_any_record() {
    let mut sandbox = Sandbox::new();
    match sandbox.execute("python script.py") {
        Err(SandboxError::PermissionDenied(_)) => {}
        other => panic!("expected a permission denial, got {:?}", other),
    }
    assert!(sandbox.history().is_empty());
    assert!(sandbox.pending_approvals().is_empty());
}

#[test]
fn approval_gated_tool_parks_under_every_mode() {
    for mode in [ExecutionMode::Live, ExecutionMode::Simulation, ExecutionMode::Diff] {
        let mut sandbox = Sandbox::new();
        sandbox.set_mode(mode);
        let record = match sandbox.execute("rm -rf /tmp/x") {
            Ok(Dispatch::Completed(record)) => record,
            other => panic!("expected a completed record, got {:?}", other),
        };
        assert_eq!(record.status, ExecutionStatus::PendingApproval);
        assert!(!record.approved);
        assert_eq!(record.tool, "rm");
        assert_eq!(record.args, vec!["-rf", "/tmp/x"]);
        assert_eq!(record.command, "rm -rf /tmp/x");
        assert!(record.exit_code.is_none());
        assert_eq!(sandbox.pending_approvals().len(), 1);
        assert!(sandbox.history().is_empty());
    }
}

#[test]
fn approve_then_live_run_produces_a_final_record() {
    let mut sandbox = Sandbox::new();
    let record = match sandbox.execute("rm -rf /tmp/x") {
        Ok(Dispatch::Completed(record)) => record,
        other => panic!("expected a pending record, got {:?}", other),
    };
    assert_eq!(record.status, ExecutionStatus::PendingApproval);
    let request = sandbox.approve(&record.id).expect("the id is queued");
    assert_eq!(request.tool, "rm");
    assert_eq!(request.args, vec!["-rf", "/tmp/x"]);
    assert_eq!(request.permission_level, PermissionLevel::Execute);
    assert!(sandbox.pending_approvals().is_empty());
    let outcome = ProcessOutput::Exited {
        success: true,
        exit_code: Some(0),
        stdout: String::new(),
        stderr: String::new(),
    };
    let done = sandbox.live_execution(request, outcome);
    assert_eq!(done.status, ExecutionStatus::Success);
    assert_eq!(done.exit_code, Some(0));
    assert!(done.approved);
    assert_eq!(sandbox.history().len(), 1);
}

#[test]
fn approve_of_an_unknown_id_is_invalid() {
    let mut sandbox = Sandbox::new();
    match sandbox.approve("no-such-id") {
        Err(SandboxError::InvalidCommand(m)) => assert_eq!(m, "Execution not found"),
        other => panic!("expected an invalid command, got {:?}", other),
    }
}

#[test]
fn live_mode_hands_out_a_run_request() {
    let mut sandbox = Sandbox::new();
    let request = match sandbox.execute("npm install") {
        Ok(Dispatch::RunLive(request)) => request,
        other => panic!("expected a live request, got {:?}", other),
    };
    assert_eq!(request.tool, "npm");
    assert_eq!(request.args, vec!["install"]);
    assert_eq!(request.permission_level, PermissionLevel::Execute);
    assert!(sandbox.history().is_empty());
}

#[test]
fn spawn_failure_is_a_failed_record_not_an_error() {
    let mut sandbox = Sandbox::new();
    let request = match sandbox.execute("npm install") {
        Ok(Dispatch::RunLive(request)) => request,
        other => panic!("expected a live request, got {:?}", other),
    };
    let outcome = ProcessOutput::SpawnFailed { message: "No such file or directory".to_string() };
    let record = sandbox.live_execution(request, outcome);
    assert_eq!(record.status, ExecutionStatus::Failed);
    assert_eq!(record.exit_code, Some(-1));
    assert_eq!(record.stderr, "No such file or directory");
    assert_eq!(sandbox.history().len(), 1);
    assert_eq!(sandbox.history()[0].status, ExecutionStatus::Failed);
}

#[test]
fn diff_mode_predicts_staged_files_and_sums_lines() {
    let mut sandbox = Sandbox::new();
    sandbox.permissions.register_tool(
        ToolPermission::new("git")
            .with_level(PermissionLevel::Full)
            .allow_arg("status")
            .allow_arg("add")
            .allow_arg("commit"),
    );
    let entries = vec![
        MountEntry { path: "a.txt".to_string(), content: b"alpha".to_vec(), executable: false },
        MountEntry { path: "b.txt".to_string(), content: b"beta".to_vec(), executable: false },
    ];
    sandbox.virtual_fs.mount("/project".to_string(), &entries);
    sandbox.set_mode(ExecutionMode::Diff);

    let record = match sandbox.execute("git add .") {
        Ok(Dispatch::Completed(record)) => record,
        other => panic!("expected a completed record, got {:?}", other),
    };
    assert_eq!(record.status, ExecutionStatus::Simulated);
    assert_eq!(record.file_changes.len(), 2);
    assert_eq!(record.file_changes[0].path, "a.txt");
    assert_eq!(record.file_changes[0].new_content.as_deref(), Some("(staged)"));
    let summary = record.diff_summary.expect("two predicted changes give a summary");
    assert_eq!(summary.added, 2);
    assert_eq!(summary.deleted, 0);
    assert_eq!(summary.unchanged, 0);
    assert_eq!(record.stderr, "Diff preview for 2 file(s)");
}

#[test]
fn diff_mode_with_no_prediction_has_no_summary() {
    let mut sandbox = Sandbox::new();
    sandbox.permissions.register_tool(
        ToolPermission::new("git").with_level(PermissionLevel::Full).allow_arg("status"),
    );
    sandbox.set_mode(ExecutionMode::Diff);
    let record = match sandbox.execute("git status") {
        Ok(Dispatch::Completed(record)) => record,
        other => panic!("expected a completed record, got {:?}", other),
    };
    assert_eq!(record.status, ExecutionStatus::Simulated);
    assert!(record.file_changes.is_empty());
    assert!(record.diff_summary.is_none());
    assert_eq!(record.stderr, "Diff preview for 0 file(s)");
}

#[test]
fn redirect_arguments_predict_written_files() {
    let mut sandbox = Sandbox::new();
    sandbox.permissions.register_tool(ToolPermission::new("echo").with_level(
        PermissionLevel::Execute,
    ));
    sandbox.set_mode(ExecutionMode::Diff);
    let record = match sandbox.execute("echo '> out.txt' hi") {
        Ok(Dispatch::Completed(record)) => record,
        other => panic!("expected a completed record, got {:?}", other),
    };
    assert_eq!(record.file_changes.len(), 1);
    assert_eq!(record.file_changes[0].path, "out.txt");
    assert_eq!(
        record.file_changes[0].new_content.as_deref(),
        Some("(would be written)")
    );
}

#[test]
fn npm_install_predicts_the_lockfile_and_modules() {
    let mut sandbox = Sandbox::new();
    sandbox.set_mode(ExecutionMode::Diff);
    sandbox.allow_all();
    let record = match sandbox.execute("npm install") {
        Ok(Dispatch::Completed(record)) => record,
        other => panic!("expected a completed record, got {:?}", other),
    };
    assert_eq!(record.file_changes.len(), 2);
    assert_eq!(record.file_changes[0].path, "package-lock.json");
    assert_eq!(record.file_changes[1].path, "node_modules/");
    assert_eq!(record.permission_level, PermissionLevel::Full);
}

#[test]
fn simulation_mode_narrates_without_running() {
    let mut sandbox = Sandbox::new();
    sandbox.set_mode(ExecutionMode::Simulation);
    let record = match sandbox.execute("npm run lint") {
        Ok(Dispatch::Completed(record)) => record,
        other => panic!("expected a completed record, got {:?}", other),
    };
    assert_eq!(record.status, ExecutionStatus::Simulated);
    assert!(record.stdout.starts_with("[SIMULATION] Would execute: npm run lint\n\n"));
    assert!(record.stdout.contains("No file changes detected.\n"));
    assert!(record.stdout.contains("\nPermission level: Execute\n"));
    assert!(!record.stdout.contains("Requires approval: YES"));
    assert!(record.stderr.is_empty());
    assert!(record.exit_code.is_none());
    assert!(sandbox.history().is_empty());
}

#[test]
fn allow_all_bypasses_gate_and_approval() {
    let mut sandbox = Sandbox::new();
    sandbox.allow_all();
    let request = match sandbox.execute("sudo reboot") {
        Ok(Dispatch::RunLive(request)) => request,
        other => panic!("expected a live request, got {:?}", other),
    };
    assert_eq!(request.permission_level, PermissionLevel::Full);
    assert!(sandbox.pending_approvals().is_empty());
}

#[test]
fn reset_restores_the_baseline_session() {
    let mut sandbox = Sandbox::new();
    sandbox.virtual_fs.write("f.txt".to_string(), b"data".to_vec());
    sandbox.virtual_fs.delete("f.txt").expect("delete succeeds");
    sandbox.execute("rm -rf /tmp/x").expect("queues an approval");
    let request = match sandbox.execute("npm test") {
        Ok(Dispatch::RunLive(request)) => request,
        other => panic!("expected a live request, got {:?}", other),
    };
    let outcome = ProcessOutput::Exited {
        success: false,
        exit_code: Some(2),
        stdout: String::new(),
        stderr: "boom".to_string(),
    };
    let record = sandbox.live_execution(request, outcome);
    assert_eq!(record.status, ExecutionStatus::Failed);
    assert_eq!(sandbox.history().len(), 1);
    assert_eq!(sandbox.pending_approvals().len(), 1);

    sandbox.reset();
    assert!(sandbox.history().is_empty());
    assert!(sandbox.pending_approvals().is_empty());
    assert_eq!(
        sandbox.virtual_fs.read("f.txt").expect("restored by reset"),
        b"data".to_vec()
    );
}

#[test]
fn status_reports_the_session_counters() {
    let mut sandbox = Sandbox::new();
    sandbox.working_dir = "/work".to_string();
    sandbox.virtual_fs.write("a".to_string(), b"1".to_vec());
    sandbox.virtual_fs.write("b".to_string(), b"2".to_vec());
    sandbox.execute("rm -rf /tmp/x").expect("queues an approval");
    let status = sandbox.status();
    assert_eq!(status.id, sandbox.id);
    assert_eq!(status.mode, ExecutionMode::Live);
    assert_eq!(status.file_count, 2);
    assert_eq!(status.execution_count, 0);
    assert_eq!(status.pending_approval_count, 1);
    assert_eq!(status.working_dir, "/work");
}

#[test]
fn relaxed_policy_previews_gated_tools_but_still_gates_live_runs() {
    let mut sandbox = Sandbox::new();
    sandbox.approval_precedes_mode = false;
    sandbox.set_mode(ExecutionMode::Simulation);
    let record = match sandbox.execute("rm -rf /tmp/x") {
        Ok(Dispatch::Completed(record)) => record,
        other => panic!("expected a completed record, got {:?}", other),
    };
    assert_eq!(record.status, ExecutionStatus::Simulated);
    assert!(sandbox.pending_approvals().is_empty());

    sandbox.set_mode(ExecutionMode::Live);
    let record = match sandbox.execute("rm -rf /tmp/x") {
        Ok(Dispatch::Completed(record)) => record,
        other => panic!("expected a completed record, got {:?}", other),
    };
    assert_eq!(record.status, ExecutionStatus::PendingApproval);
}

#[test]
fn simulation_narrative_lists_predicted_files_and_approval() {
    let mut sandbox = Sandbox::new();
    sandbox.approval_precedes_mode = false;
    sandbox.permissions.register_tool(
        ToolPermission::new("git")
            .with_level(PermissionLevel::Full)
            .allow_arg("add")
            .requires_approval(),
    );
    let entries = vec![MountEntry {
        path: "only.txt".to_string(),
        content: b"x".to_vec(),
        executable: false,
    }];
    sandbox.virtual_fs.mount("/p".to_string(), &entries);
    sandbox.set_mode(ExecutionMode::Simulation);
    let record = match sandbox.execute("git add .") {
        Ok(Dispatch::Completed(record)) => record,
        other => panic!("expected a completed record, got {:?}", other),
    };
    assert_eq!(
        record.stdout,
        "[SIMULATION] Would execute: git add .\n\n\
         Would affect 1 file(s):\n  - only.txt\n\
         \nPermission level: Full\nRequires approval: YES\n"
    );
}

#[test]
fn redirect_targets_are_trimmed_of_unicode_whitespace() {
    let mut sandbox = Sandbox::new();
    sandbox.permissions.register_tool(ToolPermission::new("tee").with_level(
        PermissionLevel::Execute,
    ));
    sandbox.set_mode(ExecutionMode::Diff);
    let record = match sandbox.execute("tee '>\u{a0}out.txt\u{2002}'") {
        Ok(Dispatch::Completed(record)) => record,
        other => panic!("expected a completed record, got {:?}", other),
    };
    assert_eq!(record.file_changes.len(), 1);
    assert_eq!(record.file_changes[0].path, "out.txt");
}
