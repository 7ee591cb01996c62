//! The mediation engine: a command string is tokenized, evaluated against
//! the permission gate, held for approval when its tool is flagged, and
//! then either handed out for a live run, simulated as a narrative, or
//! previewed as predicted file diffs with a summary. The engine owns the
//! approval queue and the execution history; the surrounding process
//! runner performs live runs and reports their output back.

use vstd::prelude::*;
use vstd::string::*;
use crate::diff_engine::DiffSummary;
use crate::error::{SandboxError, SandboxResult};
use crate::keyed::{
    Keyed, find_index, lemma_lookup_push, lemma_lookup_remove, lemma_lookup_update,
    lemma_unique_push, lemma_unique_remove, lemma_unique_update, lookup, unique_keys,
};
use crate::permissions::{PermissionGate, PermissionLevel};
use crate::strutil::{
    clone_strings, command_line, count_lines, lemma_single_line, push_char, redirect_target,
    spec_command_line, spec_dec, spec_line_count, spec_redirect_target, spec_starts_with,
    starts_with, str_eq, usize_to_string, views,
};
use crate::virtual_fs::{
    DiffOperation, FileDiff, VirtualFile, VirtualFilesystem, clone_diffs, current_timestamp,
    spec_opt_text,
};

verus! {

/// Sandbox execution mode.
#[derive(Debug, Clone, Copy, PartialEq, Eq, Structural)]
pub enum ExecutionMode {
    /// Real execution (with safeguards).
    Live,
    /// Simulation mode - preview only, no actual execution.
    Simulation,
    /// Diff mode - show what would change without executing.
    Diff,
}

/// Status of execution.
#[derive(Debug, Clone, Copy, PartialEq, Eq, Structural)]
pub enum ExecutionStatus {
    /// Command executed successfully.
    Success,
    /// Command failed.
    Failed,
    /// Command was blocked by permissions.
    Blocked,
    /// Command was simulated (no actual execution).
    Simulated,
    /// Command requires approval.
    PendingApproval,
}

/// Relies on uuid::Uuid::new_v4 and its rendering: a freshly generated
/// random identifier. Nothing is promised of the value.
#[verifier::external_body]
fn fresh_id() -> String {
    uuid::Uuid::new_v4().to_string()
}

/// The running state of the tokenizer: finished words, the word being
/// built, whether a quote is open and with which character, and whether a
/// backslash escape is pending.
pub struct SplitState {
    pub words: Seq<Seq<char>>,
    pub current: Seq<char>,
    pub in_quotes: bool,
    pub quote_char: char,
    pub escaped: bool,
}

/// One tokenizer step, honoring single and double quoting and backslash
/// escapes outside quotes; unquoted blanks end the word being built.
pub open spec fn split_step(st: SplitState, c: char) -> SplitState {
    if st.escaped {
        SplitState { current: st.current.push(c), escaped: false, ..st }
    } else if c == '\\' && !st.in_quotes {
        SplitState { escaped: true, ..st }
    } else if (c == '\'' || c == '"') && st.in_quotes && c == st.quote_char {
        SplitState { in_quotes: false, ..st }
    } else if (c == '\'' || c == '"') && !st.in_quotes {
        SplitState { in_quotes: true, quote_char: c, ..st }
    } else if (c == ' ' || c == '\t' || c == '\n' || c == '\r') && !st.in_quotes {
        if st.current.len() > 0 {
            SplitState { words: st.words.push(st.current), current: Seq::empty(), ..st }
        } else {
            st
        }
    } else {
        SplitState { current: st.current.push(c), ..st }
    }
}

/// The tokenizer folded over the input, from the front.
pub open spec fn split_fold(s: Seq<char>) -> SplitState
    decreases s.len(),
{
    if s.len() == 0 {
        SplitState {
            words: Seq::empty(),
            current: Seq::empty(),
            in_quotes: false,
            quote_char: ' ',
            escaped: false,
        }
    } else {
        split_step(split_fold(s.drop_last()), s.last())
    }
}

/// The input tokenizes cleanly: no quote is left open at the end.
pub open spec fn spec_split_ok(s: Seq<char>) -> bool {
    !split_fold(s).in_quotes
}

/// The words of the input: the finished words, with a last unfinished
/// word appended when one is being built.
pub open spec fn spec_split_words(s: Seq<char>) -> Seq<Seq<char>> {
    let st = split_fold(s);
    if st.current.len() > 0 {
        st.words.push(st.current)
    } else {
        st.words
    }
}

/// Split a command line into words, honoring single and double quoting
/// and backslash escapes; an unterminated quote is an error.
pub fn split(input: &str) -> (r: Result<Vec<String>, String>)
    ensures
        spec_split_ok(input@) ==> (r matches Ok(words) && views(words@) == spec_split_words(
            input@,
        )),
        !spec_split_ok(input@) ==> (r matches Err(m) && m@ == "Unclosed quote"@),
{
    let mut words: Vec<String> = Vec::new();
    let mut current = String::new();
    let mut in_quotes = false;
    let mut quote_char = ' ';
    let mut escaped = false;
    let len = input.unicode_len();
    let mut i: usize = 0;
    while i < len
        invariant
            len == input@.len(),
            i <= len,
            views(words@) == split_fold(input@.subrange(0, i as int)).words,
            current@ == split_fold(input@.subrange(0, i as int)).current,
            in_quotes == split_fold(input@.subrange(0, i as int)).in_quotes,
            quote_char == split_fold(input@.subrange(0, i as int)).quote_char,
            escaped == split_fold(input@.subrange(0, i as int)).escaped,
        decreases len - i,
    {
        proof {
            assert(input@.subrange(0, i + 1).drop_last() =~= input@.subrange(0, i as int));
            assert(input@.subrange(0, i + 1).last() == input@[i as int]);
        }
        let c = input.get_char(i);
        if escaped {
            push_char(&mut current, c);
            escaped = false;
        } else if c == '\\' && !in_quotes {
            escaped = true;
        } else if (c == '\'' || c == '"') && in_quotes && c == quote_char {
            in_quotes = false;
        } else if (c == '\'' || c == '"') && !in_quotes {
            in_quotes = true;
            quote_char = c;
        } else if (c == ' ' || c == '\t' || c == '\n' || c == '\r') && !in_quotes {
            if !current.as_str().is_empty() {
                let ghost w0 = views(words@);
                let ghost cur0 = current@;
                words.push(current);
                current = String::new();
                proof {
                    assert(views(words@) =~= w0.push(cur0));
                }
            }
        } else {
            push_char(&mut current, c);
        }
        i = i + 1;
    }
    proof {
        assert(input@.subrange(0, len as int) =~= input@);
    }
    if in_quotes {
        return Err("Unclosed quote".to_owned());
    }
    if !current.as_str().is_empty() {
        let ghost w0 = views(words@);
        let ghost cur0 = current@;
        words.push(current);
        proof {
            assert(views(words@) =~= w0.push(cur0));
        }
    }
    Ok(words)
}

/// A cleared command that must now be run live by the surrounding process
/// runner.
#[derive(Debug, Clone)]
pub struct LiveRequest {
    pub tool: String,
    pub args: Vec<String>,
    pub permission_level: PermissionLevel,
}

/// What the external process runner reports back for one live run.
#[derive(Debug, Clone)]
pub enum ProcessOutput {
    /// The process ran: whether it exited successfully, its exit code if
    /// any, and its captured output.
    Exited { success: bool, exit_code: Option<i32>, stdout: String, stderr: String },
    /// The binary could not be located or spawned.
    SpawnFailed { message: String },
}

/// What a submission decided: either the engine produced the final record
/// itself (queued, simulated, or diffed), or the command is cleared and
/// must be run live, its output then handed to `live_execution`.
#[derive(Debug, Clone)]
pub enum Dispatch {
    Completed(ExecutionResult),
    RunLive(LiveRequest),
}

/// Result of a sandboxed execution.
#[derive(Debug, Clone)]
pub struct ExecutionResult {
    pub id: String,
    pub command: String,
    pub tool: String,
    pub args: Vec<String>,
    pub mode: ExecutionMode,
    pub status: ExecutionStatus,
    pub stdout: String,
    pub stderr: String,
    pub exit_code: Option<i32>,
    pub file_changes: Vec<FileDiff>,
    pub diff_summary: Option<DiffSummary>,
    pub permission_level: PermissionLevel,
    pub approved: bool,
    pub executed_at: i64,
}

impl Keyed for ExecutionResult {
    open spec fn spec_key(&self) -> Seq<char> {
        self.id@
    }

    fn key(&self) -> (k: &str) {
        self.id.as_str()
    }
}

/// The two records carry the same data, field for field.
pub open spec fn spec_same_record(a: ExecutionResult, b: ExecutionResult) -> bool {
    &&& a.id == b.id
    &&& a.command == b.command
    &&& a.tool == b.tool
    &&& a.args@ == b.args@
    &&& a.mode == b.mode
    &&& a.status == b.status
    &&& a.stdout == b.stdout
    &&& a.stderr == b.stderr
    &&& a.exit_code == b.exit_code
    &&& a.file_changes@ == b.file_changes@
    &&& a.diff_summary == b.diff_summary
    &&& a.permission_level == b.permission_level
    &&& a.approved == b.approved
    &&& a.executed_at == b.executed_at
}

impl ExecutionResult {
    /// An element-for-element copy.
    fn duplicate(&self) -> (r: Self)
        ensures
            spec_same_record(r, *self),
    {
        ExecutionResult {
            id: self.id.clone(),
            command: self.command.clone(),
            tool: self.tool.clone(),
            args: clone_strings(&self.args),
            mode: self.mode,
            status: self.status,
            stdout: self.stdout.clone(),
            stderr: self.stderr.clone(),
            exit_code: self.exit_code,
            file_changes: clone_diffs(&self.file_changes),
            diff_summary: self.diff_summary,
            permission_level: self.permission_level,
            approved: self.approved,
            executed_at: self.executed_at,
        }
    }
}

/// Some argument equals the given word.
pub open spec fn spec_has_word(args: Seq<Seq<char>>, w: Seq<char>) -> bool {
    exists|i: int| 0 <= i < args.len() && (#[trigger] args[i]) == w
}

fn has_word(args: &Vec<String>, w: &str) -> (r: bool)
    ensures
        r == spec_has_word(views(args@), w@),
{
    let n = args.len();
    let mut i: usize = 0;
    while i < n
        invariant
            n == args@.len(),
            i <= n,
            forall|j: int| 0 <= j < i ==> (#[trigger] views(args@)[j]) != w@,
        decreases n - i,
    {
        if str_eq(args[i].as_str(), w) {
            proof {
                assert(views(args@)[i as int] == args@[i as int]@);
            }
            return true;
        }
        i = i + 1;
    }
    false
}

/// The targets of the redirect-style arguments, in argument order: for
/// each argument opening with a redirect marker, its cleaned target path.
pub open spec fn spec_redirect_targets(args: Seq<Seq<char>>) -> Seq<Seq<char>>
    decreases args.len(),
{
    if args.len() == 0 {
        Seq::empty()
    } else {
        spec_redirect_targets(args.drop_last()) + if spec_starts_with(args.last(), ">"@) {
            seq![spec_redirect_target(args.last())]
        } else {
            Seq::empty()
        }
    }
}

/// A predicted staging diff for one shadow file.
pub open spec fn spec_is_staged_diff(d: FileDiff, f: VirtualFile) -> bool {
    &&& d.path@ == f.path@
    &&& d.operation == DiffOperation::Modified
    &&& d.old_content is None
    &&& d.new_content matches Some(c) && c@ == "(staged)"@
}

/// A predicted write diff for one redirect target.
pub open spec fn spec_is_written_diff(d: FileDiff, target: Seq<char>) -> bool {
    &&& d.path@ == target
    &&& d.operation == DiffOperation::Modified
    &&& d.old_content is None
    &&& d.new_content matches Some(c) && c@ == "(would be written)"@
}

/// The version-control pattern: staging or committing.
pub open spec fn spec_wants_stage(tool: Seq<char>, args: Seq<Seq<char>>) -> bool {
    tool == "git"@ && (spec_has_word(args, "add"@) || spec_has_word(args, "commit"@))
}

/// The package-manager pattern: installing.
pub open spec fn spec_wants_install(tool: Seq<char>, args: Seq<Seq<char>>) -> bool {
    tool == "npm"@ && spec_has_word(args, "install"@)
}

/// The redirect-style output pattern: a shell writer tool.
pub open spec fn spec_writer_tool(tool: Seq<char>) -> bool {
    tool == "echo"@ || tool == "tee"@ || tool == "cat"@
}

/// The paths the side-effect prediction names, in order.
pub open spec fn spec_predicted_paths(
    live: Seq<VirtualFile>,
    tool: Seq<char>,
    args: Seq<Seq<char>>,
) -> Seq<Seq<char>> {
    if spec_wants_stage(tool, args) {
        live.map_values(|f: VirtualFile| f.path@)
    } else if spec_wants_install(tool, args) {
        seq!["package-lock.json"@, "node_modules/"@]
    } else if spec_writer_tool(tool) {
        spec_redirect_targets(args)
    } else {
        Seq::empty()
    }
}

/// The shape of the predicted diff list, case by recognized case.
pub open spec fn spec_predicted_ok(
    ds: Seq<FileDiff>,
    live: Seq<VirtualFile>,
    tool: Seq<char>,
    args: Seq<Seq<char>>,
) -> bool {
    if spec_wants_stage(tool, args) {
        &&& ds.len() == live.len()
        &&& forall|i: int| 0 <= i < ds.len() ==> spec_is_staged_diff(#[trigger] ds[i], live[i])
    } else if spec_wants_install(tool, args) {
        &&& ds.len() == 2
        &&& ds[0].path@ == "package-lock.json"@
        &&& ds[0].operation == DiffOperation::Modified
        &&& ds[0].old_content is None
        &&& ds[0].new_content matches Some(c) && c@ == "(would be updated)"@
        &&& ds[1].path@ == "node_modules/"@
        &&& ds[1].operation == DiffOperation::Modified
        &&& ds[1].old_content is None
        &&& ds[1].new_content matches Some(c) && c@ == "(would be populated)"@
    } else if spec_writer_tool(tool) {
        &&& ds.len() == spec_redirect_targets(args).len()
        &&& forall|i: int|
            0 <= i < ds.len() ==> spec_is_written_diff(
                #[trigger] ds[i],
                spec_redirect_targets(args)[i],
            )
    } else {
        ds.len() == 0
    }
}

/// The summed line counts of the predicted new contents.
pub open spec fn spec_sum_lines_new(ds: Seq<FileDiff>) -> nat
    decreases ds.len(),
{
    if ds.len() == 0 {
        0
    } else {
        spec_sum_lines_new(ds.drop_last()) + match ds.last().new_content {
            Some(c) => spec_line_count(c@),
            None => 0,
        }
    }
}

/// The summed line counts of the predicted old contents.
pub open spec fn spec_sum_lines_old(ds: Seq<FileDiff>) -> nat
    decreases ds.len(),
{
    if ds.len() == 0 {
        0
    } else {
        spec_sum_lines_old(ds.drop_last()) + match ds.last().old_content {
            Some(c) => spec_line_count(c@),
            None => 0,
        }
    }
}

/// Every predicted diff carries exactly one new line of marker text and
/// no old content.
proof fn lemma_predicted_line_counts(
    ds: Seq<FileDiff>,
    live: Seq<VirtualFile>,
    tool: Seq<char>,
    args: Seq<Seq<char>>,
)
    requires
        spec_predicted_ok(ds, live, tool, args),
    ensures
        forall|i: int|
            0 <= i < ds.len() ==> (#[trigger] ds[i]).old_content is None && ds[i].new_content
                is Some && spec_line_count(spec_opt_text(ds[i].new_content)) == 1,
{
    reveal_strlit("(staged)");
    reveal_strlit("(would be updated)");
    reveal_strlit("(would be populated)");
    reveal_strlit("(would be written)");
    assert forall|j: int|
        0 <= j < "(staged)"@.len() implies "(staged)"@[j] != '\n' by {}
    lemma_single_line("(staged)"@);
    assert forall|j: int|
        0 <= j < "(would be updated)"@.len() implies "(would be updated)"@[j] != '\n' by {}
    lemma_single_line("(would be updated)"@);
    assert forall|j: int|
        0 <= j < "(would be populated)"@.len() implies "(would be populated)"@[j] != '\n' by {}
    lemma_single_line("(would be populated)"@);
    assert forall|j: int|
        0 <= j < "(would be written)"@.len() implies "(would be written)"@[j] != '\n' by {}
    lemma_single_line("(would be written)"@);
}

/// The marker lines sum to the number of predicted diffs on the new side
/// and to nothing on the old side.
proof fn lemma_sum_of_single_lines(ds: Seq<FileDiff>)
    requires
        forall|i: int|
            0 <= i < ds.len() ==> (#[trigger] ds[i]).old_content is None && ds[i].new_content
                is Some && spec_line_count(spec_opt_text(ds[i].new_content)) == 1,
    ensures
        spec_sum_lines_new(ds) == ds.len(),
        spec_sum_lines_old(ds) == 0,
    decreases ds.len(),
{
    if ds.len() > 0 {
        assert(forall|i: int|
            0 <= i < ds.drop_last().len() ==> #[trigger] ds.drop_last()[i] == ds[i]);
        lemma_sum_of_single_lines(ds.drop_last());
        assert(spec_opt_text(ds.last().new_content) == ds.last().new_content->0@);
    }
}

/// One affected-path line of the simulation narrative.
pub open spec fn spec_path_lines(paths: Seq<Seq<char>>) -> Seq<char>
    decreases paths.len(),
{
    if paths.len() == 0 {
        Seq::empty()
    } else {
        spec_path_lines(paths.drop_last()) + "  - "@ + paths.last() + "\n"@
    }
}

/// The display name of a permission level.
pub open spec fn spec_level_name(l: PermissionLevel) -> Seq<char> {
    match l {
        PermissionLevel::Denied => "Denied"@,
        PermissionLevel::ReadOnly => "ReadOnly"@,
        PermissionLevel::Execute => "Execute"@,
        PermissionLevel::Full => "Full"@,
    }
}

fn level_name(l: PermissionLevel) -> (r: &'static str)
    ensures
        r@ == spec_level_name(l),
{
    match l {
        PermissionLevel::Denied => "Denied",
        PermissionLevel::ReadOnly => "ReadOnly",
        PermissionLevel::Execute => "Execute",
        PermissionLevel::Full => "Full",
    }
}

/// The simulation narrative: the command, the affected paths, and the
/// registered permission record if any.
pub open spec fn spec_analyze_stdout(
    gate_entry: Option<crate::permissions::ToolPermission>,
    paths: Seq<Seq<char>>,
    tool: Seq<char>,
    args: Seq<Seq<char>>,
) -> Seq<char> {
    "[SIMULATION] Would execute: "@ + spec_command_line(tool, args) + "\n\n"@ + (if paths.len()
        == 0 {
        "No file changes detected.\n"@
    } else {
        "Would affect "@ + spec_dec(paths.len()) + " file(s):\n"@ + spec_path_lines(paths)
    }) + (match gate_entry {
        Some(p) => "\nPermission level: "@ + spec_level_name(p.level) + "\n"@ + (
        if p.requires_approval {
            "Requires approval: YES\n"@
        } else {
            Seq::<char>::empty()
        }),
        None => Seq::<char>::empty(),
    })
}

/// A sandbox session: the shadow, the permission registry, the mode, the
/// history and the approval queue.
#[derive(Debug)]
pub struct Sandbox {
    pub id: String,
    pub virtual_fs: VirtualFilesystem,
    pub permissions: PermissionGate,
    pub mode: ExecutionMode,
    pub execution_history: Vec<ExecutionResult>,
    pub pending_approvals: Vec<ExecutionResult>,
    pub working_dir: String,
    pub allow_all: bool,
    pub approval_precedes_mode: bool,
}

/// The record a gated submission parks in the approval queue: pending,
/// unapproved, with nothing run and nothing predicted.
pub open spec fn spec_pending_record(
    rec: ExecutionResult,
    tool: Seq<char>,
    args: Seq<Seq<char>>,
    mode: ExecutionMode,
    level: PermissionLevel,
) -> bool {
    &&& rec.tool@ == tool
    &&& views(rec.args@) == args
    &&& rec.command@ == spec_command_line(tool, args)
    &&& rec.mode == mode
    &&& rec.status == ExecutionStatus::PendingApproval
    &&& rec.stdout@.len() == 0
    &&& rec.stderr@.len() == 0
    &&& rec.exit_code is None
    &&& rec.file_changes@.len() == 0
    &&& rec.diff_summary is None
    &&& rec.permission_level == level
    &&& rec.approved == false
}

/// The record a simulation produces: nothing ran, and the narrative of
/// what would happen stands in the captured output.
pub open spec fn spec_simulated_record(
    rec: ExecutionResult,
    pre: Sandbox,
    tool: Seq<char>,
    args: Seq<Seq<char>>,
    level: PermissionLevel,
) -> bool {
    &&& rec.tool@ == tool
    &&& views(rec.args@) == args
    &&& rec.command@ == spec_command_line(tool, args)
    &&& rec.mode == pre.mode
    &&& rec.status == ExecutionStatus::Simulated
    &&& rec.stdout@ == spec_analyze_stdout(
        pre.permissions.spec_get(tool),
        spec_predicted_paths(pre.virtual_fs.spec_live(), tool, args),
        tool,
        args,
    )
    &&& rec.stderr@.len() == 0
    &&& rec.exit_code is None
    &&& rec.file_changes@.len() == 0
    &&& rec.diff_summary is None
    &&& rec.permission_level == level
    &&& rec.approved == true
}

/// The record a diff preview produces: the predicted diffs, and a summary
/// adding up the line counts of their new and old contents.
pub open spec fn spec_diff_record(
    rec: ExecutionResult,
    pre: Sandbox,
    tool: Seq<char>,
    args: Seq<Seq<char>>,
    level: PermissionLevel,
) -> bool {
    &&& rec.tool@ == tool
    &&& views(rec.args@) == args
    &&& rec.command@ == spec_command_line(tool, args)
    &&& rec.mode == pre.mode
    &&& rec.status == ExecutionStatus::Simulated
    &&& rec.stdout@.len() == 0
    &&& rec.stderr@ == "Diff preview for "@ + spec_dec(rec.file_changes@.len() as nat)
        + " file(s)"@
    &&& rec.exit_code is None
    &&& spec_predicted_ok(rec.file_changes@, pre.virtual_fs.spec_live(), tool, args)
    &&& rec.file_changes@.len() == 0 ==> rec.diff_summary is None
    &&& rec.file_changes@.len() > 0 ==> (rec.diff_summary matches Some(s) && ({
        &&& s.added as nat == spec_sum_lines_new(rec.file_changes@)
        &&& s.deleted as nat == spec_sum_lines_old(rec.file_changes@)
        &&& s.unchanged == 0
    }))
    &&& rec.permission_level == level
    &&& rec.approved == true
}

/// The record a live run produces from the process runner's report: the
/// captured output on a run that happened, or a failure with exit code -1
/// and the spawn error as the error output.
pub open spec fn spec_live_record(
    rec: ExecutionResult,
    mode: ExecutionMode,
    request: LiveRequest,
    output: ProcessOutput,
) -> bool {
    &&& rec.tool == request.tool
    &&& rec.args@ == request.args@
    &&& rec.command@ == spec_command_line(request.tool@, views(request.args@))
    &&& rec.mode == mode
    &&& rec.file_changes@.len() == 0
    &&& rec.diff_summary is None
    &&& rec.permission_level == request.permission_level
    &&& rec.approved == true
    &&& match output {
        ProcessOutput::Exited { success, exit_code, stdout, stderr } => {
            &&& rec.status == (if success {
                ExecutionStatus::Success
            } else {
                ExecutionStatus::Failed
            })
            &&& rec.exit_code == exit_code
            &&& rec.stdout == stdout
            &&& rec.stderr == stderr
        },
        ProcessOutput::SpawnFailed { message } => {
            &&& rec.status == ExecutionStatus::Failed
            &&& rec.exit_code == Some(-1i32)
            &&& rec.stdout@.len() == 0
            &&& rec.stderr == message
        },
    }
}

/// The full behavior of one submission, as a relation between the state
/// before, the state after, and what came back.
pub open spec fn spec_execute_tool_post(
    pre: Sandbox,
    post: Sandbox,
    tool: Seq<char>,
    args: Seq<Seq<char>>,
    r: SandboxResult<Dispatch>,
) -> bool {
    match pre.spec_clearance(tool, args) {
        None => {
            &&& post == pre
            &&& r matches Err(e) && e is PermissionDenied
        },
        Some(level) => {
            if pre.spec_approval_gates(tool) {
                &&& r matches Ok(d) && d matches Dispatch::Completed(rec) && ({
                    &&& spec_pending_record(rec, tool, args, pre.mode, level)
                    &&& post.spec_lookup_pending(rec.id@) matches Some(q) && spec_same_record(
                        q,
                        rec,
                    )
                    &&& forall|k: Seq<char>|
                        k != rec.id@ ==> #[trigger] post.spec_lookup_pending(k)
                            == pre.spec_lookup_pending(k)
                })
                &&& post == (Sandbox { pending_approvals: post.pending_approvals, ..pre })
            } else {
                match pre.mode {
                    ExecutionMode::Live => {
                        &&& post == pre
                        &&& r matches Ok(d) && d matches Dispatch::RunLive(req) && ({
                            &&& req.tool@ == tool
                            &&& views(req.args@) == args
                            &&& req.permission_level == level
                        })
                    },
                    ExecutionMode::Simulation => {
                        &&& post == pre
                        &&& r matches Ok(d) && d matches Dispatch::Completed(rec)
                            && spec_simulated_record(rec, pre, tool, args, level)
                    },
                    ExecutionMode::Diff => {
                        &&& post == pre
                        &&& r matches Ok(d) && d matches Dispatch::Completed(rec)
                            && spec_diff_record(rec, pre, tool, args, level)
                    },
                }
            }
        },
    }
}

impl Sandbox {
    /// The shadow, the permission registry and the approval queue are each
    /// well-formed; queue ids are unique.
    pub open spec fn wf(&self) -> bool {
        &&& self.virtual_fs.wf()
        &&& self.permissions.wf()
        &&& unique_keys(self.pending_approvals@)
    }

    /// The queued record under an id, if any.
    pub open spec fn spec_lookup_pending(&self, id: Seq<char>) -> Option<ExecutionResult> {
        lookup(self.pending_approvals@, id)
    }

    /// The registry's approval flag for a tool; unregistered tools need none.
    pub open spec fn spec_requires_approval_gate(&self, tool: Seq<char>) -> bool {
        match self.permissions.spec_get(tool) {
            Some(p) => p.requires_approval,
            None => false,
        }
    }

    /// A flagged tool stops at the approval queue: always before a live
    /// run, and before preview and diff too unless the session relaxes
    /// that single policy point.
    pub open spec fn spec_approval_gates(&self, tool: Seq<char>) -> bool {
        self.spec_requires_approval_gate(tool) && !self.allow_all && (self.approval_precedes_mode
            || self.mode == ExecutionMode::Live)
    }

    /// The permission level a submission resolves to, or nothing when it
    /// is refused: the override grants full access, a registered tool
    /// answers with its level if its argument check passes, and an
    /// unknown tool answers the default level only when unknown tools are
    /// allowed.
    pub open spec fn spec_clearance(&self, tool: Seq<char>, args: Seq<Seq<char>>) -> Option<
        PermissionLevel,
    > {
        if self.allow_all {
            Some(PermissionLevel::Full)
        } else {
            match self.permissions.spec_get(tool) {
                Some(p) => if p.spec_check_args(args) {
                    Some(p.level)
                } else {
                    None
                },
                None => if self.permissions.spec_allow_unknown() {
                    Some(self.permissions.spec_default_level())
                } else {
                    None
                },
            }
        }
    }

    /// Create a new sandbox: an empty shadow, the seeded gate, live mode,
    /// and nothing recorded yet.
    pub fn new() -> (r: Self)
        ensures
            r.wf(),
            r.virtual_fs.spec_live().len() == 0,
            r.virtual_fs.spec_tombstoned().len() == 0,
            r.permissions.spec_default_seed(),
            r.permissions.spec_registry().len() == 9,
            r.permissions.spec_allow_unknown() == false,
            r.mode == ExecutionMode::Live,
            r.execution_history@.len() == 0,
            r.pending_approvals@.len() == 0,
            r.working_dir@.len() == 0,
            r.allow_all == false,
            r.approval_precedes_mode == true,
    {
        Sandbox {
            id: fresh_id(),
            virtual_fs: VirtualFilesystem::new(),
            permissions: PermissionGate::default_permissions(),
            mode: ExecutionMode::Live,
            execution_history: Vec::new(),
            pending_approvals: Vec::new(),
            working_dir: String::new(),
            allow_all: false,
            approval_precedes_mode: true,
        }
    }

    /// Set the execution mode.
    pub fn set_mode(&mut self, mode: ExecutionMode)
        ensures
            *final(self) == (Sandbox { mode, ..*old(self) }),
    {
        self.mode = mode;
    }

    /// Enable allow all mode (bypass permissions).
    pub fn allow_all(&mut self)
        ensures
            *final(self) == (Sandbox { allow_all: true, ..*old(self) }),
    {
        self.allow_all = true;
    }

    /// Park a record in the approval queue, replacing any record already
    /// queued under the same id.
    fn enqueue_pending(&mut self, record: ExecutionResult)
        requires
            old(self).wf(),
        ensures
            final(self).wf(),
            forall|k: Seq<char>|
                #[trigger] final(self).spec_lookup_pending(k) == (if k == record.id@ {
                    Some(record)
                } else {
                    old(self).spec_lookup_pending(k)
                }),
            *final(self) == (Sandbox {
                pending_approvals: final(self).pending_approvals,
                ..*old(self)
            }),
    {
        match find_index(&self.pending_approvals, record.id.as_str()) {
            Some(i) => {
                proof {
                    assert forall|k: Seq<char>| true implies #[trigger] lookup(
                        self.pending_approvals@.update(i as int, record),
                        k,
                    ) == (if k == record.id@ {
                        Some(record)
                    } else {
                        lookup(self.pending_approvals@, k)
                    }) by {
                        lemma_lookup_update(self.pending_approvals@, i as int, record, k);
                    }
                    lemma_unique_update(self.pending_approvals@, i as int, record);
                }
                self.pending_approvals[i] = record;
            },
            None => {
                proof {
                    assert forall|k: Seq<char>| true implies #[trigger] lookup(
                        self.pending_approvals@.push(record),
                        k,
                    ) == (if k == record.id@ {
                        Some(record)
                    } else {
                        lookup(self.pending_approvals@, k)
                    }) by {
                        lemma_lookup_push(self.pending_approvals@, record, k);
                    }
                    lemma_unique_push(self.pending_approvals@, record);
                }
                self.pending_approvals.push(record);
            },
        }
    }

    /// Predict what files a command would change: a best-effort heuristic
    /// keyed on recognized tool and argument patterns, not a guarantee of
    /// the live command's real effect.
    pub fn predict_file_changes(&self, tool: &str, args: &Vec<String>) -> (r: Vec<FileDiff>)
        ensures
            spec_predicted_ok(r@, self.virtual_fs.spec_live(), tool@, views(args@)),
            r@.len() == spec_predicted_paths(self.virtual_fs.spec_live(), tool@, views(
                args@,
            )).len(),
            forall|i: int|
                0 <= i < r@.len() ==> (#[trigger] r@[i]).path@ == spec_predicted_paths(
                    self.virtual_fs.spec_live(),
                    tool@,
                    views(args@),
                )[i],
    {
        let mut changes: Vec<FileDiff> = Vec::new();
        if str_eq(tool, "git") && (has_word(args, "add") || has_word(args, "commit")) {
            let n = self.virtual_fs.files.len();
            let mut i: usize = 0;
            while i < n
                invariant
                    n == self.virtual_fs.files@.len(),
                    i <= n,
                    changes@.len() == i,
                    forall|p: int|
                        0 <= p < i ==> spec_is_staged_diff(
                            #[trigger] changes@[p],
                            self.virtual_fs.files@[p],
                        ),
                decreases n - i,
            {
                changes.push(
                    FileDiff {
                        path: self.virtual_fs.files[i].path.clone(),
                        operation: DiffOperation::Modified,
                        old_content: None,
                        new_content: Some("(staged)".to_owned()),
                    },
                );
                i = i + 1;
            }
            proof {
                assert(forall|p: int|
                    0 <= p < n ==> (#[trigger] changes@[p]).path@ == spec_predicted_paths(
                        self.virtual_fs.spec_live(),
                        tool@,
                        views(args@),
                    )[p]);
            }
        } else if str_eq(tool, "npm") && has_word(args, "install") {
            changes.push(
                FileDiff {
                    path: "package-lock.json".to_owned(),
                    operation: DiffOperation::Modified,
                    old_content: None,
                    new_content: Some("(would be updated)".to_owned()),
                },
            );
            changes.push(
                FileDiff {
                    path: "node_modules/".to_owned(),
                    operation: DiffOperation::Modified,
                    old_content: None,
                    new_content: Some("(would be populated)".to_owned()),
                },
            );
        } else if str_eq(tool, "echo") || str_eq(tool, "tee") || str_eq(tool, "cat") {
            let n = args.len();
            let mut i: usize = 0;
            while i < n
                invariant
                    n == args@.len(),
                    i <= n,
                    changes@.len() == spec_redirect_targets(views(args@).subrange(0, i as int)).len(),
                    forall|p: int|
                        0 <= p < changes@.len() ==> spec_is_written_diff(
                            #[trigger] changes@[p],
                            spec_redirect_targets(views(args@).subrange(0, i as int))[p],
                        ),
                decreases n - i,
            {
                proof {
                    assert(views(args@).subrange(0, i + 1).drop_last() =~= views(
                        args@,
                    ).subrange(0, i as int));
                    assert(views(args@).subrange(0, i + 1).last() == args@[i as int]@);
                }
                if starts_with(args[i].as_str(), ">") {
                    changes.push(
                        FileDiff {
                            path: redirect_target(args[i].as_str()),
                            operation: DiffOperation::Modified,
                            old_content: None,
                            new_content: Some("(would be written)".to_owned()),
                        },
                    );
                }
                i = i + 1;
            }
            proof {
                assert(views(args@).subrange(0, n as int) =~= views(args@));
            }
        }
        changes
    }

    /// Analyze what a command would do: the simulation narrative and an
    /// empty error channel.
    pub fn analyze_command(&self, tool: &str, args: &Vec<String>) -> (r: (String, String))
        ensures
            r.0@ == spec_analyze_stdout(
                self.permissions.spec_get(tool@),
                spec_predicted_paths(self.virtual_fs.spec_live(), tool@, views(args@)),
                tool@,
                views(args@),
            ),
            r.1@.len() == 0,
    {
        let ghost paths = spec_predicted_paths(self.virtual_fs.spec_live(), tool@, views(args@));
        let mut stdout = "[SIMULATION] Would execute: ".to_owned();
        let cl = command_line(tool, args);
        stdout.append(cl.as_str());
        stdout.append("\n\n");
        let file_changes = self.predict_file_changes(tool, args);
        if file_changes.len() == 0 {
            stdout.append("No file changes detected.\n");
        } else {
            stdout.append("Would affect ");
            let ns = usize_to_string(file_changes.len());
            stdout.append(ns.as_str());
            stdout.append(" file(s):\n");
            let ghost head = stdout@;
            let n = file_changes.len();
            let mut i: usize = 0;
            while i < n
                invariant
                    n == file_changes@.len(),
                    n == paths.len(),
                    i <= n,
                    forall|p: int| 0 <= p < n ==> (#[trigger] file_changes@[p]).path@ == paths[p],
                    stdout@ == head + spec_path_lines(paths.subrange(0, i as int)),
                decreases n - i,
            {
                proof {
                    assert(paths.subrange(0, i + 1).drop_last() =~= paths.subrange(0, i as int));
                    assert(paths.subrange(0, i + 1).last() == paths[i as int]);
                }
                stdout.append("  - ");
                stdout.append(file_changes[i].path.as_str());
                stdout.append("\n");
                i = i + 1;
            }
            proof {
                assert(paths.subrange(0, n as int) =~= paths);
            }
        }
        match self.permissions.get_permission(tool) {
            Some(permission) => {
                stdout.append("\nPermission level: ");
                stdout.append(level_name(permission.level));
                stdout.append("\n");
                if permission.requires_approval {
                    stdout.append("Requires approval: YES\n");
                }
            },
            None => {},
        }
        (stdout, String::new())
    }

    /// Execute in simulation mode: preview only, nothing runs.
    fn simulate_execution(&self, tool: &str, args: &Vec<String>, permission_level: PermissionLevel)
        -> (r: ExecutionResult)
        ensures
            spec_simulated_record(r, *self, tool@, views(args@), permission_level),
    {
        let command = command_line(tool, args);
        let narrative = self.analyze_command(tool, args);
        ExecutionResult {
            id: fresh_id(),
            command,
            tool: tool.to_owned(),
            args: clone_strings(args),
            mode: self.mode,
            status: ExecutionStatus::Simulated,
            stdout: narrative.0,
            stderr: narrative.1,
            exit_code: None,
            file_changes: Vec::new(),
            diff_summary: None,
            permission_level,
            approved: true,
            executed_at: current_timestamp(),
        }
    }

    /// Execute in diff mode: predict the file changes and sum their line
    /// counts into a summary.
    fn diff_execution(&self, tool: &str, args: &Vec<String>, permission_level: PermissionLevel)
        -> (r: ExecutionResult)
        ensures
            spec_diff_record(r, *self, tool@, views(args@), permission_level),
    {
        let command = command_line(tool, args);
        let file_changes = self.predict_file_changes(tool, args);
        proof {
            lemma_predicted_line_counts(
                file_changes@,
                self.virtual_fs.spec_live(),
                tool@,
                views(args@),
            );
        }
        let n = file_changes.len();
        let diff_summary = if n > 0 {
            let mut added: usize = 0;
            let mut deleted: usize = 0;
            let mut i: usize = 0;
            while i < n
                invariant
                    n == file_changes@.len(),
                    i <= n,
                    forall|p: int|
                        0 <= p < n ==> (#[trigger] file_changes@[p]).old_content is None
                            && file_changes@[p].new_content is Some && spec_line_count(
                            spec_opt_text(file_changes@[p].new_content),
                        ) == 1,
                    added as nat == spec_sum_lines_new(file_changes@.subrange(0, i as int)),
                    deleted as nat == spec_sum_lines_old(file_changes@.subrange(0, i as int)),
                    added <= i,
                    deleted == 0,
                decreases n - i,
            {
                proof {
                    assert(file_changes@.subrange(0, i + 1).drop_last() =~= file_changes@.subrange(
                        0,
                        i as int,
                    ));
                    assert(file_changes@.subrange(0, i + 1).last() == file_changes@[i as int]);
                }
                match &file_changes[i].new_content {
                    Some(c) => {
                        let lines = count_lines(c.as_str());
                        proof {
                            assert(spec_opt_text(file_changes@[i as int].new_content) == c@);
                        }
                        added = added + lines;
                    },
                    None => {},
                }
                match &file_changes[i].old_content {
                    Some(c) => {
                        let lines = count_lines(c.as_str());
                        deleted = deleted + lines;
                    },
                    None => {},
                }
                i = i + 1;
            }
            proof {
                assert(file_changes@.subrange(0, n as int) =~= file_changes@);
            }
            Some(DiffSummary { added, deleted, unchanged: 0 })
        } else {
            None
        };
        let count = usize_to_string(file_changes.len());
        let stderr = "Diff preview for ".to_owned().concat(count.as_str()).concat(" file(s)");
        ExecutionResult {
            id: fresh_id(),
            command,
            tool: tool.to_owned(),
            args: clone_strings(args),
            mode: self.mode,
            status: ExecutionStatus::Simulated,
            stdout: String::new(),
            stderr,
            exit_code: None,
            file_changes,
            diff_summary,
            permission_level,
            approved: true,
            executed_at: current_timestamp(),
        }
    }

    /// Execute a specific tool with arguments: evaluate permission, stop
    /// at the approval gate when the tool is flagged — before the mode is
    /// even consulted — and otherwise dispatch by mode. Only a live run
    /// leaves the engine: it is returned as a request for the surrounding
    /// process runner.
    pub fn execute_tool(&mut self, tool: &str, args: &Vec<String>) -> (r: SandboxResult<Dispatch>)
        requires
            old(self).wf(),
        ensures
            final(self).wf(),
            spec_execute_tool_post(*old(self), *final(self), tool@, views(args@), r),
    {
        let permission_level = if self.allow_all {
            PermissionLevel::Full
        } else {
            match self.permissions.check_command(tool, args) {
                Ok(level) => level,
                Err(e) => {
                    return Err(e);
                },
            }
        };
        let gated = self.permissions.requires_approval(tool) && !self.allow_all
            && (self.approval_precedes_mode || matches!(self.mode, ExecutionMode::Live));
        if gated {
            let result = ExecutionResult {
                id: fresh_id(),
                command: command_line(tool, args),
                tool: tool.to_owned(),
                args: clone_strings(args),
                mode: self.mode,
                status: ExecutionStatus::PendingApproval,
                stdout: String::new(),
                stderr: String::new(),
                exit_code: None,
                file_changes: Vec::new(),
                diff_summary: None,
                permission_level,
                approved: false,
                executed_at: current_timestamp(),
            };
            let stored = result.duplicate();
            self.enqueue_pending(stored);
            return Ok(Dispatch::Completed(result));
        }
        match self.mode {
            ExecutionMode::Simulation => Ok(
                Dispatch::Completed(self.simulate_execution(tool, args, permission_level)),
            ),
            ExecutionMode::Diff => Ok(
                Dispatch::Completed(self.diff_execution(tool, args, permission_level)),
            ),
            ExecutionMode::Live => Ok(
                Dispatch::RunLive(
                    LiveRequest {
                        tool: tool.to_owned(),
                        args: clone_strings(args),
                        permission_level,
                    },
                ),
            ),
        }
    }

    /// Execute a command in the sandbox: tokenize it, then submit the
    /// tool and arguments. An empty command or an unterminated quote is
    /// an invalid command.
    pub fn execute(&mut self, command: &str) -> (r: SandboxResult<Dispatch>)
        requires
            old(self).wf(),
        ensures
            final(self).wf(),
            !spec_split_ok(command@) ==> *final(self) == *old(self) && (r matches Err(
                SandboxError::InvalidCommand(m),
            ) && m@ == "Unclosed quote"@),
            spec_split_ok(command@) && spec_split_words(command@).len() == 0 ==> *final(self)
                == *old(self) && (r matches Err(SandboxError::InvalidCommand(m)) && m@ ==
                "Empty command"@),
            spec_split_ok(command@) && spec_split_words(command@).len() > 0
                ==> spec_execute_tool_post(
                *old(self),
                *final(self),
                spec_split_words(command@)[0],
                spec_split_words(command@).drop_first(),
                r,
            ),
    {
        let parts = match split(command) {
            Ok(p) => p,
            Err(m) => {
                return Err(SandboxError::InvalidCommand(m));
            },
        };
        if parts.len() == 0 {
            return Err(SandboxError::InvalidCommand("Empty command".to_owned()));
        }
        let mut args: Vec<String> = Vec::new();
        let n = parts.len();
        let mut i: usize = 1;
        while i < n
            invariant
                n == parts@.len(),
                1 <= i <= n,
                args@.len() == i - 1,
                forall|p: int| 0 <= p < i - 1 ==> #[trigger] args@[p] == parts@[p + 1],
            decreases n - i,
        {
            args.push(parts[i].clone());
            i = i + 1;
        }
        proof {
            assert(views(args@) =~= spec_split_words(command@).drop_first());
            assert(parts@[0]@ == spec_split_words(command@)[0]);
        }
        self.execute_tool(parts[0].as_str(), &args)
    }

    /// Run the live path for a cleared request, from the process runner's
    /// report: build the record and append it to the history. A spawn
    /// failure is not an error: it is captured as a failed record, so a
    /// caller scripting many commands can inspect failures uniformly via
    /// the history.
    pub fn live_execution(&mut self, request: LiveRequest, output: ProcessOutput) -> (r:
        ExecutionResult)
        requires
            old(self).wf(),
        ensures
            final(self).wf(),
            spec_live_record(r, old(self).mode, request, output),
            final(self).execution_history@.len() == old(self).execution_history@.len() + 1,
            final(self).execution_history@.drop_last() == old(self).execution_history@,
            spec_same_record(final(self).execution_history@.last(), r),
            *final(self) == (Sandbox {
                execution_history: final(self).execution_history,
                ..*old(self)
            }),
    {
        let command = command_line(request.tool.as_str(), &request.args);
        let result = match output {
            ProcessOutput::Exited { success, exit_code, stdout, stderr } => ExecutionResult {
                id: fresh_id(),
                command,
                tool: request.tool,
                args: request.args,
                mode: self.mode,
                status: if success {
                    ExecutionStatus::Success
                } else {
                    ExecutionStatus::Failed
                },
                stdout,
                stderr,
                exit_code,
                file_changes: Vec::new(),
                diff_summary: None,
                permission_level: request.permission_level,
                approved: true,
                executed_at: current_timestamp(),
            },
            ProcessOutput::SpawnFailed { message } => ExecutionResult {
                id: fresh_id(),
                command,
                tool: request.tool,
                args: request.args,
                mode: self.mode,
                status: ExecutionStatus::Failed,
                stdout: String::new(),
                stderr: message,
                exit_code: Some(-1),
                file_changes: Vec::new(),
                diff_summary: None,
                permission_level: request.permission_level,
                approved: true,
                executed_at: current_timestamp(),
            },
        };
        let stored = result.duplicate();
        self.execution_history.push(stored);
        proof {
            assert(self.execution_history@.drop_last() =~= old(self).execution_history@);
        }
        result
    }

    /// Approve a pending execution: the record leaves the queue and comes
    /// back as a live request, to be run in live mode unconditionally,
    /// whatever mode the original submission was made under. An unknown
    /// id is an invalid command.
    pub fn approve(&mut self, execution_id: &str) -> (r: SandboxResult<LiveRequest>)
        requires
            old(self).wf(),
        ensures
            final(self).wf(),
            match old(self).spec_lookup_pending(execution_id@) {
                Some(rec) => {
                    &&& r matches Ok(req) && req.tool == rec.tool && req.args@ == rec.args@
                        && req.permission_level == rec.permission_level
                    &&& forall|k: Seq<char>|
                        #[trigger] final(self).spec_lookup_pending(k) == (if k == execution_id@ {
                            None::<ExecutionResult>
                        } else {
                            old(self).spec_lookup_pending(k)
                        })
                    &&& *final(self) == (Sandbox {
                        pending_approvals: final(self).pending_approvals,
                        ..*old(self)
                    })
                },
                None => {
                    &&& *final(self) == *old(self)
                    &&& r matches Err(SandboxError::InvalidCommand(m)) && m@ ==
                        "Execution not found"@
                },
            },
    {
        match find_index(&self.pending_approvals, execution_id) {
            Some(i) => {
                proof {
                    assert forall|k: Seq<char>| true implies #[trigger] lookup(
                        self.pending_approvals@.remove(i as int),
                        k,
                    ) == (if k == execution_id@ {
                        None::<ExecutionResult>
                    } else {
                        lookup(self.pending_approvals@, k)
                    }) by {
                        lemma_lookup_remove(self.pending_approvals@, i as int, k);
                    }
                    lemma_unique_remove(self.pending_approvals@, i as int);
                }
                let rec = self.pending_approvals.remove(i);
                Ok(
                    LiveRequest {
                        tool: rec.tool,
                        args: rec.args,
                        permission_level: rec.permission_level,
                    },
                )
            },
            None => Err(SandboxError::InvalidCommand("Execution not found".to_owned())),
        }
    }

    /// Get execution history.
    pub fn history(&self) -> (r: &Vec<ExecutionResult>)
        ensures
            r@ == self.execution_history@,
    {
        &self.execution_history
    }

    /// Get pending approvals, in arrival order.
    pub fn pending_approvals(&self) -> (r: &Vec<ExecutionResult>)
        ensures
            r@ == self.pending_approvals@,
    {
        &self.pending_approvals
    }

    /// Reset the sandbox: restore the shadow to its mounted baseline and
    /// clear the history and the approval queue.
    pub fn reset(&mut self)
        requires
            old(self).wf(),
        ensures
            final(self).wf(),
            VirtualFilesystem::spec_reset_done(old(self).virtual_fs, final(self).virtual_fs),
            final(self).execution_history@.len() == 0,
            final(self).pending_approvals@.len() == 0,
            final(self).id == old(self).id,
            final(self).permissions == old(self).permissions,
            final(self).mode == old(self).mode,
            final(self).working_dir == old(self).working_dir,
            final(self).allow_all == old(self).allow_all,
    {
        self.virtual_fs.reset();
        self.execution_history.clear();
        self.pending_approvals.clear();
    }

    /// Get sandbox status.
    pub fn status(&self) -> (r: SandboxStatus)
        ensures
            r.id == self.id,
            r.mode == self.mode,
            r.file_count == self.virtual_fs.spec_live().len(),
            r.execution_count == self.execution_history@.len(),
            r.pending_approval_count == self.pending_approvals@.len(),
            r.working_dir == self.working_dir,
    {
        SandboxStatus {
            id: self.id.clone(),
            mode: self.mode,
            file_count: self.virtual_fs.list_files().len(),
            execution_count: self.execution_history.len(),
            pending_approval_count: self.pending_approvals.len(),
            working_dir: self.working_dir.clone(),
        }
    }
}

impl Default for Sandbox {
    fn default() -> (r: Self)
        ensures
            r.wf(),
            r.virtual_fs.spec_live().len() == 0,
            r.virtual_fs.spec_tombstoned().len() == 0,
            r.permissions.spec_default_seed(),
            r.permissions.spec_registry().len() == 9,
            r.permissions.spec_allow_unknown() == false,
            r.mode == ExecutionMode::Live,
            r.execution_history@.len() == 0,
            r.pending_approvals@.len() == 0,
            r.working_dir@.len() == 0,
            r.allow_all == false,
            r.approval_precedes_mode == true,
    {
        Sandbox::new()
    }
}

/// Sandbox status information.
#[derive(Debug, Clone)]
pub struct SandboxStatus {
    pub id: String,
    pub mode: ExecutionMode,
    pub file_count: usize,
    pub execution_count: usize,
    pub pending_approval_count: usize,
    pub working_dir: String,
}

/// A tool flagged for approval is parked, pending and unapproved, under
/// every execution mode, and no live run is handed out for it: approval
/// precedes even preview and diff.
pub proof fn lemma_approval_precedes_mode(
    pre: Sandbox,
    post: Sandbox,
    tool: Seq<char>,
    args: Seq<Seq<char>>,
    r: SandboxResult<Dispatch>,
)
    requires
        spec_execute_tool_post(pre, post, tool, args, r),
        pre.spec_requires_approval_gate(tool),
        !pre.allow_all,
        pre.approval_precedes_mode,
        pre.spec_clearance(tool, args) is Some,
    ensures
        r matches Ok(d) && d matches Dispatch::Completed(rec) && rec.status
            == ExecutionStatus::PendingApproval && rec.approved == false,
        !(r matches Ok(d) && d is RunLive),
{
}

} // verus!

