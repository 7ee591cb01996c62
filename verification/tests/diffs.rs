use agent_sandbox::{DiffChangeType, DiffEngine, DiffSummary};

#[test]
fn diff_summary_counts_changed_lines() {
    let summary = DiffEngine::diff_summary("a\nb\n", "a\nc\n");
    assert_eq!(summary.added, 1);
    assert_eq!(summary.deleted, 1);
    assert_eq!(summary.unchanged, 1);
    assert!(summary.has_changes());
}

#[test]
fn diff_summary_of_equal_texts_is_quiet() {
    let summary = DiffEngine::diff_summary("same\n", "same\n");
    assert_eq!(summary.added, 0);
    assert_eq!(summary.deleted, 0);
    assert_eq!(summary.unchanged, 1);
    assert!(!summary.has_changes());
}

#[test]
fn summary_format_shows_both_counts() {
    let summary = DiffSummary { added: 12, deleted: 3, unchanged: 7 };
    assert_eq!(summary.format(), "+12 -3\n");
}

#[test]
fn unified_diff_groups_contiguous_changes_into_hunks() {
    let old_path = "old.txt".to_string();
    let new_path = "new.txt".to_string();
    let diff = DiffEngine::unified_diff("a\nb\nc\n", "a\nx\nc\n", &old_path, &new_path);
    assert_eq!(diff.old_path, "old.txt");
    assert_eq!(diff.new_path, "new.txt");
    assert_eq!(diff.hunks.len(), 1);
    let hunk = &diff.hunks[0];
    assert_eq!(hunk.old_start, 2);
    assert_eq!(hunk.old_lines, 1);
    assert_eq!(hunk.new_start, 2);
    assert_eq!(hunk.new_lines, 1);
    assert_eq!(hunk.changes.len(), 2);
    assert_eq!(hunk.changes[0].change_type, DiffChangeType::Delete);
    assert_eq!(hunk.changes[0].content, "b\n");
    assert_eq!(hunk.changes[1].change_type, DiffChangeType::Insert);
    assert_eq!(hunk.changes[1].content, "x\n");
}

#[test]
fn unified_diff_of_identical_texts_has_no_hunks() {
    let p = "same.txt".to_string();
    let diff = DiffEngine::unified_diff("a\nb\n", "a\nb\n", &p, &p);
    assert!(diff.hunks.is_empty());
}

#[test]
fn trailing_insertion_closes_the_open_hunk() {
    let p = "f".to_string();
    let diff = DiffEngine::unified_diff("a\n", "a\nb\n", &p, &p);
    assert_eq!(diff.hunks.len(), 1);
    let hunk = &diff.hunks[0];
    assert_eq!(hunk.old_start, 2);
    assert_eq!(hunk.old_lines, 0);
    assert_eq!(hunk.new_start, 2);
    assert_eq!(hunk.new_lines, 1);
}

#[test]
fn format_unified_diff_renders_headers_and_prefixes() {
    let old_path = "old.txt".to_string();
    let new_path = "new.txt".to_string();
    let diff = DiffEngine::unified_diff("a\nb\nc\n", "a\nx\nc\n", &old_path, &new_path);
    let text = DiffEngine::format_unified_diff(&diff);
    assert_eq!(
        text,
        "--- a/old.txt\n+++ b/new.txt\n@@ -2,1 +2,1 @@\n-b\n+x\n"
    );
}

#[test]
fn diff_summary_counts_cover_both_texts() {
    let summary = DiffEngine::diff_summary("a\nb\nc\n", "a\nx\n");
    assert_eq!(summary.deleted + summary.unchanged, 3);
    assert_eq!(summary.added + summary.unchanged, 2);
}

#[test]
fn side_by_side_renders_markers_and_padded_cells() {
    let table = agent_sandbox::side_by_side_diff("a\n", "b\n");
    let border =
        "+-------------------------------------+-------------------------------------+\n";
    let mut expected = String::new();
    expected.push_str(border);
    expected.push_str("| OLD                                 | NEW                                 |\n");
    expected.push_str(border);
    expected.push_str(&format!("|-| {:<35} | {:<35} |\n", "a", ""));
    expected.push_str(&format!("|+| {:<35} | {:<35} |\n", "", "b"));
    expected.push_str(border);
    assert_eq!(table, expected);
}
