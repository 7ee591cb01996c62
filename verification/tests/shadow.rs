use agent_sandbox::{DiffOperation, MountEntry, SandboxError, VirtualFile, VirtualFilesystem};
use sha2::Digest;

#[test]
fn write_stores_the_sha256_of_the_content() {
    let mut vfs = VirtualFilesystem::new();
    vfs.write("hello.txt".to_string(), b"hello".to_vec());
    let meta = vfs.get_metadata("hello.txt").expect("hello.txt is live");
    assert_eq!(
        meta.hash,
        "2cf24dba5fb0a30e26e83b2ac5b9e29e1b161e5c1fa7425e73043362938b9824"
    );
    let independent = hex::encode(sha2::Sha256::digest(b"hello"));
    assert_eq!(meta.hash, independent);
}

#[test]
fn update_content_recomputes_the_hash() {
    let mut file = VirtualFile::new("f".to_string(), b"one".to_vec());
    let first = file.hash.clone();
    file.update_content(b"two".to_vec());
    assert_ne!(file.hash, first);
    assert_eq!(file.hash, hex::encode(sha2::Sha256::digest(b"two")));
    assert_eq!(file.content, b"two".to_vec());
}

#[test]
fn executable_files_carry_their_bit() {
    let file = VirtualFile::new_executable("run.sh".to_string(), b"#!/bin/sh\n".to_vec());
    assert!(file.is_executable);
    assert_eq!(file.permissions, 0o755);
    let plain = VirtualFile::new("doc.txt".to_string(), Vec::new());
    assert!(!plain.is_executable);
    assert_eq!(plain.permissions, 0o644);
}

#[test]
fn mount_then_diff_reports_everything_as_modified() {
    let mut vfs = VirtualFilesystem::new();
    let entries = vec![
        MountEntry { path: "a.txt".to_string(), content: b"alpha".to_vec(), executable: false },
        MountEntry { path: "bin/run".to_string(), content: b"beta".to_vec(), executable: true },
    ];
    vfs.mount("/project".to_string(), &entries);
    let diffs = vfs.get_diff();
    assert_eq!(diffs.len(), 2);
    for d in &diffs {
        assert!(matches!(d.operation, DiffOperation::Modified));
        assert!(d.old_content.is_none());
    }
    assert_eq!(diffs[0].path, "a.txt");
    assert_eq!(diffs[0].new_content.as_deref(), Some("alpha"));
    assert_eq!(diffs[1].path, "bin/run");
    assert_eq!(diffs[1].new_content.as_deref(), Some("beta"));
}

#[test]
fn delete_then_reset_restores_content_and_hash() {
    let mut vfs = VirtualFilesystem::new();
    vfs.write("keep.txt".to_string(), b"precious".to_vec());
    let before = vfs.get_metadata("keep.txt").expect("live before deletion");
    vfs.delete("keep.txt").expect("delete succeeds");
    assert!(vfs.read("keep.txt").is_err());
    assert!(vfs.path_exists("keep.txt"));
    vfs.reset();
    let after = vfs.get_metadata("keep.txt").expect("restored after reset");
    assert_eq!(after.content, before.content);
    assert_eq!(after.hash, before.hash);
}

#[test]
fn delete_then_commit_makes_the_deletion_final() {
    let mut vfs = VirtualFilesystem::new();
    vfs.write("gone.txt".to_string(), b"bye".to_vec());
    vfs.delete("gone.txt").expect("delete succeeds");
    vfs.commit();
    vfs.reset();
    assert!(vfs.read("gone.txt").is_err());
    assert!(!vfs.path_exists("gone.txt"));
}

#[test]
fn deleted_entries_show_up_in_the_diff() {
    let mut vfs = VirtualFilesystem::new();
    vfs.write("a.txt".to_string(), b"a".to_vec());
    vfs.write("b.txt".to_string(), b"b".to_vec());
    vfs.delete("a.txt").expect("delete succeeds");
    let diffs = vfs.get_diff();
    assert_eq!(diffs.len(), 2);
    assert!(matches!(diffs[0].operation, DiffOperation::Modified));
    assert_eq!(diffs[0].path, "b.txt");
    assert!(matches!(diffs[1].operation, DiffOperation::Deleted));
    assert_eq!(diffs[1].path, "a.txt");
    assert_eq!(diffs[1].old_content.as_deref(), Some("a"));
    assert!(diffs[1].new_content.is_none());
}

#[test]
fn read_and_delete_fail_on_absent_paths() {
    let mut vfs = VirtualFilesystem::new();
    match vfs.read("missing") {
        Err(SandboxError::VirtualFileNotFound(m)) => assert_eq!(m, "missing"),
        other => panic!("expected a missing-file error, got {:?}", other),
    }
    match vfs.delete("missing") {
        Err(SandboxError::VirtualFileNotFound(m)) => assert_eq!(m, "missing"),
        other => panic!("expected a missing-file error, got {:?}", other),
    }
}

#[test]
fn write_replaces_and_lists_in_insertion_order() {
    let mut vfs = VirtualFilesystem::new();
    vfs.write("one".to_string(), b"1".to_vec());
    vfs.write("two".to_string(), b"2".to_vec());
    vfs.write("one".to_string(), b"1bis".to_vec());
    assert_eq!(vfs.list_files(), vec!["one".to_string(), "two".to_string()]);
    assert_eq!(vfs.read("one").expect("one is live"), b"1bis".to_vec());
}

#[test]
fn format_renders_each_operation() {
    let added = agent_sandbox::FileDiff {
        path: "n.txt".to_string(),
        operation: DiffOperation::Added,
        old_content: None,
        new_content: Some("new".to_string()),
    };
    assert_eq!(added.format(), "+++ n.txt\nnew\n");
    let modified = agent_sandbox::FileDiff {
        path: "m.txt".to_string(),
        operation: DiffOperation::Modified,
        old_content: None,
        new_content: Some("text".to_string()),
    };
    assert_eq!(modified.format(), "M  m.txt\n--- a/m.txt\n+++ b/m.txt\ntext\n");
    let deleted = agent_sandbox::FileDiff {
        path: "d.txt".to_string(),
        operation: DiffOperation::Deleted,
        old_content: Some("old".to_string()),
        new_content: None,
    };
    assert_eq!(deleted.format(), "D  d.txt\nold\n");
}

#[test]
fn invalid_utf8_content_is_decoded_lossily_in_the_diff() {
    let mut vfs = VirtualFilesystem::new();
    vfs.write("bin".to_string(), vec![0x68, 0x69, 0xff]);
    let diffs = vfs.get_diff();
    assert_eq!(diffs.len(), 1);
    assert_eq!(diffs[0].new_content.as_deref(), Some("hi\u{FFFD}"));
}

#[test]
fn update_content_keeps_creation_and_identity() {
    let mut file = VirtualFile::new("f".to_string(), b"one".to_vec());
    let created = file.created_at;
    file.update_content(b"two".to_vec());
    assert_eq!(file.path, "f");
    assert_eq!(file.created_at, created);
}
