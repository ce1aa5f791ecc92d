use std::collections::BTreeMap;

use hostsync::channel::ChannelMessage;
use hostsync::directories::DirectoryPlan;
use hostsync::digest::ContentHasher;
use hostsync::sftp::SftpAction;
use hostsync::sftp_upload::SftpUpload;
use hostsync::shell::move_command;
use hostsync::shell::upload_command;
use hostsync::ssh_upload::SshUpload;
use hostsync::ssh_upload::SshUploadAction;
use hostsync::sync::compare;
use hostsync::sync::Comparison;
use hostsync::sync::FileSync;
use hostsync::sync::SyncAction;

/// The names on a host, with the content of those that are files.
type Tree = BTreeMap<String, Option<Vec<u8>>>;

/// Runs an upload on `tree`, at most `limit` steps of it, and tells the steps.
fn replay(tree: &mut Tree, content: &[u8], dest: &str, limit: usize) -> Vec<String> {
    let mut upload = SftpUpload::new("local", dest);
    let mut steps = Vec::new();
    while steps.len() < limit {
        let action = upload.action();
        if matches!(action, SftpAction::Complete) {
            break;
        }
        steps.push(format!("{action:?}"));
        let mut found = true;
        match action {
            SftpAction::CheckExists(path) => found = tree.contains_key(&path),
            SftpAction::CreateDirectory(path) => {
                assert!(tree.insert(path, None).is_none());
            }
            SftpAction::RemoveFile(path) => {
                assert!(tree.remove(&path).is_some());
            }
            SftpAction::CreateFile { path, .. } => {
                tree.insert(path, Some(Vec::new()));
            }
            SftpAction::Copy { to, .. } => {
                tree.insert(to, Some(content.to_vec()));
            }
            SftpAction::Rename { from, to } => {
                let moved = tree.remove(&from).unwrap();
                assert!(tree.insert(to, moved).is_none());
            }
            _ => {}
        }
        upload.advance(found);
    }
    steps
}

#[test]
fn directory_plan_creates_only_what_is_missing() {
    let mut plan = DirectoryPlan::new("/a/b");
    assert!(matches!(plan.action(), SftpAction::CheckExists(path) if path == "/a"));
    assert_eq!(plan.failure(), Some("failed checking remote directory /a".to_string()));
    plan.advance(true);
    assert!(matches!(plan.action(), SftpAction::CheckExists(path) if path == "/a/b"));
    plan.advance(false);
    assert!(matches!(plan.action(), SftpAction::CreateDirectory(path) if path == "/a/b"));
    assert_eq!(plan.failure(), Some("failed creating remote directory /a/b".to_string()));
    plan.advance(true);
    assert!(plan.complete());
    assert!(matches!(plan.action(), SftpAction::Complete));
    assert_eq!(plan.failure(), None);
    assert!(DirectoryPlan::empty().complete());
}

#[test]
fn second_pass_over_directories_creates_nothing() {
    let mut there: Vec<String> = Vec::new();
    for pass in 0..2 {
        let mut created = 0;
        let mut plan = DirectoryPlan::new("x/y/z");
        while !plan.complete() {
            let mut found = true;
            match plan.action() {
                SftpAction::CheckExists(path) => found = there.contains(&path),
                SftpAction::CreateDirectory(path) => {
                    there.push(path);
                    created += 1;
                }
                other => panic!("{other:?}"),
            }
            plan.advance(found);
        }
        assert_eq!(created, if pass == 0 { 3 } else { 0 });
    }
    assert_eq!(there, vec!["x", "x/y", "x/y/z"]);
}

#[test]
fn fresh_upload_goes_through_every_step() {
    let mut tree = Tree::new();
    let steps = replay(&mut tree, b"new", "/a/b/f", 100);
    assert_eq!(
        steps,
        vec![
            "CheckExists(\"/a\")",
            "CreateDirectory(\"/a\")",
            "CheckExists(\"/a/b\")",
            "CreateDirectory(\"/a/b\")",
            "CheckExists(\"/a/b/f.tmp\")",
            "OpenSource(\"local\")",
            "CreateFile { path: \"/a/b/f.tmp\", mode: OpenMode { create: true, truncate: true, write: true } }",
            "Copy { from: \"local\", to: \"/a/b/f.tmp\" }",
            "Flush(\"/a/b/f.tmp\")",
            "Close(\"/a/b/f.tmp\")",
            "CheckExists(\"/a/b/f\")",
            "Rename { from: \"/a/b/f.tmp\", to: \"/a/b/f\" }",
        ]
    );
    assert_eq!(tree.get("/a/b/f"), Some(&Some(b"new".to_vec())));
    assert_eq!(tree.len(), 3);
}

#[test]
fn upload_clears_leftovers_and_replaces_the_destination() {
    let mut tree = Tree::new();
    tree.insert("f".to_string(), Some(b"old".to_vec()));
    tree.insert("f.tmp".to_string(), Some(b"stale".to_vec()));
    tree.insert("other".to_string(), Some(b"kept".to_vec()));
    let steps = replay(&mut tree, b"new", "f", 100);
    assert_eq!(steps.len(), 10);
    assert_eq!(steps[1], "RemoveFile(\"f.tmp\")");
    assert_eq!(steps[8], "RemoveFile(\"f\")");
    assert_eq!(tree.get("f"), Some(&Some(b"new".to_vec())));
    assert_eq!(tree.get("other"), Some(&Some(b"kept".to_vec())));
    assert_eq!(tree.len(), 2);
}

#[test]
fn interrupted_upload_leaves_the_old_file() {
    for limit in 0..=8 {
        let mut tree = Tree::new();
        tree.insert("f".to_string(), Some(b"old".to_vec()));
        tree.insert("f.tmp".to_string(), Some(b"stale".to_vec()));
        replay(&mut tree, b"new", "f", limit);
        assert_eq!(tree.get("f"), Some(&Some(b"old".to_vec())), "{limit}");
    }
}

#[test]
fn failed_rename_leaves_the_temporary_file() {
    for (old, steps) in [(Some(b"old".to_vec()), 8), (None, 7)] {
        let mut tree = Tree::new();
        if old.is_some() {
            tree.insert("f".to_string(), old);
        }
        replay(&mut tree, b"new", "f", steps);
        assert_eq!(tree.get("f.tmp"), Some(&Some(b"new".to_vec())));
        assert_eq!(tree.get("f"), None);
    }
}

#[test]
fn upload_is_complete_within_its_bound() {
    let mut upload = SftpUpload::new("s", "/a/b/f");
    for _ in 0..2 * 2 + 10 {
        upload.advance(true);
    }
    assert!(matches!(upload.action(), SftpAction::Complete));
    assert_eq!(upload.failure(), None);
}

#[test]
fn upload_failures_name_what_was_done() {
    let mut upload = SftpUpload::new("s", "d/f");
    let mut failures = Vec::new();
    while let Some(failure) = upload.failure() {
        failures.push(failure);
        upload.advance(true);
    }
    assert_eq!(
        failures,
        vec![
            "failed checking remote directory d",
            "failed checking temporary file d/f.tmp",
            "failed removing stale temporary file d/f.tmp",
            "failed to open local file s",
            "failed creating remote temporary file d/f.tmp",
            "failed uploading s -> d/f.tmp",
            "failed flushing d/f.tmp",
            "failed closing d/f.tmp",
            "failed checking destination d/f",
            "failed removing destination d/f",
            "failed renaming d/f.tmp -> d/f",
        ]
    );
}

#[test]
fn ssh_upload_goes_through_every_step() {
    let mut upload = SshUpload::new("s", "d/f");
    assert!(matches!(upload.action(), SshUploadAction::OpenChannel));
    assert_eq!(upload.failure(), Some("failed to open SSH channel for upload".to_string()));
    upload.advance();
    assert!(matches!(upload.action(), SshUploadAction::Execute { command, want_reply: true }
        if command == upload_command("d/f")));
    assert_eq!(upload.failure(), Some("failed to start remote upload".to_string()));
    upload.advance();
    assert!(matches!(upload.action(), SshUploadAction::OpenSource(path) if path == "s"));
    assert_eq!(upload.failure(), Some("failed to open local file s".to_string()));
    upload.advance();
    assert!(matches!(upload.action(), SshUploadAction::Stream));
    assert_eq!(upload.failure(), Some("failed streaming s to remote host".to_string()));
    upload.advance();
    assert!(matches!(upload.action(), SshUploadAction::SendEof));
    assert_eq!(upload.failure(), Some("failed sending upload EOF".to_string()));
    upload.advance();
    assert!(matches!(upload.action(), SshUploadAction::Receive));
    assert_eq!(upload.failure(), None);
    upload.advance();
    upload.record(&ChannelMessage::ExitStatus(0));
    assert!(upload.settle().is_none());
    assert!(matches!(upload.action(), SshUploadAction::Receive));
    upload.record(&ChannelMessage::Close);
    assert!(matches!(upload.action(), SshUploadAction::Settle));
    assert!(matches!(upload.settle(), Some(Ok(()))));
    assert!(matches!(upload.action(), SshUploadAction::Run(command)
        if command == move_command("d/f")));
    assert_eq!(upload.failure(), Some("failed replacing destination d/f".to_string()));
    upload.advance();
    assert!(matches!(upload.action(), SshUploadAction::Complete));
}

#[test]
fn failed_ssh_upload_never_moves_the_file() {
    let mut upload = SshUpload::new("s", "f");
    for _ in 0..5 {
        upload.advance();
    }
    upload.record(&ChannelMessage::ExtendedData {
        data: b"disk full\n".to_vec(),
        ext: 1,
    });
    upload.record(&ChannelMessage::ExitStatus(1));
    upload.record(&ChannelMessage::End);
    match upload.settle() {
        Some(Err(fault)) => assert_eq!(
            upload.fault_message(&fault),
            "remote upload command exited with status 1: disk full"
        ),
        other => panic!("{other:?}"),
    }
    upload.advance();
    upload.record(&ChannelMessage::ExitStatus(0));
    assert!(matches!(upload.settle(), Some(Err(_))));
    assert!(matches!(upload.action(), SshUploadAction::Settle));
}

#[test]
fn files_are_compared_by_fingerprint() {
    let local = "aa".to_string();
    assert_eq!(compare(&local, &Some("aa".to_string())), Comparison::Unchanged);
    assert_eq!(compare(&local, &Some("ab".to_string())), Comparison::Changed);
    assert_eq!(compare(&local, &None), Comparison::Missing);
    assert_eq!(Comparison::Unchanged.line(), "  unchanged");
    assert_eq!(Comparison::Changed.line(), "  changed; uploading");
    assert_eq!(Comparison::Missing.line(), "  destination does not exist; uploading");
}

#[test]
fn changed_and_missing_files_are_uploaded() {
    for remote in [Some("other".to_string()), None] {
        let mut sync = FileSync::new("s", "d");
        assert_eq!(sync.heading(), "checking s -> d");
        assert!(matches!(sync.action(), SyncAction::FingerprintLocal(path) if path == "s"));
        sync.local_known("mine".to_string());
        assert!(matches!(sync.action(), SyncAction::FingerprintRemote(path) if path == "d"));
        assert_ne!(sync.remote_known(&remote), Comparison::Unchanged);
        assert!(matches!(sync.action(), SyncAction::Upload { src, dest } if src == "s" && dest == "d"));
        sync.uploaded();
        assert!(matches!(sync.action(), SyncAction::Complete));
    }
}

#[test]
fn uploaded_file_is_up_to_date_next_time() {
    let mut tree = Tree::new();
    replay(&mut tree, b"content", "/x/f", 100);
    let mut local = ContentHasher::new();
    local.update(b"content");
    let mut remote = ContentHasher::new();
    remote.update(tree.get("/x/f").unwrap().as_ref().unwrap());
    let mut sync = FileSync::new("local", "/x/f");
    sync.local_known(local.finish());
    assert_eq!(sync.remote_known(&Some(remote.finish())), Comparison::Unchanged);
    assert!(matches!(sync.action(), SyncAction::Complete));
}
