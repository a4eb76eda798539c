use aster::rewind::{
    join_path, normalize_path, FileBackup, FileFacts, FileHistoryManager, FileObservation, RewindAction, RewindManager,
    RewindOption, RewindResult,
};

fn facts(exists: bool, lines: u32, backup_exists: bool, backup_lines: u32) -> FileFacts {
    FileFacts { exists, lines, backup_exists, backup_lines }
}

#[test]
fn rewind_paths() {
    assert_eq!(join_path("/home/u/.config", "aster"), "/home/u/.config/aster");
    assert_eq!(join_path("/tmp/", "x"), "/tmp/x");
    assert_eq!(join_path("/tmp", "/abs"), "/abs");
    assert_eq!(normalize_path("a.txt", Some("/work")), "/work/a.txt");
    assert_eq!(normalize_path("/etc/x", Some("/work")), "/etc/x");
    assert_eq!(normalize_path("a.txt", None), "a.txt");
    let m = FileHistoryManager::new("s1", Some("/cfg"));
    assert_eq!(m.get_backup_dir(), "/cfg/aster/file-history/s1");
    let m = FileHistoryManager::new("s1", None);
    assert_eq!(m.get_backup_dir(), "~/.config/aster/file-history/s1");
}

#[test]
fn rewind_result_constructors() {
    let r = RewindResult::success(vec!["a".to_string()], 2, 3);
    assert!(r.success);
    assert_eq!(r.insertions, 2);
    let e = RewindResult::error("boom");
    assert!(!e.success);
    assert_eq!(e.error, Some("boom".to_string()));
    assert!(e.files_changed.is_empty());
}

#[test]
fn rewind_tracking_and_backups() {
    let mut m = FileHistoryManager::new("s", Some("/cfg"));
    m.track_file("a.txt", Some("/w"));
    m.track_file("/w/a.txt", None);
    assert_eq!(m.get_tracked_files_count(), 1);
    assert!(m.is_tracked("a.txt", Some("/w")));
    let b = m
        .backup_file_before_change("/w/notes.md", None, &FileObservation::Present { content: b"hello".to_vec(), mtime: 7 })
        .unwrap();
    assert_eq!(b.hash.clone().unwrap(), "2cf24dba5fb0a30e26e83b2ac5b9e29e1b161e5c1fa7425e73043362938b9824");
    assert_eq!(b.backup_file_name.clone().unwrap(), "notes_2cf24dba.md");
    assert_eq!(b.mtime, 7);
    assert_eq!(m.get_tracked_files_count(), 2);
    let missing = m.backup_file_before_change("/w/gone", None, &FileObservation::Missing).unwrap();
    assert!(missing.backup_file_name.is_none());
    assert_eq!(missing.version, 1);
    assert!(m.backup_file_before_change("/w/x", None, &FileObservation::Unreadable).is_none());
    m.set_enabled(false);
    m.track_file("/w/other", None);
    assert_eq!(m.get_tracked_files_count(), 2);
    assert!(m.backup_file_before_change("/w/x", None, &FileObservation::Missing).is_none());
}

#[test]
fn rewind_to_message_decisions() {
    let mut m = FileHistoryManager::new("s", Some("/cfg"));
    m.track_file("/w/a.txt", None);
    m.track_file("/w/new.txt", None);
    m.track_file("/w/same.txt", None);
    let backups = vec![
        (
            "/w/a.txt".to_string(),
            FileBackup { backup_file_name: Some("a_12345678.txt".to_string()), mtime: 1, version: 1, hash: Some("h".to_string()) },
        ),
        ("/w/new.txt".to_string(), FileBackup { backup_file_name: None, mtime: 0, version: 1, hash: None }),
        (
            "/w/same.txt".to_string(),
            FileBackup { backup_file_name: Some("same_1.txt".to_string()), mtime: 1, version: 1, hash: None },
        ),
    ];
    m.create_snapshot("m1", 100, backups);
    assert!(m.has_snapshot("m1"));
    assert!(!m.has_snapshot("m2"));
    let f = vec![facts(true, 10, true, 4), facts(true, 3, false, 0), facts(true, 5, true, 5)];
    let (r, actions) = m.rewind_to_message("m1", false, &f);
    assert!(r.success);
    assert_eq!(r.files_changed, vec!["/w/a.txt".to_string(), "/w/new.txt".to_string()]);
    assert_eq!(r.insertions, 0);
    assert_eq!(r.deletions, 9);
    assert_eq!(actions.len(), 2);
    match &actions[0] {
        RewindAction::Restore { path, backup } => {
            assert_eq!(path, "/w/a.txt");
            assert_eq!(backup, "/cfg/aster/file-history/s/a_12345678.txt");
        }
        _ => panic!("expected a restore"),
    }
    assert!(matches!(&actions[1], RewindAction::Delete(p) if p == "/w/new.txt"));
    let (dry, dry_actions) = m.rewind_to_message("m1", true, &f);
    assert_eq!(dry.files_changed, r.files_changed);
    assert!(dry_actions.is_empty());
    let (missing, _) = m.rewind_to_message("m9", false, &f);
    assert!(!missing.success);
    assert_eq!(missing.error, Some("未找到消息 m9 的快照".to_string()));
    m.set_enabled(false);
    let (off, _) = m.rewind_to_message("m1", false, &f);
    assert_eq!(off.error, Some("文件历史已禁用".to_string()));
}

#[test]
fn rewind_manager_flow() {
    let mut rm = RewindManager::new("s", Some("/cfg"));
    assert!(!rm.can_rewind());
    rm.record_file_change("/w/a.txt", None, &FileObservation::Missing);
    assert_eq!(rm.get_file_history_manager().get_tracked_files_count(), 1);
    let backups = vec![("/w/a.txt".to_string(), FileBackup { backup_file_name: None, mtime: 0, version: 1, hash: None })];
    rm.record_user_message("u1", 5, backups);
    assert!(rm.can_rewind());
    let f = vec![facts(true, 4, false, 0)];
    let preview = rm.preview_rewind("u1", RewindOption::Code, &f);
    assert_eq!(preview.files_will_change, vec!["/w/a.txt".to_string()]);
    assert_eq!(preview.deletions, 4);
    let (res, actions) = rm.rewind("u1", RewindOption::Both, &f);
    assert!(res.success);
    assert_eq!(res.code_result.as_ref().unwrap().deletions, preview.deletions);
    assert_eq!(res.conversation_result.unwrap().new_message_count, 1);
    assert_eq!(actions.len(), 1);
    let (nothing, acts) = rm.rewind("u1", RewindOption::Nevermind, &f);
    assert!(nothing.success && nothing.code_result.is_none() && acts.is_empty());
    let (bad, _) = rm.rewind("nope", RewindOption::Code, &f);
    assert!(!bad.success);
    assert!(bad.error.is_some());
    assert_eq!(rm.cleanup(), "/cfg/aster/file-history/s");
    rm.get_file_history_manager_mut().set_enabled(false);
    assert!(!rm.get_file_history_manager().is_enabled());
}

#[test]
fn rewind_inputs_must_cover_the_files_and_fit() {
    let mut m = FileHistoryManager::new("s", Some("/cfg"));
    m.track_file("/w/a.txt", None);
    m.track_file("/w/b.txt", None);
    let backups = vec![
        ("/w/a.txt".to_string(), FileBackup { backup_file_name: None, mtime: 0, version: 1, hash: None }),
        ("/w/b.txt".to_string(), FileBackup { backup_file_name: None, mtime: 0, version: 1, hash: None }),
    ];
    m.create_snapshot("m1", 1, backups);
    assert!(m.rewind_inputs_fit("m1", &vec![facts(true, 3, false, 0), facts(true, 4, false, 0)]));
    assert!(!m.rewind_inputs_fit("m1", &vec![facts(true, 3, false, 0)]));
    assert!(!m.rewind_inputs_fit("m1", &vec![facts(true, u32::MAX, false, 0), facts(true, 1, false, 0)]));
    assert!(m.rewind_inputs_fit("m9", &vec![facts(true, u32::MAX, false, 0), facts(true, 1, false, 0)]));

    let mut rm = RewindManager::new("s", Some("/cfg"));
    assert_eq!(rm.message_count(), 0);
    rm.record_user_message("m1", 1, vec![]);
    assert_eq!(rm.message_count(), 1);
}

#[test]
fn calculate_diff_counts_added_and_removed_lines() {
    let m = FileHistoryManager::new("s", Some("/cfg"));
    assert_eq!(m.calculate_diff(3, 7), (4, 0));
    assert_eq!(m.calculate_diff(7, 3), (0, 4));
    assert_eq!(m.calculate_diff(5, 5), (0, 0));
}
