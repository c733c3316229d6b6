use branch_deck::amend_conflict::{apply_stage_entries, conflicted_files_from_status, get_commit_info_for_conflict};
use branch_deck::cherry_pick::{
  get_commit_info, get_commit_parent, merge_conflict_info, merge_tree_args, parse_merge_tree_output, perform_fast_cherry_pick_with_context,
  CherryPick, CherryPickProgress, ConflictFileInfo, MergeTreeOutcome, NoOpProgress, PickStep, ProgressCallback,
};
use branch_deck::commit_list::Commit;
use branch_deck::copy_commit::{commit_message_for_copy, copy_commit_request, create_or_update_commit, created_copy, reuse_mapped_commit, reuse_tree, CopyStep};
use branch_deck::model::{BranchError, BranchSyncStatus, CommitSyncStatus, ConflictDetail};
use branch_deck::rewrite::CopyCommitError;
use branch_deck::sync::{check_branch_exists, grouped_branches_for_ui, parent_ref, unassigned_for_ui, BranchSync, SyncEvent};
use branch_deck::tree_cache::TreeIdCache;
use std::cell::RefCell;

fn commit(id: &str, subject: &str, time: u32) -> Commit {
  Commit {
    id: id.into(),
    stripped_subject: subject.into(),
    message: subject.into(),
    author_name: "Ann".into(),
    author_email: "ann@x".into(),
    author_timestamp: time,
    committer_timestamp: time,
    subject: subject.into(),
    parent_id: None,
    tree_id: format!("tree-{id}"),
    note: None,
    mapped_commit_id: None,
  }
}

fn strings(v: &[&str]) -> Vec<String> {
  v.iter().map(|s| s.to_string()).collect()
}

#[test]
fn branches_are_shown_newest_first_and_stable() {
  let groups = vec![
    ("old".to_string(), vec![commit("a", "x", 10), commit("b", "y", 20)]),
    ("new".to_string(), vec![commit("c", "z", 50)]),
    ("tie".to_string(), vec![commit("d", "w", 20)]),
    ("empty".to_string(), vec![]),
  ];
  let shown = grouped_branches_for_ui(&groups);
  let names: Vec<&str> = shown.iter().map(|b| b.name.as_str()).collect();
  assert_eq!(names, vec!["new", "old", "tie", "empty"]);
  assert_eq!(shown[1].latest_commit_time, 20);
  assert_eq!(shown[3].latest_commit_time, 0);
  // Commits of a branch are newest first.
  let ids: Vec<&str> = shown[1].commits.iter().map(|c| c.id.as_str()).collect();
  assert_eq!(ids, vec!["b", "a"]);
  let unassigned = unassigned_for_ui(&vec![commit("u1", "a", 1), commit("u2", "b", 2)]);
  assert_eq!(unassigned.iter().map(|c| c.id.as_str()).collect::<Vec<_>>(), vec!["u2", "u1"]);
  assert_eq!(parent_ref("abc"), "abc^");
  assert_eq!(check_branch_exists("u/virtual/x"), strings(&["show-ref", "--verify", "--quiet", "refs/heads/u/virtual/x"]));
}

#[test]
fn branch_sync_of_an_existing_branch() {
  let commits = vec![commit("a", "x", 1), commit("b", "y", 2), commit("c", "z", 3)];
  let mut s = BranchSync::new("feat", "u/virtual/feat", &commits, true, "base");
  assert!(s.reuse_if_possible());
  assert_eq!(s.current_parent(), "base");
  let e = s.commit_synced("a2", CommitSyncStatus::Unchanged, None);
  assert!(matches!(e, SyncEvent::CommitSynced { ref commit_hash, ref new_hash, status: CommitSyncStatus::Unchanged, .. } if commit_hash == "a" && new_hash == "a2"));
  assert!(s.reuse_if_possible());
  let (status, args) = s.finish();
  assert_eq!(status, BranchSyncStatus::Unchanged);
  assert!(args.is_none());
  let note = created_copy(&commits[1], " b2\n").2;
  s.commit_synced("b2", CommitSyncStatus::Created, Some(note));
  assert!(!s.reuse_if_possible());
  assert_eq!(s.current_parent(), "b2");
  let (status, args) = s.finish();
  assert_eq!(status, BranchSyncStatus::Updated);
  assert_eq!(args.unwrap(), strings(&["branch", "-f", "u/virtual/feat", "b2"]));

  let events = s.commit_failed(BranchError::Generic("boom".into()));
  assert_eq!(events.len(), 2);
  assert!(matches!(&events[0], SyncEvent::CommitError { commit_hash, error: BranchError::Generic(m), .. } if commit_hash == "c" && m == "boom"));
  assert!(matches!(&events[1], SyncEvent::BranchStatusUpdate { status: BranchSyncStatus::Error, error: Some(_), .. }));

  let notes = s.take_notes();
  assert_eq!(notes.len(), 1);
  assert_eq!(notes[0].new_oid, "b2");
  assert!(s.take_notes().is_empty());
  assert!(matches!(s.notes_failed("disk"), SyncEvent::BranchStatusUpdate { status: BranchSyncStatus::Error, error: Some(BranchError::Generic(m)), .. } if m == "Failed to write commit notes: disk"));
  assert!(matches!(s.completed(BranchSyncStatus::Updated), SyncEvent::BranchStatusUpdate { status: BranchSyncStatus::Updated, error: None, .. }));
}

#[test]
fn branch_sync_blocks_the_commits_after_a_failure() {
  let commits = vec![commit("a", "x", 1), commit("b", "y", 2), commit("c", "z", 3)];
  let s = BranchSync::new("feat", "u/virtual/feat", &commits, false, "base");
  assert!(!s.reuse_if_possible());
  assert_eq!(s.finish().0, BranchSyncStatus::Created);
  let events = s.commit_failed(BranchError::Generic("e".into()));
  assert_eq!(events.len(), 3);
  assert!(matches!(&events[1], SyncEvent::CommitsBlocked { blocked_commit_hashes, .. } if *blocked_commit_hashes == strings(&["b", "c"])));
  assert!(matches!(&events[2], SyncEvent::BranchStatusUpdate { status: BranchSyncStatus::Error, .. }));
}

#[test]
fn copying_commits() {
  let mut c = commit("a", "(feat) Add x", 7);
  c.stripped_subject = "Add x".into();
  c.message = "(feat) Add x\n\nBody".into();
  assert_eq!(commit_message_for_copy(&c), "Add x\n\nBody");
  let req = copy_commit_request(&c, "t1", "p1");
  assert_eq!(req.args, strings(&["commit-tree", "t1", "-p", "p1", "-m", "Add x\n\nBody"]));
  assert_eq!(req.env[2], ("GIT_AUTHOR_DATE".to_string(), "7".to_string()));
  assert_eq!(req.env[3], ("GIT_COMMITTER_NAME".to_string(), "branch-deck".to_string()));
  assert_eq!(req.env.len(), 5);

  assert_eq!(reuse_tree(&c, "pt", "pt"), Some("tree-a".to_string()));
  assert_eq!(reuse_tree(&c, "pt", "other"), None);

  assert!(reuse_mapped_commit(&c, true, true).is_none());
  c.mapped_commit_id = Some("m1".into());
  let (id, status, note) = reuse_mapped_commit(&c, true, true).unwrap();
  assert_eq!((id.as_str(), status), ("m1", CommitSyncStatus::Unchanged));
  assert_eq!(note.original_oid, "a");
  assert_eq!(note.subject, "Add x");
  assert!(reuse_mapped_commit(&c, false, true).is_none());
  assert!(reuse_mapped_commit(&c, true, false).is_none());

  let (id, status, note) = created_copy(&c, "new1\n");
  assert_eq!((id.as_str(), status), ("new1", CommitSyncStatus::Created));
  assert_eq!(note.tree_id, "tree-a");
  c.stripped_subject = String::new();
  assert_eq!(created_copy(&c, "n").2.subject, "(feat) Add x");
}

struct Recorder(RefCell<Vec<(String, BranchSyncStatus)>>);

impl ProgressCallback for Recorder {
  fn send_branch_status(&self, branch_name: String, status: BranchSyncStatus, _error: Option<BranchError>) -> Result<(), String> {
    self.0.borrow_mut().push((branch_name, status));
    Ok(())
  }
}

#[test]
fn cherry_pick_pieces() {
  let rec = Recorder(RefCell::new(vec![]));
  let p = CherryPickProgress::new(&rec, "feat", 2);
  assert_eq!(p.task_index, 2);
  p.send_status(BranchSyncStatus::AnalyzingConflict, None).unwrap();
  assert_eq!(rec.0.borrow()[0], ("feat".to_string(), BranchSyncStatus::AnalyzingConflict));
  assert!(CherryPickProgress::new(&NoOpProgress, "x", 0).send_status(BranchSyncStatus::Error, None).is_ok());

  assert_eq!(get_commit_parent(Ok(" p\n".into()), "c").unwrap(), "p");
  match get_commit_parent(Err("bad".into()), "c") {
    Err(CopyCommitError::Other(m)) => assert_eq!(m, "Failed to get parent for c: bad"),
    e => panic!("{e:?}"),
  }
  assert_eq!(
    merge_tree_args("p", "t", "c"),
    strings(&["-c", "merge.conflictStyle=zdiff3", "merge-tree", "--write-tree", "-z", "--merge-base", "p", "t", "c"])
  );
  assert!(perform_fast_cherry_pick_with_context("t1", "t1"));
  assert!(!perform_fast_cherry_pick_with_context("t1", "t2"));

  let c = get_commit_info("c1", " Subject \n", "123\n").unwrap();
  assert_eq!((c.subject.as_str(), c.message.as_str(), c.author_timestamp, c.committer_timestamp), ("Subject", "Subject", 123, 123));
  match get_commit_info("c1", "s", "x") {
    Err(CopyCommitError::Other(m)) => assert_eq!(m, "Invalid timestamp for commit c1"),
    e => panic!("{e:?}"),
  }

  let files = vec![ConflictDetail { file: "f".into(), status: "modified".into() }];
  let info = merge_conflict_info(&commit("x", "cx", 1), "x", &commit("p", "cp", 2), "p", &commit("t", "ct", 3), "t", files, vec![]);
  assert_eq!((info.commit_hash.as_str(), info.original_parent_hash.as_str(), info.target_branch_hash.as_str()), ("x", "p", "t"));
  assert_eq!(info.original_parent_committer_time, 2);
  assert_eq!(info.conflicting_files[0].file, "f");
}

#[test]
fn merge_tree_output() {
  match parse_merge_tree_output("tree1\0").unwrap() {
    MergeTreeOutcome::Clean(t) => assert_eq!(t, "tree1"),
    o => panic!("{o:?}"),
  }
  let out = "tree2\0100644 aaa 1\tf.txt\0100644 bbb 2\tf.txt\0100644 ccc 3\tf.txt\0100644 ddd 2\tg.txt\0\0info message\0";
  match parse_merge_tree_output(out).unwrap() {
    MergeTreeOutcome::Conflicts(t, files) => {
      assert_eq!(t, "tree2");
      assert_eq!(files.len(), 2);
      assert_eq!(files[0].path, "f.txt");
      assert_eq!(files[0].base_oid.as_deref(), Some("aaa"));
      assert_eq!(files[0].ours_oid.as_deref(), Some("bbb"));
      assert_eq!(files[0].theirs_oid.as_deref(), Some("ccc"));
      assert_eq!(files[1].path, "g.txt");
      assert_eq!(files[1].base_oid, None);
      assert_eq!(files[1].ours_oid.as_deref(), Some("ddd"));
    }
    o => panic!("{o:?}"),
  }
  assert!(matches!(parse_merge_tree_output(""), Err(CopyCommitError::Other(m)) if m == "git merge-tree did not produce output"));
  assert!(matches!(parse_merge_tree_output("\0x"), Err(CopyCommitError::Other(m)) if m == "No output from git merge-tree"));
}

#[test]
fn amend_conflicts_from_status_and_stages() {
  let status = " M clean.txt\nUU both.txt\nAA added.txt\nDD gone.txt\nUU both.txt\nA  new.txt\n?? x\n";
  let mut files = conflicted_files_from_status(status).unwrap();
  let paths: Vec<&str> = files.iter().map(|f| f.path.as_str()).collect();
  assert_eq!(paths, vec!["both.txt", "added.txt", "gone.txt"]);
  assert!(files.iter().all(|f| f.base_oid.is_none() && f.ours_oid.is_none() && f.theirs_oid.is_none()));
  match conflicted_files_from_status(" M a\n") {
    Err(CopyCommitError::Other(m)) => assert_eq!(m, "No conflicts found in rebase state"),
    e => panic!("{e:?}"),
  }
  let ls = "100644 b1 1\tboth.txt\n100644 b2 2\tboth.txt\n100644 b3 3\tboth.txt\n100644 o9 0\tclean.txt\n100644 a2 2\tadded.txt\n100644 zz 2 extra\tgone.txt\nbad line\n";
  apply_stage_entries(&mut files, ls);
  assert_eq!(files[0].base_oid.as_deref(), Some("b1"));
  assert_eq!(files[0].ours_oid.as_deref(), Some("b2"));
  assert_eq!(files[0].theirs_oid.as_deref(), Some("b3"));
  assert_eq!(files[1].ours_oid.as_deref(), Some("a2"));
  assert_eq!(files[1].base_oid, None);
  assert_eq!(files[2].ours_oid.as_deref(), Some("zz"));
  assert_eq!(files.len(), 3);
  let unused: Vec<ConflictFileInfo> = vec![];
  assert!(unused.is_empty());
}

#[test]
fn conflict_commit_info() {
  let c = get_commit_info_for_conflict(" Fix bug \0 100\0200\n", "c1").unwrap();
  assert_eq!((c.subject.as_str(), c.message.as_str()), ("Fix bug", "Fix bug"));
  assert_eq!((c.author_timestamp, c.committer_timestamp), (100, 200));
  assert_eq!(c.tree_id, "");
  match get_commit_info_for_conflict("s\0x\0200", "c1") {
    Err(CopyCommitError::Other(m)) => assert_eq!(m, "Invalid author timestamp for commit c1: invalid digit found in string"),
    e => panic!("{e:?}"),
  }
  match get_commit_info_for_conflict("s\0100", "c1") {
    Err(CopyCommitError::Other(m)) => assert_eq!(m, "Invalid committer timestamp for commit c1: cannot parse integer from empty string"),
    e => panic!("{e:?}"),
  }
}

#[test]
fn tree_cache_keeps_only_stable_ids() {
  let mut cache = TreeIdCache::new();
  assert_eq!(cache.stats().0, 0);
  assert!(TreeIdCache::is_cacheable_key("abc123DEF"));
  assert!(!TreeIdCache::is_cacheable_key("HEAD"));
  assert!(!TreeIdCache::is_cacheable_key(""));
  cache.remember_tree_id("abc123", "t1");
  cache.remember_tree_id("HEAD", "t2");
  assert_eq!(cache.get_tree_id("abc123"), Some("t1".to_string()));
  assert_eq!(cache.get_tree_id("HEAD"), None);
  assert_eq!(cache.get_tree_id("def"), None);
  cache.remember_tree_id("abc123", "t3");
  assert_eq!(cache.get_tree_id("abc123"), Some("t3".to_string()));
  let (len, capacity) = cache.stats();
  assert_eq!(len, 1);
  assert!(capacity >= len);
}

#[test]
fn copying_a_commit_step_by_step() {
  let mut c = commit("a", "(feat) Add x", 7);
  c.stripped_subject = "Add x".into();
  c.parent_id = Some("p0".into());
  c.mapped_commit_id = Some("m1".into());

  // A recorded copy that exists is reused, and nothing is made.
  let mut copy = create_or_update_commit(&c, "np", true);
  assert!(matches!(copy.next_step(), CopyStep::CheckMapped { mapped_id } if mapped_id == "m1"));
  copy.mapped_checked(true);
  let (id, status, note) = copy.into_result().unwrap();
  assert_eq!((id.as_str(), status), ("m1", CommitSyncStatus::Unchanged));
  assert_eq!((note.unwrap().new_oid.as_str()), "m1");

  // A recorded copy that is gone: the trees decide, equal ones keep the tree.
  let mut copy = create_or_update_commit(&c, "np", true);
  copy.mapped_checked(false);
  assert!(matches!(copy.next_step(), CopyStep::ReadTrees { original_parent: Some(p), new_parent } if p == "p0" && new_parent == "np"));
  copy.trees_read(Ok(("t".into(), "t".into())));
  match copy.next_step() {
    CopyStep::CommitTree { request } => assert_eq!(request.args, strings(&["commit-tree", "tree-a", "-p", "np", "-m", "Add x"])),
    _ => panic!("expected a commit-tree request"),
  }
  copy.commit_tree_done(Ok("c2\n".into()));
  let (id, status, note) = copy.into_result().unwrap();
  assert_eq!((id.as_str(), status), ("c2", CommitSyncStatus::Created));
  let note = note.unwrap();
  assert_eq!((note.original_oid.as_str(), note.new_oid.as_str(), note.subject.as_str()), ("a", "c2", "Add x"));

  // Without reuse, different trees replay the commit; its tree is used.
  let mut copy = create_or_update_commit(&c, "np", false);
  copy.trees_read(Ok(("t1".into(), "t2".into())));
  assert!(matches!(copy.next_step(), CopyStep::CherryPick { commit_id, target_id } if commit_id == "a" && target_id == "np"));
  copy.cherry_picked(Ok("merged".into()));
  assert!(matches!(copy.next_step(), CopyStep::CommitTree { request } if request.args[1] == "merged"));
  copy.commit_tree_done(Err("boom".into()));
  assert!(matches!(copy.into_result(), Err(CopyCommitError::Other(m)) if m == "Failed to create commit: boom"));
}

#[test]
fn replaying_a_commit_step_by_step() {
  // Fast path.
  let mut pick = CherryPick::new("c", "t");
  pick.parent_read(Ok("p\n".into()));
  assert!(matches!(pick.next_step(), PickStep::ReadTrees { parent_id, target_id } if parent_id == "p" && target_id == "t"));
  pick.trees_read(Ok(("x".into(), "x".into())));
  assert!(matches!(pick.next_step(), PickStep::ReadCommitTree { commit_id } if commit_id == "c"));
  pick.commit_tree_read(Ok("ct".into()));
  assert_eq!(pick.into_result().unwrap(), "ct");

  // Conflicts end in a merge-conflict error naming the three commits.
  let mut pick = CherryPick::new("c", "t");
  pick.parent_read(Ok("p".into()));
  pick.trees_read(Ok(("x".into(), "y".into())));
  assert!(matches!(pick.next_step(), PickStep::Merge { args } if args[6..] == strings(&["p", "t", "c"])));
  pick.merged(Ok("tree1\0100644 b1 1\ta.txt\0100644 o1 2\ta.txt\0100644 t1 3\ta.txt\0\0".into()));
  assert!(matches!(pick.next_step(), PickStep::ReportConflict { merge_tree, files } if merge_tree == "tree1" && files.len() == 1));
  pick.conflict_reported();
  assert!(matches!(pick.next_step(), PickStep::AnalyzeConflict { files, .. } if files[0].path == "a.txt"));
  pick.conflict_analyzed(Ok((vec![ConflictDetail { file: "a.txt".into(), status: "modified".into() }], vec![])));
  pick.conflict_commits_read(Ok((commit("c", "C", 3), commit("p", "P", 2), commit("t", "T", 1))));
  match pick.into_result() {
    Err(CopyCommitError::BranchError(BranchError::MergeConflict(info))) => {
      assert_eq!((info.commit_hash.as_str(), info.original_parent_hash.as_str(), info.target_branch_hash.as_str()), ("c", "p", "t"));
      assert_eq!(info.conflicting_files.len(), 1);
    }
    _ => panic!("expected a merge conflict"),
  }

  // No parent.
  let mut pick = CherryPick::new("c", "t");
  pick.parent_read(Err("bad".into()));
  assert!(matches!(pick.into_result(), Err(CopyCommitError::Other(m)) if m == "Failed to get parent for c: bad"));
}
