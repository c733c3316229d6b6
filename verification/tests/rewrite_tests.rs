use branch_deck::commit_list::Commit;
use branch_deck::issue_reference::RewordCommitParams;
use branch_deck::model::BranchError;
use branch_deck::rewrite::{
  amend_action, amend_index_input, amend_result, amend_route, check_amend_conflicts, choose_tree, drop_action, drop_commits_from_head,
  is_linear_range, is_rebase_conflict, merge_tree_result, needs_index_refresh, parse_commits_with_parents, rebase_args, AmendRoute, AmendToCommitParams,
  CopyCommitError, RewriteAction, RewriteStep, Rewriter, RootAmend, RootAmendStep, amend_plan, amend_to_commit_in_main, drop_plan, AmendStep,
};
use branch_deck::reword::{
  create_commit_with_metadata, get_commit_info, get_commits_to_process, get_current_branch, oldest_reworded_commit, prefetch_commit_infos_map,
  reword_range, update_branch_ref, CommitInfoError, RewordStep, Reworder,
};

fn strings(v: &[&str]) -> Vec<String> {
  v.iter().map(|s| s.to_string()).collect()
}

fn other(r: Result<impl std::fmt::Debug, CopyCommitError>) -> String {
  match r {
    Err(CopyCommitError::Other(m)) => m,
    e => panic!("unexpected {e:?}"),
  }
}

/// Runs a rewrite to its end, making each new commit `n<index>`; gives the
/// steps taken and the final tip.
fn run(commits: &[(&str, &str)], actions: Vec<RewriteAction>) -> (Vec<RewriteStep>, String) {
  let commits = commits.iter().map(|(c, p)| (c.to_string(), p.to_string())).collect();
  let mut r = Rewriter::new(commits, actions, "start");
  let mut steps = vec![];
  loop {
    let s = r.next_step();
    match &s {
      RewriteStep::Finished { tip } => {
        let tip = tip.clone();
        steps.push(s);
        return (steps, tip);
      }
      RewriteStep::ReuseTree { index, .. } | RewriteStep::Replay { index, .. } | RewriteStep::UseTree { index, .. } => {
        let made = format!("n{index}");
        steps.push(s);
        r.commit_created(&made);
      }
    }
  }
}

#[test]
fn rewriter_recreates_the_kept_commits_in_order() {
  let (steps, tip) = run(
    &[("a", "start"), ("b", "a"), ("c", "b"), ("d", "c")],
    vec![RewriteAction::Keep, RewriteAction::Skip, RewriteAction::Keep, RewriteAction::Modify("t".into())],
  );
  assert_eq!(steps.len(), 4);
  assert!(matches!(&steps[0], RewriteStep::ReuseTree { index: 0, commit, parent } if commit == "a" && parent == "start"));
  assert!(matches!(&steps[1], RewriteStep::Replay { index: 2, commit, base, ours, theirs } if commit == "c" && base == "b" && ours == "n0" && theirs == "c"));
  assert!(matches!(&steps[2], RewriteStep::UseTree { index: 3, commit, tree, parent } if commit == "d" && tree == "t" && parent == "n2"));
  assert_eq!(tip, "n3");

  let (steps, tip) = run(&[("a", "start")], vec![RewriteAction::Skip]);
  assert_eq!(steps.len(), 1);
  assert_eq!(tip, "start");
}

#[test]
fn rewrite_helpers() {
  assert_eq!(parse_commits_with_parents(&strings(&["a p", "b", "  ", "c p1 p2"])), vec![
    ("a".to_string(), "p".to_string()),
    ("b".to_string(), String::new()),
    ("c".to_string(), "p1".to_string())
  ]);
  assert_eq!(choose_tree("b", "b", "t"), Some("t".to_string()));
  assert_eq!(choose_tree("b", "o", "o"), Some("o".to_string()));
  assert_eq!(choose_tree("b", "o", "b"), Some("o".to_string()));
  assert_eq!(choose_tree("b", "o", "t"), None);
  assert_eq!(merge_tree_result(" tree\n", 0, "c", "s").unwrap(), "tree");
  match merge_tree_result("x", 1, "0123456789abcdef", " subj ") {
    Err(CopyCommitError::BranchError(BranchError::Generic(m))) => {
      assert_eq!(m, "Rewriting would create conflicts when replaying commit 01234567: subj")
    }
    e => panic!("{e:?}"),
  }
  assert_eq!(other(merge_tree_result(" boom ", 128, "c", "s")), "git merge-tree failed while rewriting: boom");
  assert!(needs_index_refresh("t1", "t2", Some("main\n".into()), "main"));
  assert!(!needs_index_refresh("t1", "t1", Some("main".into()), "main"));
  assert!(!needs_index_refresh("t1", "t2", Some("dev".into()), "main"));
  assert!(!needs_index_refresh("t1", "t2", None, "main"));
}

#[test]
fn dropping_commits() {
  let drop = strings(&["b", "d"]);
  assert!(matches!(drop_action("b", &drop), RewriteAction::Skip));
  assert!(matches!(drop_action("a", &drop), RewriteAction::Keep));
  // History is newest first: the oldest listed commit is the last one found.
  let history = strings(&["e", "d", "c", "b", "a"]);
  assert_eq!(drop_commits_from_head(&history, &drop).unwrap(), "b");
  assert_eq!(other(drop_commits_from_head(&history, &vec![])), "No commits specified to drop");
  assert_eq!(other(drop_commits_from_head(&history, &strings(&["z"]))), "None of the specified commits found in HEAD");
}

#[test]
fn amending() {
  let params = AmendToCommitParams { original_commit_id: "abc".into(), files: strings(&["f"]) };
  assert_eq!(other(amend_route(" \n", "abc", &params)), "No uncommitted changes to amend");
  assert_eq!(amend_route(" M f\n", "abc\n", &params).unwrap(), AmendRoute::AmendHead);
  assert_eq!(amend_route(" M f\n", "def", &params).unwrap(), AmendRoute::AmendInHistory);
  assert!(is_linear_range(" \n"));
  assert!(!is_linear_range("m1"));
  assert!(matches!(amend_action("abc", "abc", "t9"), RewriteAction::Modify(t) if t == "t9"));
  assert!(matches!(amend_action("x", "abc", "t9"), RewriteAction::Keep));
  assert_eq!(rebase_args(Some(" p \n".into())), strings(&["rebase", "--autosquash", "p"]));
  assert_eq!(rebase_args(Some("  ".into())), strings(&["rebase", "--autosquash", "--root"]));
  assert_eq!(rebase_args(None), strings(&["rebase", "--autosquash", "--root"]));
  assert!(is_rebase_conflict("CONFLICT (content): Merge conflict in f"));
  assert!(is_rebase_conflict("could not apply: conflict"));
  assert!(!is_rebase_conflict("fatal: other"));
  let r = amend_result(Some("c1".into()), " h\n").unwrap();
  assert_eq!((r.amended_commit_id.as_str(), r.rebased_to_commit.as_str()), ("c1", "h"));
  assert_eq!(other(amend_result(None, "h")), "No commits found after rewriting");
  assert_eq!(amend_index_input(&strings(&["a", "b c"])).unwrap(), "a\0b c\0");
  assert_eq!(other(amend_index_input(&vec![])), "No files specified to amend");
}

#[test]
fn amend_conflict_checks() {
  let commits = "0123456789abcdef0123\nfedcba9876543210fedc\n\n";
  assert!(check_amend_conflicts(commits, &vec![0, 0], "s").is_ok());
  assert_eq!(
    check_amend_conflicts(commits, &vec![1], " Fix it "),
    Err("Amending would create conflicts with commit 01234567 (Fix it). 1 other commit(s) would also be affected by the rebase.".to_string())
  );
  assert!(check_amend_conflicts("", &vec![], "s").is_ok());
}

fn commit(id: &str, parent: Option<&str>) -> Commit {
  Commit {
    id: id.into(),
    stripped_subject: "s".into(),
    message: "s".into(),
    author_name: "Ann".into(),
    author_email: "ann@x".into(),
    author_timestamp: 11,
    committer_timestamp: 22,
    subject: "s".into(),
    parent_id: parent.map(|p| p.to_string()),
    tree_id: "t".into(),
    note: None,
    mapped_commit_id: None,
  }
}

#[test]
fn rewording_helpers() {
  assert_eq!(get_current_branch(" main\n").unwrap(), "main");
  assert_eq!(get_current_branch("  ").unwrap_err(), "Not on any branch (detached HEAD state)");
  let rewrites = vec![
    RewordCommitParams { commit_id: "b".into(), new_message: "B2".into() },
    RewordCommitParams { commit_id: "d".into(), new_message: "D2".into() },
  ];
  assert_eq!(oldest_reworded_commit(&strings(&["d", "c", "b", "a"]), &rewrites).unwrap(), "b");
  assert_eq!(oldest_reworded_commit(&strings(&["x"]), &rewrites).unwrap_err(), "No commits to reword found in history");
  assert_eq!(reword_range("b", true), "b^..HEAD");
  assert_eq!(reword_range("b", false), "HEAD");
  assert_eq!(
    get_commits_to_process(&strings(&["a", "b a", "c b x"])).unwrap(),
    vec![("a".to_string(), None), ("b".to_string(), Some("a".to_string())), ("c".to_string(), Some("b".to_string()))]
  );
  assert_eq!(get_commits_to_process(&vec![]).unwrap_err(), "No commits found in range");
  assert_eq!(update_branch_ref("main", "n1"), strings(&["update-ref", "refs/heads/main", "n1"]));

  let req = create_commit_with_metadata("t1", None, &commit("c", Some("p")), "msg");
  assert_eq!(req.args, strings(&["commit-tree", "t1", "-p", "p", "-m", "msg"]));
  assert_eq!(req.env[2], ("GIT_AUTHOR_DATE".to_string(), "11".to_string()));
  assert_eq!(req.env[3], ("GIT_COMMITTER_NAME".to_string(), "Ann".to_string()));
  assert_eq!(req.env[5], ("GIT_COMMITTER_DATE".to_string(), "22".to_string()));
  let req = create_commit_with_metadata("t1", Some("q"), &commit("c", Some("p")), "msg");
  assert_eq!(req.args, strings(&["commit-tree", "t1", "-p", "q", "-m", "msg"]));
  let req = create_commit_with_metadata("t1", None, &commit("c", None), "msg");
  assert_eq!(req.args, strings(&["commit-tree", "t1", "-m", "msg"]));
}

#[test]
fn commit_info_for_rewording() {
  let out = "Ann\nann@x\n100\n200\ntree1\npar1\nSubject line\n\nBody\n";
  let c = get_commit_info(out, "c1").unwrap();
  assert_eq!(c.id, "c1");
  assert_eq!(c.author_timestamp, 100);
  assert_eq!(c.committer_timestamp, 200);
  assert_eq!(c.tree_id, "tree1");
  assert_eq!(c.parent_id.as_deref(), Some("par1"));
  assert_eq!(c.message, "Subject line\n\nBody");
  assert_eq!(c.subject, "Subject line");
  assert_eq!(get_commit_info("Ann\nann@x\n100\n200\ntree1\n\nroot", "r").unwrap().parent_id, None);
  assert!(matches!(get_commit_info("a\nb", "c"), Err(CommitInfoError::InvalidFormat)));
  assert!(matches!(get_commit_info("a\nb\nx\n2\nt\np\nm", "c"), Err(CommitInfoError::InvalidAuthorTime)));
  assert!(matches!(get_commit_info("a\nb\n1\nx\nt\np\nm", "c"), Err(CommitInfoError::InvalidCommitterTime)));
  assert_eq!(CommitInfoError::InvalidFormat.message(), "Invalid commit info format");
  assert_eq!(CommitInfoError::InvalidAuthorTime.message(), "Invalid author time");
  assert_eq!(CommitInfoError::InvalidCommitterTime.message(), "Invalid committer time");

  let rec = "c1\u{1f}m\u{1f}A\u{1f}a@x\u{1f}1\u{1f}2\u{1f}\u{1f}t";
  assert_eq!(prefetch_commit_infos_map(&format!("{rec}\u{1e}\n{rec}\u{1e}")).len(), 2);
}

#[test]
fn reworder_recreates_descendants_and_reports_reworded_only() {
  let commits = vec![("a".to_string(), None), ("b".to_string(), Some("a".to_string())), ("c".to_string(), Some("b".to_string()))];
  let rewrites = vec![RewordCommitParams { commit_id: "b".into(), new_message: "B2".into() }];
  let mut w = Reworder::new(commits, rewrites);
  match w.next_step() {
    RewordStep::Recreate { commit, parent, message } => {
      assert_eq!(commit, "b");
      assert_eq!(parent.as_deref(), Some("a"));
      assert_eq!(message.as_deref(), Some("B2"));
    }
    s => panic!("{s:?}"),
  }
  w.commit_created("b'");
  match w.next_step() {
    RewordStep::Recreate { commit, parent, message } => {
      assert_eq!(commit, "c");
      assert_eq!(parent.as_deref(), Some("b'"));
      assert_eq!(message, None);
    }
    s => panic!("{s:?}"),
  }
  w.commit_created("c'");
  match w.next_step() {
    RewordStep::Finished { new_tip, reworded } => {
      assert_eq!(new_tip, "c'");
      assert_eq!(reworded, vec![("b".to_string(), "b'".to_string())]);
    }
    s => panic!("{s:?}"),
  }
}

#[test]
fn amending_a_root_commit_recreates_its_descendants_in_order() {
  let mut amend = RootAmend::new("r", "r2", vec!["a".to_string(), "b".to_string()]);
  let mut made = Vec::new();
  let result = loop {
    match amend.next_step() {
      RootAmendStep::Recreate { commit, base, parent } => {
        made.push((commit.clone(), base, parent));
        amend.commit_created(&format!("{commit}2"));
      }
      RootAmendStep::Finished { result } => break result,
    }
  };
  assert_eq!(made, vec![("a".to_string(), "r".to_string(), "r2".to_string()), ("b".to_string(), "a".to_string(), "a2".to_string())]);
  assert_eq!(result.amended_commit_id, "r2");
  assert_eq!(result.rebased_to_commit, "b2");
  match RootAmend::new("r", "r2", vec![]).next_step() {
    RootAmendStep::Finished { result } => assert_eq!((result.amended_commit_id.as_str(), result.rebased_to_commit.as_str()), ("r2", "r2")),
    RootAmendStep::Recreate { .. } => panic!("nothing to recreate"),
  }
}

#[test]
fn drop_and_amend_plans() {
  let commits = vec![("a".to_string(), "s".to_string()), ("b".to_string(), "a".to_string()), ("c".to_string(), "b".to_string())];
  let mut r = drop_plan(commits.clone(), &strings(&["b"]), "s");
  let mut made = Vec::new();
  let tip = loop {
    match r.next_step() {
      RewriteStep::Finished { tip } => break tip,
      RewriteStep::ReuseTree { commit, .. } | RewriteStep::Replay { commit, .. } | RewriteStep::UseTree { commit, .. } => {
        made.push(commit.clone());
        r.commit_created(&format!("{commit}2"));
      }
    }
  };
  assert_eq!(made, strings(&["a", "c"]));
  assert_eq!(tip, "c2");

  let mut r = amend_plan(commits, "b", "T", "s");
  let mut steps = Vec::new();
  loop {
    match r.next_step() {
      RewriteStep::Finished { .. } => break,
      step => {
        let id = match &step {
          RewriteStep::ReuseTree { commit, .. } | RewriteStep::Replay { commit, .. } | RewriteStep::UseTree { commit, .. } => commit.clone(),
          RewriteStep::Finished { .. } => unreachable!(),
        };
        steps.push(step);
        r.commit_created(&format!("{id}2"));
      }
    }
  }
  assert_eq!(steps.len(), 3);
  assert!(matches!(&steps[1], RewriteStep::UseTree { commit, tree, .. } if commit == "b" && tree == "T"));
}

#[test]
fn amending_step_by_step() {
  let params = || AmendToCommitParams { original_commit_id: "o1".into(), files: strings(&["f.txt"]) };
  // Nothing to amend.
  let mut a = amend_to_commit_in_main(params());
  a.status_read(Ok("  \n".into()));
  assert!(matches!(a.into_result(), Err(CopyCommitError::Other(m)) if m == "No uncommitted changes to amend"));
  // HEAD itself.
  let mut a = amend_to_commit_in_main(params());
  a.status_read(Ok(" M f.txt".into()));
  a.head_read(Ok("o1\n".into()));
  assert!(matches!(a.next_step(), AmendStep::AmendHead));
  a.head_amended(Ok(()));
  a.final_head_read(Ok("n1\n".into()));
  let r = a.into_result().unwrap();
  assert_eq!((r.amended_commit_id.as_str(), r.rebased_to_commit.as_str()), ("n1", "n1"));
  // A linear history: rewrite from the parent.
  let mut a = amend_to_commit_in_main(params());
  a.status_read(Ok(" M f.txt".into()));
  a.head_read(Ok("h".into()));
  assert!(matches!(a.next_step(), AmendStep::CheckLinear { args } if *args == strings(&["rev-list", "--first-parent", "--merges", "o1..HEAD", "-n", "1"])));
  a.linear_checked(Ok(String::new()));
  a.branch_read(Ok("main\n".into()));
  assert!(matches!(a.next_step(), AmendStep::ComputeAmendedTree { commit_id, files } if commit_id == "o1" && *files == strings(&["f.txt"])));
  a.amended_tree_computed(Ok("T".into()));
  a.parent_read(Ok("p\n".into()));
  assert!(matches!(a.next_step(), AmendStep::Rewrite { parent, branch, commit_id, amended_tree }
    if parent == "p" && branch == "main" && commit_id == "o1" && amended_tree == "T"));
  a.rewritten(Ok("tip".into()));
  a.rewritten_listed(Ok(strings(&["o2", "tip"])));
  let r = a.into_result().unwrap();
  assert_eq!((r.amended_commit_id.as_str(), r.rebased_to_commit.as_str()), ("o2", "tip"));
  // A history with merges: fixup and autosquash, which conflicts.
  let mut a = amend_to_commit_in_main(params());
  a.status_read(Ok(" M f.txt".into()));
  a.head_read(Ok("h".into()));
  a.linear_checked(Ok("m1".into()));
  assert!(matches!(a.next_step(), AmendStep::Fixup { args } if *args == strings(&["commit", "-a", "--fixup=o1", "--no-verify"])));
  a.fixup_done(Ok(()));
  a.rebase_base_read(Err("no parent".into()));
  assert!(matches!(a.next_step(), AmendStep::Rebase { args } if *args == strings(&["rebase", "--autosquash", "--root"])));
  a.rebased(Err("CONFLICT (content)".into()));
  a.conflict_extracted(Err("bad".into()));
  a.rebase_aborted();
  assert!(matches!(a.into_result(), Err(CopyCommitError::Other(m))
    if m == "Rebase conflicts detected when amending commit o1. Conflict analysis failed: bad"));
}
