use branch_deck::amend_conflict::{extract_amend_conflict_info, AmendConflictStep};
use branch_deck::commit_grouper::{grouping_with_issue, GroupKey};
use branch_deck::commit_list::Commit;
use branch_deck::detection::summary_with_match;
use branch_deck::model::ConflictDetail;
use branch_deck::record_stream::Handout;
use branch_deck::rewrite::CopyCommitError;

fn commit(id: &str) -> Commit {
  Commit {
    id: id.into(),
    subject: id.into(),
    stripped_subject: id.into(),
    message: format!("{id} message"),
    author_name: "Ann".into(),
    author_email: "ann@x".into(),
    author_timestamp: 1,
    committer_timestamp: 2,
    parent_id: None,
    tree_id: "t".into(),
    note: None,
    mapped_commit_id: None,
  }
}

#[test]
fn handing_out_commits_stops_at_the_first_failure() {
  let mut h = Handout::new();
  h.add(vec![commit("a"), commit("b")]);
  h.add(vec![commit("c")]);
  let mut seen = Vec::new();
  while let Some(c) = h.next_commit() {
    seen.push(c.id.clone());
    h.handled(c.id != "b");
  }
  assert_eq!(seen, vec!["a".to_string(), "b".to_string()]);
  h.add(vec![commit("d")]);
  assert!(h.next_commit().is_none());
}

#[test]
fn reading_the_conflicts_of_a_stopped_amend() {
  let mut r = extract_amend_conflict_info("orig");
  r.status_read(Ok("UU a.txt\n M b.txt\n".into()));
  assert!(matches!(r.next_step(), AmendConflictStep::ReadStages));
  r.stages_read(Ok("100644 o1 1\ta.txt\n100644 o2 2\ta.txt\n".into()));
  r.head_read(Ok("head1\n".into()));
  match r.next_step() {
    AmendConflictStep::AnalyzeConflict { files, merge_tree, parent_id, target_id, commit_id } => {
      assert_eq!(files.len(), 1);
      assert_eq!(files[0].base_oid.as_deref(), Some("o1"));
      assert_eq!((merge_tree.as_str(), parent_id.as_str(), target_id.as_str(), commit_id.as_str()), ("head1", "orig", "head1", "head1"));
    }
    _ => panic!("expected the analysis"),
  }
  r.conflict_analyzed(Ok((vec![ConflictDetail { file: "a.txt".into(), status: "modified".into() }], vec![])));
  r.commits_read(Ok((commit("orig"), commit("head1"))));
  let info = r.into_result().unwrap();
  assert_eq!(info.original_parent_hash, "orig");
  assert_eq!((info.commit_hash.as_str(), info.target_branch_hash.as_str()), ("head1", "head1"));
  assert_eq!(info.commit_message, info.target_branch_message);

  let mut r = extract_amend_conflict_info("orig");
  r.status_read(Ok(" M b.txt\n".into()));
  assert!(matches!(r.into_result(), Err(CopyCommitError::Other(m)) if m == "No conflicts found in rebase state"));
}

#[test]
fn grouping_and_summaries_from_the_issue_found() {
  assert!(matches!(grouping_with_issue("Fix it", Some("XYZ-9".into())), GroupKey::Issue { issue } if issue.iter().collect::<String>() == "XYZ-9"));
  assert!(matches!(grouping_with_issue("(feat) Fix it", Some("XYZ-9".into())), GroupKey::Prefix { prefix, .. } if prefix.iter().collect::<String>() == "feat"));
  assert!(matches!(grouping_with_issue("Fix it", None), GroupKey::Unassigned));
  assert_eq!(summary_with_match("ABC-1: Fix", Some(("ABC-1".into(), ": Fix ".into()))), "Fix");
  assert_eq!(summary_with_match(" Fix ", None), "Fix");
}
