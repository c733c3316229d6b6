use branch_deck::archive::{
  archive_branch, archive_ref_unique, archive_temp_branch, archived_range, batch_archive_inactive_branches, batch_delete_archived_branches, batch_delete_args,
  batch_update_commands, get_archived_branch_commits, plan_batch_archive,
};
use branch_deck::branch_data::{
  branches_to_delete, get_all_branch_data, get_commit_timestamp, inactive_virtual_branches, list_inactive_virtual_branches, name_cached_result, note_records,
  notes_args,
};
use branch_deck::integration::{BranchIntegrationInfo, BranchIntegrationStatus, IntegrationConfidence, NOTES_REF};
use std::collections::HashSet;

fn strings(v: &[&str]) -> Vec<String> {
  v.iter().map(|s| s.to_string()).collect()
}

fn pairs(v: &[(&str, &str)]) -> Vec<(String, String)> {
  v.iter().map(|(a, b)| (a.to_string(), b.to_string())).collect()
}

#[test]
fn unique_archive_names() {
  assert_eq!(archive_ref_unique("u/archived/2025-01-02", "feat", &vec![]), "u/archived/2025-01-02/feat");
  let taken = strings(&["u/archived/2025-01-02/feat", "u/archived/2025-01-02/feat-1"]);
  assert_eq!(archive_ref_unique("u/archived/2025-01-02", "feat", &taken), "u/archived/2025-01-02/feat-2");
  // After a thousand collisions the last candidate is used.
  let mut many = vec!["p/n".to_string()];
  for i in 1..=1000 {
    many.push(format!("p/n-{i}"));
  }
  assert_eq!(archive_ref_unique("p", "n", &many), "p/n-1000");
  assert_eq!(archive_branch("u/virtual/feat", "u", "2025-01-02", &taken), "u/archived/2025-01-02/feat-2");
  assert_eq!(archive_branch("other", "u", "2025-01-02", &vec![]), "u/archived/2025-01-02/other");
  assert_eq!(archive_temp_branch("u/archived/2025-01-02/feat"), Some("u/archived/2025-01-02/.archive-temp".to_string()));
  assert_eq!(archive_temp_branch("u/feat"), None);
}

#[test]
fn batch_archive_names_are_fresh_and_distinct() {
  let inactive = strings(&["u/virtual/a", "u/virtual/a", "u/virtual/b", "x"]);
  let today = strings(&["b"]);
  let plan = plan_batch_archive("u", "2025-03-04", &inactive, &today);
  let names: Vec<&str> = plan.mappings.iter().map(|(_, n)| n.as_str()).collect();
  assert_eq!(names, vec!["u/archived/2025-03-04/a", "u/archived/2025-03-04/a-1", "u/archived/2025-03-04/b-1", "u/archived/2025-03-04/x"]);
  let set: HashSet<&str> = names.iter().copied().collect();
  assert_eq!(set.len(), names.len());
  assert_eq!(plan.mappings[3].0, "x");

  let commits = pairs(&[("u/virtual/a", "c1"), ("u/virtual/b", "c2")]);
  let (script, archived) = batch_update_commands(&plan, &commits);
  assert_eq!(
    script,
    "start\ncreate refs/heads/u/archived/2025-03-04/a c1\ndelete refs/heads/u/virtual/a c1\n\
create refs/heads/u/archived/2025-03-04/a-1 c1\ndelete refs/heads/u/virtual/a c1\n\
create refs/heads/u/archived/2025-03-04/b-1 c2\ndelete refs/heads/u/virtual/b c2\ncommit\n"
  );
  assert_eq!(archived, pairs(&[("u/archived/2025-03-04/a", "c1"), ("u/archived/2025-03-04/a-1", "c1"), ("u/archived/2025-03-04/b-1", "c2")]));

  let batch = batch_archive_inactive_branches("u", "2025-03-04", &inactive, &commits, &today).unwrap();
  assert_eq!(batch.temp_branch, "u/archived/2025-03-04/archive-temp");
  assert_eq!(batch.commands, script);
  assert!(batch_archive_inactive_branches("u", "2025-03-04", &vec![], &commits, &today).is_none());
}

#[test]
fn batch_deletion() {
  assert_eq!(batch_delete_args(&strings(&["a", "b"])), strings(&["branch", "-D", "a", "b"]));
  assert_eq!(batch_delete_archived_branches(&vec![], false, &vec![]), 0);
  assert_eq!(batch_delete_archived_branches(&strings(&["a", "b", "c"]), true, &vec![]), 3);
  assert_eq!(batch_delete_archived_branches(&strings(&["a", "b", "c"]), false, &vec![true, false, true]), 2);
}

#[test]
fn archived_branch_commits() {
  let rec = "c1\u{1f}(x) msg\u{1f}A\u{1f}a@x\u{1f}10\u{1f}20\u{1f}p0\u{1f}t1";
  let bad = "c2\u{1f}m\u{1f}A\u{1f}a@x\u{1f}zz\u{1f}20\u{1f}\u{1f}t2";
  let out = format!("{rec}\u{1e}\n{bad}\u{1e}\n  \u{1e}");
  let commits = get_archived_branch_commits(&out);
  assert_eq!(commits.len(), 1);
  assert_eq!(commits[0].id, "c1");
  assert_eq!(commits[0].committer_timestamp, 20);
  assert_eq!(archived_range(" base\n", "u/archived/d/x"), "base..u/archived/d/x");
}

#[test]
fn branch_listing() {
  let lines = strings(&[
    "u/virtual/a c1",
    "u/archived/2025-01-02/b c2",
    "u/archived/2024-12-31/c c1",
    "u/other c3",
    "nospace",
  ]);
  let d = get_all_branch_data(&lines, "u", "2025-01-02");
  assert_eq!(d.virtual_commits, pairs(&[("u/virtual/a", "c1")]));
  assert_eq!(d.archived_all, strings(&["u/archived/2025-01-02/b", "u/archived/2024-12-31/c"]));
  assert_eq!(d.archived_today_names, strings(&["b"]));
  assert_eq!(d.all_branch_commits.len(), 4);
  let tips: HashSet<&str> = d.commits.iter().map(|c| c.as_str()).collect();
  assert_eq!(d.commits.len(), 3);
  assert_eq!(tips, ["c1", "c2", "c3"].into_iter().collect::<HashSet<_>>());

  let args = notes_args(&d.commits);
  assert_eq!(args[..5].to_vec(), strings(&["--no-pager", "log", "--no-walk", "--format=%H%x1f%N%x1e", &format!("--notes={NOTES_REF}")]));
  assert_eq!(args[5..].to_vec(), d.commits);

  let notes = note_records("c1\u{1f}{\"v\":1}\n\u{1e}\nc2\u{1f}  \u{1e}\nbad\u{1e}");
  assert_eq!(notes, pairs(&[("c1", "{\"v\":1}")]));

  let info = BranchIntegrationInfo { name: String::new(), summary: "s".into(), status: BranchIntegrationStatus::Partial { missing: 1 } };
  assert_eq!(name_cached_result("c1", info.clone(), &d.all_branch_commits).name, "u/virtual/a");
  assert_eq!(name_cached_result("zz", info, &d.all_branch_commits).name, "");

  assert_eq!(get_commit_timestamp(Some(" 1700000000\n".into())), Some(1700000000));
  assert_eq!(get_commit_timestamp(Some("x".into())), None);
  assert_eq!(get_commit_timestamp(None), None);
}

#[test]
fn inactive_branches() {
  let virtuals = strings(&["u/virtual/a", "u/virtual/b", "other"]);
  assert_eq!(inactive_virtual_branches(&virtuals, "u", &strings(&["a"])), strings(&["u/virtual/b", "other"]));
  let listed = strings(&["u/virtual/a", "", "u/virtual/c"]);
  assert_eq!(list_inactive_virtual_branches(&listed, "u//", &strings(&["c"])), strings(&["u/virtual/a"]));
}

#[test]
fn expired_archives() {
  let archived = strings(&["u/archived/2024-01-01/a", "u/archived/2024-01-01/b", "u/archived/2030-01-01/c", "u/archived/bad-date/d"]);
  let commits = pairs(&[("u/archived/2024-01-01/a", "t1"), ("u/archived/2024-01-01/b", "t2"), ("u/archived/2030-01-01/c", "t3"), ("u/archived/bad-date/d", "t1")]);
  let integrated = BranchIntegrationInfo {
    name: String::new(),
    summary: String::new(),
    status: BranchIntegrationStatus::Integrated { integrated_at: None, confidence: IntegrationConfidence::High, commit_count: 1 },
  };
  let not_integrated = BranchIntegrationInfo {
    name: String::new(),
    summary: String::new(),
    status: BranchIntegrationStatus::NotIntegrated { total_commit_count: 1, integrated_count: 0, orphaned_count: 1, integrated_at: None },
  };
  let notes = vec![("t1".to_string(), integrated.clone()), ("t2".to_string(), not_integrated), ("t3".to_string(), integrated)];
  // Cutoff 2025-01-01 00:00:00 UTC.
  let r = branches_to_delete(&archived, "u", &commits, &notes, 1735689600);
  assert_eq!(r, strings(&["u/archived/2024-01-01/a"]));
  // The archive day itself is not before a cutoff at its midnight.
  let r = branches_to_delete(&archived, "u", &commits, &notes, 1704067200);
  assert!(r.is_empty());
  let r = branches_to_delete(&archived, "u", &commits, &notes, 1704067201);
  assert_eq!(r, strings(&["u/archived/2024-01-01/a"]));
}
