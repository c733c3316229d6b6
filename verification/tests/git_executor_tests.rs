use branch_deck::branch_data::{is_ancestor, is_ancestor_args};
use branch_deck::branch_prefix::{branch_prefix_config_args, branch_prefix_config_path, get_branch_prefix_from_git_config_sync};
use branch_deck::git_executor::{get_git_path, lossy_text, CommandOutput, GitCommandExecutor, GitError, GitInfo};

fn args(v: &[&str]) -> Vec<String> {
  v.iter().map(|s| s.to_string()).collect()
}

fn ok(stdout: &str) -> CommandOutput {
  CommandOutput { success: true, exit_code: Some(0), stdout: stdout.as_bytes().to_vec(), stderr: vec![] }
}

fn failed(code: i32, stderr: &str) -> CommandOutput {
  CommandOutput { success: false, exit_code: Some(code), stdout: b"partial".to_vec(), stderr: stderr.as_bytes().to_vec() }
}

fn executor() -> GitCommandExecutor {
  let mut e = GitCommandExecutor::new();
  e.remember_info(GitInfo { version: "2.50.1".to_string(), path: "/usr/bin/git".to_string() });
  e
}

#[test]
fn test_execute_command_lines() {
  let git_executor = executor();
  // What `git log --oneline -n 3` prints for three commits.
  let log = ok("c3c3c3c Third commit\nb2b2b2b Second commit\na1a1a1a First commit\n");
  let commits = git_executor.execute_command_lines(&args(&["log", "--oneline", "-n", "3"]), "/repo", &log).unwrap();
  assert_eq!(commits.len(), 3);
  assert!(commits[0].contains("Third commit"));
  assert!(commits[1].contains("Second commit"));
  assert!(commits[2].contains("First commit"));

  // Empty output.
  let branches = git_executor.execute_command_lines(&args(&["branch", "--list", "non-existent-*"]), "/repo", &ok("")).unwrap();
  assert_eq!(branches.len(), 0);

  // Trimming and filtering.
  let config = git_executor.execute_command_lines(&args(&["config", "user.email"]), "/repo", &ok("  test@example.com  \n")).unwrap();
  assert_eq!(config.len(), 1);
  assert_eq!(config[0], "test@example.com");
}

#[test]
fn test_execute_command_lines_performance() {
  let git_executor = executor();
  // What `git rev-list HEAD` prints for a hundred commits.
  let mut out = String::new();
  for i in 0..100u32 {
    out.push_str(&format!("{:040x}\n", (i as u128 + 1) * 0x9e3779b97f4a7c15));
  }
  let commits = git_executor.execute_command_lines(&args(&["rev-list", "HEAD"]), "/repo", &ok(&out)).unwrap();
  assert_eq!(commits.len(), 100);
  for commit in &commits {
    assert_eq!(commit.len(), 40);
    assert!(commit.chars().all(|c| c.is_ascii_hexdigit()));
  }
}

#[test]
fn parse_lines_drops_blank_lines_and_trims() {
  let lines = GitCommandExecutor::parse_lines(b"  a  \r\n\n \t \nb\n\xffc\n");
  assert_eq!(lines, vec!["a".to_string(), "b".to_string(), "\u{fffd}c".to_string()]);
  assert!(GitCommandExecutor::parse_lines(b"").is_empty());
}

#[test]
fn lossy_text_replaces_invalid_bytes() {
  assert_eq!(lossy_text(b"ok"), "ok");
  assert_eq!(lossy_text(&[b'a', 0xff, b'b']), "a\u{fffd}b");
}

#[test]
fn command_results() {
  let e = executor();
  let a = args(&["status"]);
  assert_eq!(e.execute_command(&a, "/repo", &ok("  out \n")).unwrap(), "out");
  assert_eq!(e.execute_command_raw(&a, "/repo", &ok("  out \n")).unwrap(), "  out \n");
  assert!(matches!(e.execute_command(&a, "", &ok("x")), Err(GitError::BlankRepositoryPath)));
  assert_eq!(GitError::BlankRepositoryPath.message(), "repository path cannot be blank");
  let err = e.execute_command(&args(&["show", "HEAD"]), "/repo", &failed(128, " fatal: bad \n")).unwrap_err();
  assert_eq!(err.message(), "git command failed: /usr/bin/git show HEAD\nError: fatal: bad");
  // merge-tree reporting conflicts with exit code 1 still answers.
  let mt = args(&["merge-tree", "--write-tree", "a", "b"]);
  assert_eq!(e.execute_command(&mt, "/repo", &failed(1, "conflict")).unwrap(), "partial");
  assert!(e.execute_command(&mt, "/repo", &failed(2, "bad")).is_err());
  assert!(e.execute_command_strict(&mt, "/repo", &failed(1, "conflict")).is_err());
  assert_eq!(e.execute_command_strict(&a, "/repo", &ok(" s ")).unwrap(), "s");
  assert_eq!(e.execute_command_with_status(&a, "/repo", &failed(3, " why ")).unwrap(), ("why".to_string(), 3));
  let no_code = CommandOutput { success: false, exit_code: None, stdout: vec![], stderr: b"killed".to_vec() };
  assert_eq!(e.execute_command_with_status(&a, "/repo", &no_code).unwrap(), ("killed".to_string(), -1));
  assert_eq!(e.execute_command_bytes(&a, "/repo", &ok("\u{1e}x")).unwrap(), vec![0x1e, b'x']);
  assert_eq!(e.execute_command_counts(&a, "/repo", &ok("3\t5\n")).unwrap(), vec![3, 5]);
  let bad = e.execute_command_counts(&a, "/repo", &ok("3 x 5")).unwrap_err();
  assert!(matches!(&bad, GitError::InvalidCount(t) if t == "x"));
  assert_eq!(bad.message(), "Failed to parse count 'x': invalid digit found in string");
  // Without discovered git, the message names no path.
  let fresh = GitCommandExecutor::new();
  assert!(fresh.get_info().is_none());
  assert_eq!(fresh.execute_command(&a, "/r", &failed(1, "e")).unwrap_err().message(), "git command failed:  status\nError: e");
  assert_eq!(executor().get_info().unwrap().path, "/usr/bin/git");
}

#[test]
fn git_info_versions() {
  assert_eq!(get_git_path(), "git");
  let info = GitInfo::discover(&ok("git version 2.49.0\n")).unwrap();
  assert_eq!(info.path, "git");
  assert_eq!(info.version, "2.49.0");
  assert_eq!(info.parse_version().unwrap(), (2, 49));
  assert_eq!(
    info.validate_minimum_version().unwrap_err(),
    "Git version 2.49 is too old. Branch Deck requires Git 2.50 or newer. Please upgrade your Git installation."
  );
  assert!(GitInfo::from_version_output("g", "2.50.0").validate_minimum_version().is_ok());
  let err = GitInfo::discover(&failed(127, "not found")).unwrap_err();
  assert_eq!(err, "Failed to get git version: not found");
  let old = GitInfo::from_path("/opt/git", &ok("git version 2.48.1")).unwrap();
  assert_eq!(old.path, "/opt/git");
  assert_eq!(
    old.validate_minimum_version().unwrap_err(),
    "Git version 2.48 is too old. Branch Deck requires Git 2.50 or newer. Please upgrade your Git installation."
  );
  assert!(GitInfo::from_version_output("g", "3.0.0").validate_minimum_version().is_ok());
  assert_eq!(GitInfo::from_version_output("g", "weird").parse_version().unwrap_err(), "Invalid version format: weird");
  assert_eq!(GitInfo::from_version_output("g", "x.1").parse_version().unwrap_err(), "Invalid major version: x");
  assert_eq!(GitInfo::from_version_output("g", "2.y.3").parse_version().unwrap_err(), "Invalid minor version: y");
  assert_eq!(GitInfo::from_version_output("g", "2.45.1.windows.1").parse_version().unwrap(), (2, 45));
}

#[test]
fn ancestry_and_branch_prefix() {
  let e = executor();
  assert_eq!(is_ancestor_args("a", "b"), args(&["merge-base", "--is-ancestor", "a", "b"]));
  assert!(is_ancestor(&e, "/repo", "a", "b", &ok("")));
  assert!(!is_ancestor(&e, "/repo", "a", "b", &failed(1, "")));
  assert!(!is_ancestor(&e, "", "a", "b", &ok("")));

  assert_eq!(branch_prefix_config_args(""), args(&["config", "--global", "branchdeck.branchPrefix"]));
  assert_eq!(branch_prefix_config_args("/repo"), args(&["config", "branchdeck.branchPrefix"]));
  assert_eq!(branch_prefix_config_path(""), ".");
  assert_eq!(branch_prefix_config_path("/repo"), "/repo");
  assert_eq!(get_branch_prefix_from_git_config_sync(&e, "/repo", &ok(" alice \n")).unwrap(), "alice");
  assert_eq!(get_branch_prefix_from_git_config_sync(&e, "", &failed(1, "")).unwrap(), "");
}

#[test]
fn remembered_git_info_is_kept_by_clones() {
  let mut e = GitCommandExecutor::new();
  assert!(e.clone().get_info().is_none());
  e.remember_info(GitInfo::from_version_output("/usr/bin/git", "2.50.1"));
  let c = e.clone();
  for info in [e.get_info().unwrap(), e.get_info().unwrap(), c.get_info().unwrap()] {
    assert_eq!(info.path, "/usr/bin/git");
    assert_eq!(info.version, "2.50.1");
  }
}
