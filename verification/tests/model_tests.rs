use branch_deck::model::{extract_branch_name_from_final, sanitize_branch_name, to_final_branch_name, BranchNameError, BranchSyncStatus};

#[test]
fn test_to_final_branch_name_valid_inputs() {
  let result = to_final_branch_name("feature", "auth").unwrap();
  assert_eq!(result, "feature/virtual/auth");
}

#[test]
fn test_to_final_branch_name_with_trailing_slashes() {
  let result = to_final_branch_name("feature/", "auth/").unwrap();
  assert_eq!(result, "feature/virtual/auth");
}

#[test]
fn test_to_final_branch_name_with_spaces() {
  let result = to_final_branch_name("  feature  ", "  auth  ").unwrap();
  assert_eq!(result, "feature/virtual/auth");
}

#[test]
fn test_to_final_branch_name_empty_prefix() {
  let result = to_final_branch_name("", "auth");
  assert!(result.is_err());
  assert_eq!(result.unwrap_err().message(), "branch prefix cannot be blank");
}

#[test]
fn test_to_final_branch_name_whitespace_prefix() {
  let result = to_final_branch_name("   ", "auth");
  assert!(result.is_err());
  assert_eq!(result.unwrap_err().message(), "branch prefix cannot be blank");
}

#[test]
fn test_to_final_branch_name_empty_name() {
  let result = to_final_branch_name("feature", "");
  assert!(result.is_err());
  assert_eq!(result.unwrap_err().message(), "branch name cannot be blank");
}

#[test]
fn test_to_final_branch_name_whitespace_name() {
  let result = to_final_branch_name("feature", "   ");
  assert!(result.is_err());
  assert_eq!(result.unwrap_err().message(), "branch name cannot be blank");
}

#[test]
fn test_branch_sync_status_equality() {
  assert_eq!(BranchSyncStatus::Created, BranchSyncStatus::Created);
  assert_ne!(BranchSyncStatus::Created, BranchSyncStatus::Updated);
}

#[test]
fn test_sanitize_branch_name_with_spaces() {
  assert_eq!(sanitize_branch_name("ui dispatcher"), "ui-dispatcher");
  assert_eq!(sanitize_branch_name("hello world test"), "hello-world-test");
}

#[test]
fn test_sanitize_branch_name_with_special_chars() {
  assert_eq!(sanitize_branch_name("test~branch"), "test-branch");
  assert_eq!(sanitize_branch_name("test^branch"), "test-branch");
  assert_eq!(sanitize_branch_name("test:branch"), "test-branch");
  assert_eq!(sanitize_branch_name("test?branch"), "test-branch");
  assert_eq!(sanitize_branch_name("test*branch"), "test-branch");
  assert_eq!(sanitize_branch_name("test[branch]"), "test-branch");
  assert_eq!(sanitize_branch_name("test\\branch"), "test-branch");
}

#[test]
fn test_sanitize_branch_name_consecutive_hyphens() {
  assert_eq!(sanitize_branch_name("test--branch"), "test-branch");
  assert_eq!(sanitize_branch_name("test   branch"), "test-branch");
  assert_eq!(sanitize_branch_name("test-~-branch"), "test-branch");
}

#[test]
fn test_sanitize_branch_name_edge_cases() {
  assert_eq!(sanitize_branch_name("-test-"), "test");
  assert_eq!(sanitize_branch_name(".test."), "test");
  assert_eq!(sanitize_branch_name("/test/"), "test");
  assert_eq!(sanitize_branch_name("---test---"), "test");
}

#[test]
fn test_to_final_branch_name_with_sanitization() {
  let result = to_final_branch_name("develar", "ui dispatcher").unwrap();
  assert_eq!(result, "develar/virtual/ui-dispatcher");

  let result = to_final_branch_name("feature", "test~branch").unwrap();
  assert_eq!(result, "feature/virtual/test-branch");

  let result = to_final_branch_name("bugfix", "hello world test").unwrap();
  assert_eq!(result, "bugfix/virtual/hello-world-test");
}

#[test]
fn extract_branch_name_round_trip() {
  let full = to_final_branch_name("user/", "feature auth").unwrap();
  assert_eq!(extract_branch_name_from_final(&full, "user/"), Some("feature-auth".to_string()));
  assert_eq!(extract_branch_name_from_final("other/virtual/x", "user"), None);
  assert_eq!(extract_branch_name_from_final("user/virtual/", "user"), Some(String::new()));
}

#[test]
fn sanitize_keeps_inner_dots_and_slashes() {
  assert_eq!(sanitize_branch_name("a.b/c"), "a.b/c");
  assert_eq!(sanitize_branch_name("./-x-/."), "x");
  assert_eq!(BranchNameError::BlankName.message(), "branch name cannot be blank");
}
