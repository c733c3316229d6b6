use branch_deck::commit_list::has_branch_prefix;
use branch_deck::model_utils::clean_branch_name;

#[test]
fn test_has_branch_prefix() {
  // Valid prefixes
  assert!(has_branch_prefix("(feature) Add feature"));
  assert!(has_branch_prefix("(bugfix-123) Fix bug"));
  assert!(has_branch_prefix("(a) Short prefix"));

  // Invalid prefixes
  assert!(!has_branch_prefix("() Empty prefix"));
  assert!(!has_branch_prefix("("));
  assert!(!has_branch_prefix("No prefix here"));
  assert!(!has_branch_prefix(""));
  assert!(!has_branch_prefix("Almost (but not)"));
}

#[test]
fn test_clean_branch_name() {
  assert_eq!(clean_branch_name("fix-user-service").unwrap(), "fix-user-service");
  assert_eq!(clean_branch_name("2.0.0 - fix: null pointer").unwrap(), "2.0.0-fixnullpointer");
  assert_eq!(clean_branch_name("```git checkout branch```").unwrap(), "checkout");
  assert_eq!(clean_branch_name("git checkout feature").unwrap(), "checkout-feature");
  assert!(clean_branch_name("").is_err());
  assert!(clean_branch_name("```git```").is_err());
  assert_eq!(
    clean_branch_name("very-long-branch-name-that-should-be-truncated-because-it-exceeds-fifty-characters").unwrap(),
    "very-long-branch-name-that-should-be-truncated-bec"
  );
  assert_eq!(clean_branch_name("main").unwrap(), "main");

  // Thinking tags are removed
  assert_eq!(clean_branch_name("\n\n</think>\n\nuser-service-secure-hash").unwrap(), "user-service-secure-hash");
  assert_eq!(clean_branch_name("<think>some thinking</think>feature-branch").unwrap(), "feature-branch");
  assert_eq!(clean_branch_name("</think>config-refactor").unwrap(), "config-refactor");
}

#[test]
fn clean_branch_name_error_message() {
  assert_eq!(clean_branch_name("").unwrap_err().message(), "Could not generate a valid branch name");
}

#[test]
fn cutting_names_at_fifty_bytes() {
  assert_eq!(clean_branch_name("short-name").unwrap(), "short-name");
  assert_eq!(clean_branch_name(&"a".repeat(80)).unwrap(), "a".repeat(50));
  let split = format!("{}éé", "a".repeat(49));
  assert_eq!(clean_branch_name(&split).unwrap(), "a".repeat(49));
  let whole = format!("{}é{}", "a".repeat(48), "b".repeat(10));
  assert_eq!(clean_branch_name(&whole).unwrap(), format!("{}é", "a".repeat(48)));
  let dashes = format!("{}-_-{}", "a".repeat(47), "b".repeat(10));
  assert_eq!(clean_branch_name(&dashes).unwrap(), "a".repeat(47));
  let dotted = format!("{}./{}", "a".repeat(48), "b".repeat(10));
  assert_eq!(clean_branch_name(&dotted).unwrap(), format!("{}./", "a".repeat(48)));
}
