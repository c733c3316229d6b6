use branch_deck::issue_reference::has_issue_reference;

#[test]
fn test_has_issue_reference() {
  // Issue reference at the start
  assert!(has_issue_reference("ABC-123 Fix the bug"));
  assert!(has_issue_reference("ISSUE-456 Add new feature"));
  assert!(has_issue_reference("JIRA-1 Update docs"));

  // Cases that do not match
  assert!(!has_issue_reference("Fix the bug"));
  assert!(!has_issue_reference("abc-123 lowercase not valid"));
  assert!(!has_issue_reference("ABC- missing number"));
  assert!(!has_issue_reference("-123 missing prefix"));
  assert!(!has_issue_reference(""));
  assert!(!has_issue_reference("Some text ABC-123 issue in the middle"));
}

#[test]
fn issue_references_with_unicode_digits() {
  assert!(has_issue_reference("ABC-١٢٣ Fix the parser"));
  assert!(has_issue_reference("ABC-12² Squared"));
  assert!(!has_issue_reference("ABC-12x Not an issue"));
}
