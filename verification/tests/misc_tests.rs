use branch_deck::download::{
  files_to_download, format_duration, percentage, reported_bytes, resume_header, response_ok, should_report_progress, streams_with_progress, total_size,
  DownloadProgress,
};
use branch_deck::issue_reference::{
  issue_reference_result, plan_issue_reference, validate_issue_reference, AddIssueReferenceParams, AddIssueReferenceResult, IssueReferenceError,
};
use branch_deck::model::CommitInfo;
use branch_deck::model_config::ModelConfig;
use branch_deck::model_utils::truncate_tokens_if_needed;
use branch_deck::prompt::create_generic_alternative_prompt;
use branch_deck::raw_git_format::{convert_to_raw_git_format, CommitDiff, FileDiff};
use branch_deck::suggestion::{BranchNameResult, BranchSuggestion, SuggestBranchNameParams, SuggestionProgress};
use branch_deck::unicode::{char_is_alphabetic, char_is_alphanumeric, str_to_lowercase, utf8_text};

fn info(hash: &str, message: &str) -> CommitInfo {
  CommitInfo { hash: hash.into(), message: message.into() }
}

fn params(reference: &str, commits: Vec<CommitInfo>) -> AddIssueReferenceParams {
  AddIssueReferenceParams { repository_path: "/repo".into(), branch_name: "feat".into(), commits, issue_reference: reference.into() }
}

#[test]
fn issue_reference_validation() {
  assert!(validate_issue_reference("ABC-123").is_ok());
  assert!(validate_issue_reference("ñ-1").is_ok());
  assert_eq!(validate_issue_reference("ABC_123"), Err(IssueReferenceError::InvalidCharacters));
  assert_eq!(validate_issue_reference("ABC 123"), Err(IssueReferenceError::InvalidCharacters));
  assert_eq!(validate_issue_reference("ABC123"), Err(IssueReferenceError::InvalidFormat));
  assert_eq!(validate_issue_reference("A-B-C"), Err(IssueReferenceError::InvalidFormat));
  assert_eq!(validate_issue_reference("-1"), Err(IssueReferenceError::InvalidFormat));
  assert_eq!(IssueReferenceError::InvalidCharacters.message(), "Issue reference can only contain letters, numbers, and hyphens");
  assert_eq!(IssueReferenceError::InvalidFormat.message(), "Issue reference must be in format like ABC-123");
}

#[test]
fn issue_reference_plans() {
  let commits = vec![
    info("a", "  (feat) Add login \n"),
    info("b", "(feat) JIRA-9 Already there"),
    info("c", "Plain message"),
    info("d", "XY-1: referenced"),
  ];
  let plan = plan_issue_reference(&params("ABC-123", commits)).unwrap();
  assert_eq!(plan.skipped_count, 2);
  assert_eq!(plan.rewrites.len(), 2);
  assert_eq!(plan.rewrites[0].commit_id, "a");
  assert_eq!(plan.rewrites[0].new_message, "(feat) ABC-123 Add login");
  assert_eq!(plan.rewrites[1].commit_id, "c");
  assert_eq!(plan.rewrites[1].new_message, "ABC-123 Plain message");
  assert_eq!(plan_issue_reference(&params("bad ref", vec![])).err(), Some(IssueReferenceError::InvalidCharacters));

  assert_eq!(issue_reference_result(&plan, None), Ok(AddIssueReferenceResult { success: true, updated_count: 2, skipped_count: 2 }));
  assert_eq!(issue_reference_result(&plan, Some("boom".into())), Err("Failed to add issue reference: boom".to_string()));
  let empty = plan_issue_reference(&params("ABC-1", vec![info("x", "ABC-2 done")])).unwrap();
  assert_eq!(issue_reference_result(&empty, Some("ignored".into())), Ok(AddIssueReferenceResult { success: true, updated_count: 0, skipped_count: 1 }));
}

#[test]
fn model_configurations() {
  let all = [ModelConfig::Qwen3_17B, ModelConfig::Qwen25Coder15B, ModelConfig::Qwen25Coder3B];
  assert_eq!(ModelConfig::default(), ModelConfig::Qwen3_17B);
  assert_eq!(all.map(|m| m.model_id()), ["qwen3-17b", "qwen25-coder-15b", "qwen25-coder-3b"]);
  assert_eq!(all.map(|m| m.model_name()), ["Qwen3-1.7B", "Qwen2.5-Coder-1.5B", "Qwen2.5-Coder-3B"]);
  assert_eq!(all.map(|m| m.model_size()), ["1.83GB", "1.5GB", "3GB"]);
  assert_eq!(all.map(|m| m.is_gguf_format()), [true, false, false]);
  assert_eq!(all.map(|m| m.is_qwen3_architecture()), [true, false, false]);
  assert_eq!(all.map(|m| m.is_qwen25_architecture()), [false, true, true]);
  assert_eq!(all.map(|m| m.max_context_tokens()), [32768; 3]);
  let q3 = ModelConfig::Qwen3_17B.download_urls();
  assert_eq!(q3.len(), 2);
  assert_eq!(q3[0], ("Qwen3-1.7B-Q8_0.gguf", "https://huggingface.co/Qwen/Qwen3-1.7B-GGUF/resolve/main/Qwen3-1.7B-Q8_0.gguf", Some(1_300_000_000)));
  let q25 = ModelConfig::Qwen25Coder3B.download_urls();
  assert_eq!(q25.iter().map(|e| e.0).collect::<Vec<_>>(), vec!["config.json", "model.safetensors", "tokenizer.json", "tokenizer_config.json", "merges.txt"]);
  assert_eq!(q25[1].2, Some(3_000_000_000));
}

#[test]
fn token_truncation() {
  let mut tokens: Vec<u32> = (0..100).collect();
  assert_eq!(truncate_tokens_if_needed(&mut tokens, 1000), None);
  assert_eq!(tokens.len(), 100);
  let mut tokens: Vec<u32> = (0..2000).collect();
  let limit = 1000;
  let r = truncate_tokens_if_needed(&mut tokens, limit);
  assert_eq!(r, Some(2000));
  assert!(tokens.len() < limit);
  assert_eq!(tokens[0], 0);
  assert_eq!(tokens[tokens.len() - 1] as usize, tokens.len() - 1);
}

#[test]
fn download_decisions() {
  assert_eq!(format_duration(0), "0s");
  assert_eq!(format_duration(59), "59s");
  assert_eq!(format_duration(61), "1m 1s");
  assert_eq!(format_duration(3599), "59m 59s");
  assert_eq!(format_duration(3661), "1h 1m");
  assert_eq!(format_duration(u32::MAX), "1193046h 28m");
  assert_eq!(resume_header(0), None);
  assert_eq!(resume_header(1024), Some("bytes=1024-".to_string()));
  assert!(response_ok(200) && response_ok(206) && response_ok(299));
  assert!(!response_ok(404) && !response_ok(301) && !response_ok(199));
  assert_eq!(total_size(Some(100), 50, 206), 150);
  assert_eq!(total_size(Some(100), 50, 200), 100);
  assert_eq!(total_size(None, 50, 206), 50);
  assert!(streams_with_progress(Some(1), 10));
  assert!(!streams_with_progress(None, 10));
  assert!(!streams_with_progress(Some(1), 0));
  assert_eq!(percentage(50, 200), 25);
  assert_eq!(percentage(1, 3), 33);
  assert_eq!(percentage(5, 0), 0);
  assert_eq!(percentage((1u64 << 32) + 3, 100), 3);
  assert!(should_report_progress(1001, 5, 4));
  assert!(should_report_progress(1001, 100, 100));
  assert!(!should_report_progress(1000, 5, 4));
  assert!(!should_report_progress(2000, 4, 4));
  assert_eq!(reported_bytes(7), 7);
  assert_eq!(reported_bytes(u64::MAX), u32::MAX);
  let names = vec!["a".to_string(), "b".to_string(), "c".to_string()];
  assert_eq!(files_to_download(&names, &vec![true, false, false]), vec![1, 2]);
  assert!(files_to_download(&names, &vec![true, true, true]).is_empty());
  let p = DownloadProgress::Progress { file_name: "m".into(), downloaded: 1, total: 2, bytes_per_second: None, seconds_remaining: Some(3) };
  assert!(matches!(p, DownloadProgress::Progress { total: 2, .. }));
}

#[test]
fn raw_git_text() {
  let commits = vec![info("h1", "feat: one"), info("h2", "fix: two"), info("h3", "chore: three")];
  let diffs = vec![
    CommitDiff {
      commit_hash: "h1".into(),
      files: vec![
        FileDiff { path: "a.rs".into(), additions: 3, deletions: 0, patch: None },
        FileDiff { path: "b.rs".into(), additions: 0, deletions: 2, patch: None },
        FileDiff { path: "c.rs".into(), additions: 1, deletions: 1, patch: Some("+x".into()) },
      ],
    },
    CommitDiff { commit_hash: "h3".into(), files: vec![FileDiff { path: "first.rs".into(), additions: 1, deletions: 0, patch: None }] },
    CommitDiff { commit_hash: "h3".into(), files: vec![FileDiff { path: "second.rs".into(), additions: 1, deletions: 0, patch: None }] },
  ];
  assert_eq!(
    convert_to_raw_git_format(&commits, &diffs),
    "feat: one\nA\ta.rs\nD\tb.rs\nM\tc.rs\n\nfix: two\n\nchore: three\nA\tfirst.rs"
  );
  assert_eq!(convert_to_raw_git_format(&[], &[]), "");
}

#[test]
fn alternative_prompt_mentions_previous_suggestion() {
  let p = create_generic_alternative_prompt("feat: x", "password-hash").unwrap();
  assert!(p.contains("password"));
  assert!(p.contains("feat: x"));
}

#[test]
fn suggestion_types() {
  let s = BranchSuggestion { name: "fix-login".into(), reason: None };
  let ready = SuggestionProgress::SuggestionReady { suggestion: s.clone(), index: 0 };
  assert!(matches!(ready, SuggestionProgress::SuggestionReady { index: 0, .. }));
  let req = SuggestBranchNameParams { repository_path: "/r".into(), branch_prefix: "u".into(), commits: vec![info("h", "m")] };
  assert_eq!(req.commits.len(), 1);
  let r = BranchNameResult { name: s.name, generation_time_ms: 12 };
  assert_eq!(r.generation_time_ms, 12);
}

#[test]
fn unicode_classes_and_text() {
  assert!(char_is_alphabetic('é') && !char_is_alphabetic('1'));
  assert!(char_is_alphanumeric('٣') && !char_is_alphanumeric('-'));
  assert_eq!(str_to_lowercase("ÀB"), "àb");
  assert_eq!(utf8_text("ok ✓".as_bytes()), Some("ok ✓".to_string()));
  assert_eq!(utf8_text(&[0xc3]), None);
}
