//! The branch prefix configured in git (`branchdeck.branchPrefix`).

use vstd::prelude::*;
use crate::archive::strs;
use crate::git_executor::{utf8_lossy, CommandOutput, GitCommandExecutor, GitError};
use crate::text;

verus! {

/// The `git config` arguments that read the prefix: from the global
/// configuration when no repository is given, else from the repository's.
pub fn branch_prefix_config_args(repository_path: &str) -> (args: Vec<String>)
    ensures
        repository_path@.len() == 0 ==> strs(args@) == seq!["config"@, "--global"@, "branchdeck.branchPrefix"@],
        repository_path@.len() > 0 ==> strs(args@) == seq!["config"@, "branchdeck.branchPrefix"@],
{
    let args = if repository_path.is_empty() {
        vec![String::from_str("config"), String::from_str("--global"), String::from_str("branchdeck.branchPrefix")]
    } else {
        vec![String::from_str("config"), String::from_str("branchdeck.branchPrefix")]
    };
    assert(repository_path@.len() == 0 ==> strs(args@) =~= seq!["config"@, "--global"@, "branchdeck.branchPrefix"@]);
    assert(repository_path@.len() > 0 ==> strs(args@) =~= seq!["config"@, "branchdeck.branchPrefix"@]);
    args
}

/// Where `git config` runs: the repository, or `.` for the global
/// configuration (git ignores the path there).
pub fn branch_prefix_config_path(repository_path: &str) -> (p: String)
    ensures
        repository_path@.len() == 0 ==> p@ == "."@,
        repository_path@.len() > 0 ==> p@ == repository_path@,
{
    if repository_path.is_empty() {
        String::from_str(".")
    } else {
        String::from_str(repository_path)
    }
}

/// The configured prefix, from how `git config` ended: its trimmed output,
/// or the empty string when the key is not set (git fails then).
pub fn get_branch_prefix_from_git_config_sync(
    git_executor: &GitCommandExecutor,
    repository_path: &str,
    output: &CommandOutput,
) -> (r: Result<String, GitError>)
    ensures
        output.success ==> (r matches Ok(p) && p@ == text::trim(utf8_lossy(output.stdout@))),
        !output.success ==> (r matches Ok(p) && p@.len() == 0),
{
    let args = branch_prefix_config_args(repository_path);
    let path = branch_prefix_config_path(repository_path);
    proof {
        reveal_strlit(".");
        reveal_strlit("config");
        reveal_strlit("--global");
        reveal_strlit("branchdeck.branchPrefix");
        reveal_strlit("merge-tree");
        assert(strs(args@).len() == args@.len());
        assert forall|i: int| 0 <= i < args@.len() implies args@[i]@ != "merge-tree"@ by {
            assert(strs(args@)[i] == args@[i]@);
            assert(args@[i]@.len() != "merge-tree"@.len());
        }
        assert(path@.len() > 0);
    }
    match git_executor.execute_command(&args, path.as_str(), output) {
        Ok(value) => Ok(value),
        Err(_) => Ok(String::new()),
    }
}

} // verus!
