//! Running git: what the library makes of a finished git process (its exit
//! status and output), and what it knows of the git executable itself.
//! Starting the process is left to the caller.

use vstd::prelude::*;
use crate::text::{self, chars_of, join_chars, push_all, split_whitespace_chars, string_of, trim_chars};
use crate::number::{self, format_u64, parse_u32};

verus! {

/// `String::from_utf8_lossy`: the text of the bytes, each invalid sequence
/// replaced by U+FFFD.
pub uninterp spec fn utf8_lossy(bytes: Seq<u8>) -> Seq<char>;

/// `String::from_utf8_lossy`; valid UTF-8 is decoded as it is.
#[verifier::external_body]
pub fn lossy_text(bytes: &[u8]) -> (s: String)
    ensures
        s@ == utf8_lossy(bytes@),
        vstd::utf8::valid_utf8(bytes@) ==> s@ == vstd::utf8::decode_utf8(bytes@),
{
    String::from_utf8_lossy(bytes).to_string()
}

/// The git executable: its path and its version (`2.50.0`, ...).
#[derive(Debug, Clone)]
pub struct GitInfo {
    pub version: String,
    pub path: String,
}

pub open spec fn version_prefix() -> Seq<char> {
    "git version "@
}

/// The version in the output of `git version`: the trimmed output without
/// its `git version ` prefix.
pub open spec fn version_of(output: Seq<char>) -> Seq<char> {
    let t = text::trim(output);
    if text::has_prefix(t, version_prefix()) {
        t.skip(12)
    } else {
        t
    }
}

pub open spec fn dot() -> spec_fn(char) -> bool {
    |c: char| c == '.'
}

/// What `parse_version` gives: the first two dot-separated parts as numbers.
pub open spec fn version_numbers(version: Seq<char>) -> Result<(u32, u32), Seq<char>> {
    let parts = text::split_by(version, dot());
    if parts.len() < 2 {
        Err("Invalid version format: "@ + version)
    } else if number::parsed_u32(parts[0]) is None {
        Err("Invalid major version: "@ + parts[0])
    } else if number::parsed_u32(parts[1]) is None {
        Err("Invalid minor version: "@ + parts[1])
    } else {
        Ok((number::parsed_u32(parts[0])->0, number::parsed_u32(parts[1])->0))
    }
}

/// The oldest git release that is supported: 2.50.
pub const MIN_MAJOR: u32 = 2;
pub const MIN_MINOR: u32 = 50;

pub open spec fn too_old(major: u32, minor: u32) -> bool {
    major < MIN_MAJOR || (major == MIN_MAJOR && minor < MIN_MINOR)
}

pub open spec fn too_old_message(major: u32, minor: u32) -> Seq<char> {
    "Git version "@ + number::decimal(major as nat) + "."@ + number::decimal(minor as nat)
        + " is too old. Branch Deck requires Git 2.50 or newer. Please upgrade your Git installation."@
}

/// The failure of `git version`, with what it wrote to stderr.
pub open spec fn version_failure(stderr: Seq<u8>) -> Seq<char> {
    "Failed to get git version: "@ + utf8_lossy(stderr)
}

fn str_chars(s: &str) -> (v: Vec<char>)
    ensures
        v@ == s@,
{
    chars_of(s)
}

impl GitInfo {
    /// The information of the git at `git_path`, from the output of its
    /// `git version`.
    pub fn from_version_output(git_path: &str, output: &str) -> (info: GitInfo)
        ensures
            info.path@ == git_path@,
            info.version@ == version_of(output@),
    {
        let t = trim_chars(&chars_of(output));
        let prefix = str_chars("git version ");
        proof {
            reveal_strlit("git version ");
        }
        let version = if text::starts_with(&t, &prefix) {
            let v = text::slice_chars(&t, 12, t.len());
            assert(v@ =~= t@.skip(12));
            v
        } else {
            t
        };
        GitInfo { version: string_of(&version), path: String::from_str(git_path) }
    }

    /// The information of the git at `git_path`, from how its `git version`
    /// ended: the version it printed, or the failure with what it wrote to
    /// stderr.
    pub fn from_path(git_path: &str, version_run: &CommandOutput) -> (r: Result<GitInfo, String>)
        ensures
            version_run.success ==> (r matches Ok(info) && info.path@ == git_path@
                && info.version@ == version_of(utf8_lossy(version_run.stdout@))),
            !version_run.success ==> (r matches Err(m) && m@ == version_failure(version_run.stderr@)),
    {
        if version_run.success {
            let out = lossy_text(version_run.stdout.as_slice());
            Ok(Self::from_version_output(git_path, out.as_str()))
        } else {
            let mut m = str_chars("Failed to get git version: ");
            let err = lossy_text(version_run.stderr.as_slice());
            push_all(&mut m, &chars_of(err.as_str()));
            Err(string_of(&m))
        }
    }

    /// The information on the git found on the search path, from how its
    /// `git version` ended.
    pub fn discover(version_run: &CommandOutput) -> (r: Result<GitInfo, String>)
        ensures
            version_run.success ==> (r matches Ok(info) && info.path@ == "git"@
                && info.version@ == version_of(utf8_lossy(version_run.stdout@))),
            !version_run.success ==> (r matches Err(m) && m@ == version_failure(version_run.stderr@)),
    {
        let path = get_git_path();
        Self::from_path(path.as_str(), version_run)
    }

    /// Parses the version into its major and minor numbers.
    pub fn parse_version(&self) -> (r: Result<(u32, u32), String>)
        ensures
            match r {
                Ok(p) => version_numbers(self.version@) == Ok::<(u32, u32), Seq<char>>(p),
                Err(e) => version_numbers(self.version@) == Err::<(u32, u32), Seq<char>>(e@),
            },
    {
        let v = chars_of(self.version.as_str());
        let sep = crate::model::single_class('.');
        assert(crate::model::is_char('.') =~= dot());
        let parts = text::split_chars(&v, &sep);
        if parts.len() < 2 {
            let mut m = str_chars("Invalid version format: ");
            push_all(&mut m, &v);
            return Err(string_of(&m));
        }
        let major = match parse_u32(&parts[0]) {
            Some(n) => n,
            None => {
                let mut m = str_chars("Invalid major version: ");
                push_all(&mut m, &parts[0]);
                return Err(string_of(&m));
            },
        };
        let minor = match parse_u32(&parts[1]) {
            Some(n) => n,
            None => {
                let mut m = str_chars("Invalid minor version: ");
                push_all(&mut m, &parts[1]);
                return Err(string_of(&m));
            },
        };
        Ok((major, minor))
    }

    /// Checks that the version is 2.50 or newer.
    pub fn validate_minimum_version(&self) -> (r: Result<(), String>)
        ensures
            match version_numbers(self.version@) {
                Err(e) => r matches Err(m) && m@ == e,
                Ok((major, minor)) => if too_old(major, minor) {
                    r matches Err(m) && m@ == too_old_message(major, minor)
                } else {
                    r is Ok
                },
            },
    {
        let (major, minor) = self.parse_version()?;
        if major < MIN_MAJOR || (major == MIN_MAJOR && minor < MIN_MINOR) {
            let mut m = str_chars("Git version ");
            push_all(&mut m, &format_u64(major as u64));
            push_all(&mut m, &str_chars("."));
            push_all(&mut m, &format_u64(minor as u64));
            push_all(
                &mut m,
                &str_chars(" is too old. Branch Deck requires Git 2.50 or newer. Please upgrade your Git installation."),
            );
            return Err(string_of(&m));
        }
        Ok(())
    }
}

/// The git executable to run, found on the search path.
pub fn get_git_path() -> (p: String)
    ensures
        p@ == "git"@,
{
    String::from_str("git")
}

/// How a git process ended: its exit code (none when a signal ended it),
/// whether it succeeded, and what it wrote.
#[derive(Debug, Clone)]
pub struct CommandOutput {
    pub success: bool,
    pub exit_code: Option<i32>,
    pub stdout: Vec<u8>,
    pub stderr: Vec<u8>,
}

/// Why a git command gave no result.
#[derive(Debug, Clone)]
pub enum GitError {
    /// The repository path is empty.
    BlankRepositoryPath,
    /// The command failed; the message names the command and what git said.
    CommandFailed(String),
    /// A count in the output is not a number.
    InvalidCount(String),
}

impl GitError {
    /// The error as git commands report it; a bad count is reported with
    /// what `str::parse` said of it.
    pub fn message(&self) -> (s: String)
        ensures
            match *self {
                GitError::BlankRepositoryPath => s@ == "repository path cannot be blank"@,
                GitError::CommandFailed(m) => s@ == m@,
                GitError::InvalidCount(t) => s@ == "Failed to parse count '"@ + t@ + "'"@ + if number::parsed_u32(t@) is None {
                    ": "@ + number::u32_error_text(t@)
                } else {
                    Seq::empty()
                },
            },
    {
        match self {
            GitError::BlankRepositoryPath => String::from_str("repository path cannot be blank"),
            GitError::CommandFailed(m) => m.clone(),
            GitError::InvalidCount(t) => {
                let mut v = str_chars("Failed to parse count '");
                let tc = chars_of(t.as_str());
                push_all(&mut v, &tc);
                push_all(&mut v, &str_chars("'"));
                match number::parse_u32_or_error(&tc) {
                    Ok(_) => {},
                    Err(e) => {
                        push_all(&mut v, &str_chars(": "));
                        push_all(&mut v, &e);
                    },
                }
                string_of(&v)
            },
        }
    }
}

pub open spec fn args_view(args: Seq<String>) -> Seq<Seq<char>> {
    args.map_values(|a: String| a@)
}

/// The message of a failed command.
pub open spec fn failure_message(git_path: Seq<char>, args: Seq<String>, stderr: Seq<u8>) -> Seq<char> {
    "git command failed: "@ + git_path + " "@ + text::join(args_view(args), " "@) + "\nError: "@
        + text::trim(utf8_lossy(stderr))
}

/// A failure that still counts as an answer: `git merge-tree` reporting
/// conflicts with exit code 1.
pub open spec fn acceptable_failure(args: Seq<String>, exit_code: Option<i32>) -> bool {
    (exists|i: int| 0 <= i < args.len() && args[i]@ == "merge-tree"@) && exit_code == Some(1i32)
}

/// The executor: what it knows of the git executable, once discovered.
#[derive(Debug)]
pub struct GitCommandExecutor {
    info: Option<GitInfo>,
}

/// What an executor knows of git, as text: the path and the version.
pub open spec fn info_view(i: Option<GitInfo>) -> Option<(Seq<char>, Seq<char>)> {
    match i {
        Some(g) => Some((g.path@, g.version@)),
        None => None,
    }
}

impl Clone for GitCommandExecutor {
    /// A copy that knows what this executor knows.
    fn clone(&self) -> (c: Self)
        ensures
            info_view(c.info_spec()) == info_view(self.info_spec()),
    {
        GitCommandExecutor { info: self.get_info() }
    }
}

impl GitCommandExecutor {
    pub closed spec fn info_spec(&self) -> Option<GitInfo> {
        self.info
    }

    /// An executor that has not discovered git yet.
    pub fn new() -> (e: Self)
        ensures
            e.info_spec() is None,
    {
        GitCommandExecutor { info: None }
    }

    /// The information on git, once discovered: every call gives back what
    /// was remembered.
    pub fn get_info(&self) -> (r: Option<GitInfo>)
        ensures
            info_view(r) == info_view(self.info_spec()),
            match (r, self.info_spec()) {
                (Some(a), Some(b)) => a.path@ == b.path@ && a.version@ == b.version@,
                (None, None) => true,
                _ => false,
            },
    {
        match &self.info {
            Some(i) => Some(GitInfo { version: i.version.clone(), path: i.path.clone() }),
            None => None,
        }
    }

    /// Keeps what discovery found.
    pub fn remember_info(&mut self, info: GitInfo)
        ensures
            final(self).info_spec() == Some(info),
            info_view(final(self).info_spec()) == Some((info.path@, info.version@)),
    {
        self.info = Some(info);
    }

    pub open spec fn git_path(&self) -> Seq<char> {
        match self.info_spec() {
            Some(i) => i.path@,
            None => Seq::empty(),
        }
    }

    /// Refuses an empty repository path.
    pub fn validate_path(repository_path: &str) -> (r: Result<(), GitError>)
        ensures
            repository_path@.len() == 0 <==> r matches Err(GitError::BlankRepositoryPath),
            repository_path@.len() > 0 <==> r is Ok,
    {
        if repository_path.is_empty() {
            Err(GitError::BlankRepositoryPath)
        } else {
            Ok(())
        }
    }

    fn is_acceptable_failure(args: &Vec<String>, exit_code: Option<i32>) -> (b: bool)
        ensures
            b == acceptable_failure(args@, exit_code),
    {
        let mut found = false;
        let mut i: usize = 0;
        while i < args.len()
            invariant
                i <= args@.len(),
                found == exists|j: int| 0 <= j < i && args@[j]@ == "merge-tree"@,
            decreases args.len() - i,
        {
            let a = chars_of(args[i].as_str());
            let m = str_chars("merge-tree");
            if text::chars_eq(&a, &m) {
                found = true;
            }
            i = i + 1;
        }
        let code_one = match exit_code {
            Some(c) => c == 1,
            None => false,
        };
        found && code_one
    }

    fn failure(&self, args: &Vec<String>, output: &CommandOutput) -> (e: GitError)
        ensures
            e matches GitError::CommandFailed(m) && m@ == failure_message(self.git_path(), args@, output.stderr@),
    {
        let mut m = str_chars("git command failed: ");
        match &self.info {
            Some(i) => push_all(&mut m, &chars_of(i.path.as_str())),
            None => {},
        }
        push_all(&mut m, &str_chars(" "));
        let mut parts: Vec<Vec<char>> = Vec::new();
        let mut i: usize = 0;
        while i < args.len()
            invariant
                i <= args@.len(),
                parts@.len() == i,
                text::views(parts@) == args_view(args@).take(i as int),
            decreases args.len() - i,
        {
            let a = chars_of(args[i].as_str());
            let ghost before = parts@;
            parts.push(a);
            assert(parts@[i as int]@ == args@[i as int]@);
            assert(text::views(parts@) =~= text::views(before).push(args@[i as int]@));
            assert(args_view(args@).take(i + 1) =~= args_view(args@).take(i as int).push(args@[i as int]@));
            i = i + 1;
        }
        assert(args_view(args@).take(args@.len() as int) =~= args_view(args@));
        push_all(&mut m, &join_chars(&parts, &str_chars(" ")));
        push_all(&mut m, &str_chars("\nError: "));
        let err = lossy_text(output.stderr.as_slice());
        push_all(&mut m, &trim_chars(&chars_of(err.as_str())));
        GitError::CommandFailed(string_of(&m))
    }

    /// The trimmed output of a command that succeeded (or of `git merge-tree`
    /// reporting conflicts); the failure otherwise.
    pub fn execute_command(&self, args: &Vec<String>, repository_path: &str, output: &CommandOutput) -> (r: Result<String, GitError>)
        ensures
            repository_path@.len() == 0 ==> r matches Err(GitError::BlankRepositoryPath),
            repository_path@.len() > 0 && (output.success || acceptable_failure(args@, output.exit_code))
                ==> (r matches Ok(s) && s@ == text::trim(utf8_lossy(output.stdout@))),
            repository_path@.len() > 0 && !(output.success || acceptable_failure(args@, output.exit_code))
                ==> (r matches Err(GitError::CommandFailed(m)) && m@ == failure_message(self.git_path(), args@, output.stderr@)),
    {
        Self::validate_path(repository_path)?;
        if output.success || Self::is_acceptable_failure(args, output.exit_code) {
            let out = lossy_text(output.stdout.as_slice());
            Ok(string_of(&trim_chars(&chars_of(out.as_str()))))
        } else {
            Err(self.failure(args, output))
        }
    }

    /// The untrimmed output of a command that succeeded (or of `git
    /// merge-tree` reporting conflicts); the failure otherwise.
    pub fn execute_command_raw(&self, args: &Vec<String>, repository_path: &str, output: &CommandOutput) -> (r: Result<String, GitError>)
        ensures
            repository_path@.len() == 0 ==> r matches Err(GitError::BlankRepositoryPath),
            repository_path@.len() > 0 && (output.success || acceptable_failure(args@, output.exit_code))
                ==> (r matches Ok(s) && s@ == utf8_lossy(output.stdout@)),
            repository_path@.len() > 0 && !(output.success || acceptable_failure(args@, output.exit_code))
                ==> (r matches Err(GitError::CommandFailed(m)) && m@ == failure_message(self.git_path(), args@, output.stderr@)),
    {
        Self::validate_path(repository_path)?;
        if output.success || Self::is_acceptable_failure(args, output.exit_code) {
            Ok(lossy_text(output.stdout.as_slice()))
        } else {
            Err(self.failure(args, output))
        }
    }

    /// The exit code (-1 when there is none) with the trimmed output of a
    /// command that succeeded, or with its trimmed error output when it
    /// failed.
    pub fn execute_command_with_status(&self, args: &Vec<String>, repository_path: &str, output: &CommandOutput) -> (r: Result<(String, i32), GitError>)
        ensures
            repository_path@.len() == 0 ==> r matches Err(GitError::BlankRepositoryPath),
            repository_path@.len() > 0 ==> (r matches Ok((s, code)) && code == (match output.exit_code {
                Some(c) => c,
                None => -1i32,
            }) && s@ == text::trim(utf8_lossy(
                if output.success || acceptable_failure(args@, output.exit_code) {
                    output.stdout@
                } else {
                    output.stderr@
                },
            ))),
    {
        Self::validate_path(repository_path)?;
        let code: i32 = match output.exit_code {
            Some(c) => c,
            None => -1,
        };
        let text = if output.success || Self::is_acceptable_failure(args, output.exit_code) {
            lossy_text(output.stdout.as_slice())
        } else {
            lossy_text(output.stderr.as_slice())
        };
        Ok((string_of(&trim_chars(&chars_of(text.as_str()))), code))
    }

    /// The trimmed output of a command that must succeed; the failure
    /// otherwise (for commands given input or environment, and streamed
    /// ones).
    pub fn execute_command_strict(&self, args: &Vec<String>, repository_path: &str, output: &CommandOutput) -> (r: Result<String, GitError>)
        ensures
            repository_path@.len() == 0 ==> r matches Err(GitError::BlankRepositoryPath),
            repository_path@.len() > 0 && output.success ==> (r matches Ok(s) && s@ == text::trim(utf8_lossy(output.stdout@))),
            repository_path@.len() > 0 && !output.success ==> (r matches Err(GitError::CommandFailed(m)) && m@
                == failure_message(self.git_path(), args@, output.stderr@)),
    {
        Self::validate_path(repository_path)?;
        if output.success {
            let out = lossy_text(output.stdout.as_slice());
            Ok(string_of(&trim_chars(&chars_of(out.as_str()))))
        } else {
            Err(self.failure(args, output))
        }
    }

    /// The non-blank lines of the output of a command that succeeded, each
    /// trimmed; the failure otherwise.
    pub fn execute_command_lines(&self, args: &Vec<String>, repository_path: &str, output: &CommandOutput) -> (r: Result<Vec<String>, GitError>)
        ensures
            repository_path@.len() == 0 ==> r matches Err(GitError::BlankRepositoryPath),
            repository_path@.len() > 0 && output.success ==> (r matches Ok(lines) && args_view(lines@) == output_lines(output.stdout@)),
            repository_path@.len() > 0 && !output.success ==> (r matches Err(GitError::CommandFailed(m)) && m@
                == failure_message(self.git_path(), args@, output.stderr@)),
    {
        Self::validate_path(repository_path)?;
        if output.success {
            Ok(Self::parse_lines(output.stdout.as_slice()))
        } else {
            Err(self.failure(args, output))
        }
    }

    /// The bytes of the output of a command that succeeded; the failure
    /// otherwise.
    pub fn execute_command_bytes(&self, args: &Vec<String>, repository_path: &str, output: &CommandOutput) -> (r: Result<Vec<u8>, GitError>)
        ensures
            repository_path@.len() == 0 ==> r matches Err(GitError::BlankRepositoryPath),
            repository_path@.len() > 0 && output.success ==> (r matches Ok(b) && b@ == output.stdout@),
            repository_path@.len() > 0 && !output.success ==> (r matches Err(GitError::CommandFailed(m)) && m@
                == failure_message(self.git_path(), args@, output.stderr@)),
    {
        Self::validate_path(repository_path)?;
        if output.success {
            let mut b: Vec<u8> = Vec::new();
            let mut i: usize = 0;
            while i < output.stdout.len()
                invariant
                    i <= output.stdout@.len(),
                    b@ == output.stdout@.take(i as int),
                decreases output.stdout.len() - i,
            {
                b.push(output.stdout[i]);
                assert(output.stdout@.take(i + 1) =~= output.stdout@.take(i as int).push(output.stdout@[i as int]));
                i = i + 1;
            }
            assert(output.stdout@.take(output.stdout@.len() as int) =~= output.stdout@);
            Ok(b)
        } else {
            Err(self.failure(args, output))
        }
    }

    /// The whitespace-separated numbers of the output of a command such as
    /// `git rev-list --count`.
    pub fn execute_command_counts(&self, args: &Vec<String>, repository_path: &str, output: &CommandOutput) -> (r: Result<Vec<u32>, GitError>)
        ensures
            repository_path@.len() == 0 ==> r matches Err(GitError::BlankRepositoryPath),
            repository_path@.len() > 0 && (output.success || acceptable_failure(args@, output.exit_code)) ==> match
                counts_of(text::trim(utf8_lossy(output.stdout@))) {
                Ok(ns) => r matches Ok(v) && v@ == ns,
                Err(t) => r matches Err(GitError::InvalidCount(s)) && s@ == t,
            },
            repository_path@.len() > 0 && !(output.success || acceptable_failure(args@, output.exit_code))
                ==> (r matches Err(GitError::CommandFailed(m)) && m@ == failure_message(self.git_path(), args@, output.stderr@)),
    {
        let out = self.execute_command(args, repository_path, output)?;
        let words = split_whitespace_chars(&chars_of(out.as_str()));
        let ghost ws = text::words(out@);
        let mut counts: Vec<u32> = Vec::new();
        let mut i: usize = 0;
        while i < words.len()
            invariant
                repository_path@.len() > 0,
                output.success || acceptable_failure(args@, output.exit_code),
                out@ == text::trim(utf8_lossy(output.stdout@)),
                ws == text::words(out@),
                i <= words@.len(),
                words@.len() == ws.len(),
                forall|k: int| 0 <= k < words@.len() ==> (#[trigger] words@[k])@ == ws[k],
                forall|k: int| 0 <= k < i ==> number::parsed_u32(#[trigger] ws[k]) is Some,
                counts@.len() == i,
                forall|k: int| 0 <= k < i ==> Some(#[trigger] counts@[k]) == number::parsed_u32(ws[k]),
            decreases words.len() - i,
        {
            match parse_u32(&words[i]) {
                Some(n) => counts.push(n),
                None => {
                    proof {
                        lemma_counts_first_failure(ws, i as int);
                    }
                    return Err(GitError::InvalidCount(string_of(&words[i])));
                },
            }
            i = i + 1;
        }
        proof {
            lemma_counts_all(ws, counts@);
        }
        Ok(counts)
    }

    /// The non-blank lines of raw output, each decoded and trimmed.
    pub fn parse_lines(output: &[u8]) -> (lines: Vec<String>)
        ensures
            args_view(lines@) == output_lines(output@),
    {
        let mut lines: Vec<String> = Vec::new();
        let mut start: usize = 0;
        let mut i: usize = 0;
        while i < output.len()
            invariant
                start <= i <= output@.len(),
                args_view(lines@) == kept_lines(raw_lines(output@.take(i as int)).drop_last()),
                raw_lines(output@.take(i as int)).last() == output@.subrange(start as int, i as int),
                raw_lines(output@.take(i as int)).len() >= 1,
            decreases output.len() - i,
        {
            proof {
                assert(output@.take(i + 1).drop_last() =~= output@.take(i as int));
            }
            if output[i] == 10 {
                let piece = slice_bytes(output, start, i);
                let ghost before = lines@;
                let t = trim_chars(&chars_of(lossy_text(piece.as_slice()).as_str()));
                if t.len() > 0 {
                    lines.push(string_of(&t));
                }
                proof {
                    let pieces = raw_lines(output@.take(i as int));
                    let next = raw_lines(output@.take(i + 1));
                    assert(next == pieces.push(Seq::<u8>::empty()));
                    assert(next.drop_last() =~= pieces);
                    assert(pieces =~= pieces.drop_last().push(pieces.last()));
                    lemma_kept_push(pieces.drop_last(), pieces.last());
                    if t@.len() > 0 {
                        assert(args_view(lines@) =~= args_view(before).push(t@));
                    }
                    assert(output@.subrange((i + 1) as int, (i + 1) as int) =~= Seq::<u8>::empty());
                }
                start = i + 1;
            } else {
                proof {
                    let pieces = raw_lines(output@.take(i as int));
                    let next = raw_lines(output@.take(i + 1));
                    assert(next.drop_last() =~= pieces.drop_last());
                    assert(output@.subrange(start as int, i + 1) =~= output@.subrange(start as int, i as int).push(
                        output@[i as int],
                    ));
                }
            }
            i = i + 1;
        }
        assert(output@.take(output@.len() as int) =~= output@);
        let piece = slice_bytes(output, start, output.len());
        let ghost before = lines@;
        let t = trim_chars(&chars_of(lossy_text(piece.as_slice()).as_str()));
        if t.len() > 0 {
            lines.push(string_of(&t));
        }
        proof {
            let pieces = raw_lines(output@);
            assert(pieces =~= pieces.drop_last().push(pieces.last()));
            lemma_kept_push(pieces.drop_last(), pieces.last());
            if t@.len() > 0 {
                assert(args_view(lines@) =~= args_view(before).push(t@));
            }
        }
        lines
    }
}

/// The pieces of `bytes` between newlines.
pub open spec fn raw_lines(bytes: Seq<u8>) -> Seq<Seq<u8>>
    decreases bytes.len(),
{
    if bytes.len() == 0 {
        seq![Seq::<u8>::empty()]
    } else {
        let prev = raw_lines(bytes.drop_last());
        if bytes.last() == 10u8 {
            prev.push(Seq::<u8>::empty())
        } else {
            prev.update(prev.len() - 1, prev.last().push(bytes.last()))
        }
    }
}

/// The pieces, decoded and trimmed, leaving out those that are blank.
pub open spec fn kept_lines(pieces: Seq<Seq<u8>>) -> Seq<Seq<char>>
    decreases pieces.len(),
{
    if pieces.len() == 0 {
        Seq::empty()
    } else {
        let prev = kept_lines(pieces.drop_last());
        let t = text::trim(utf8_lossy(pieces.last()));
        if t.len() > 0 {
            prev.push(t)
        } else {
            prev
        }
    }
}

/// The lines `parse_lines` gives for some output.
pub open spec fn output_lines(bytes: Seq<u8>) -> Seq<Seq<char>> {
    kept_lines(raw_lines(bytes))
}

proof fn lemma_kept_push(pieces: Seq<Seq<u8>>, p: Seq<u8>)
    ensures
        kept_lines(pieces.push(p)) == (if text::trim(utf8_lossy(p)).len() > 0 {
            kept_lines(pieces).push(text::trim(utf8_lossy(p)))
        } else {
            kept_lines(pieces)
        }),
{
    assert(pieces.push(p).drop_last() =~= pieces);
}

fn slice_bytes(v: &[u8], from: usize, to: usize) -> (r: Vec<u8>)
    requires
        from <= to <= v@.len(),
    ensures
        r@ == v@.subrange(from as int, to as int),
{
    let mut r: Vec<u8> = Vec::new();
    let mut i: usize = from;
    while i < to
        invariant
            from <= i <= to <= v@.len(),
            r@ == v@.subrange(from as int, i as int),
        decreases to - i,
    {
        r.push(v[i]);
        assert(v@.subrange(from as int, i + 1) =~= v@.subrange(from as int, i as int).push(v@[i as int]));
        i = i + 1;
    }
    r
}

/// The numbers of a whitespace-separated list, or the first word that is
/// not one.
pub open spec fn counts_of(s: Seq<char>) -> Result<Seq<u32>, Seq<char>> {
    let ws = text::words(s);
    if forall|k: int| 0 <= k < ws.len() ==> number::parsed_u32(#[trigger] ws[k]) is Some {
        Ok(ws.map_values(|w: Seq<char>| number::parsed_u32(w)->0))
    } else {
        let k = choose|k: int|
            0 <= k < ws.len() && number::parsed_u32(ws[k]) is None && forall|j: int|
                0 <= j < k ==> number::parsed_u32(#[trigger] ws[j]) is Some;
        Err(ws[k])
    }
}

proof fn lemma_counts_first_failure(ws: Seq<Seq<char>>, i: int)
    requires
        0 <= i < ws.len(),
        number::parsed_u32(ws[i]) is None,
        forall|k: int| 0 <= k < i ==> number::parsed_u32(#[trigger] ws[k]) is Some,
    ensures
        !(forall|k: int| 0 <= k < ws.len() ==> number::parsed_u32(#[trigger] ws[k]) is Some),
        (choose|k: int|
            0 <= k < ws.len() && number::parsed_u32(ws[k]) is None && forall|j: int|
                0 <= j < k ==> number::parsed_u32(#[trigger] ws[j]) is Some) == i,
{
    let c = choose|k: int|
        0 <= k < ws.len() && number::parsed_u32(ws[k]) is None && forall|j: int|
            0 <= j < k ==> number::parsed_u32(#[trigger] ws[j]) is Some;
    assert(0 <= i < ws.len() && number::parsed_u32(ws[i]) is None && forall|j: int|
        0 <= j < i ==> number::parsed_u32(#[trigger] ws[j]) is Some);
    if c < i {
        assert(number::parsed_u32(ws[c]) is Some);
    } else if c > i {
        assert(number::parsed_u32(ws[i]) is Some);
    }
}

proof fn lemma_counts_all(ws: Seq<Seq<char>>, counts: Seq<u32>)
    requires
        counts.len() == ws.len(),
        forall|k: int| 0 <= k < ws.len() ==> number::parsed_u32(#[trigger] ws[k]) is Some,
        forall|k: int| 0 <= k < ws.len() ==> Some(#[trigger] counts[k]) == number::parsed_u32(ws[k]),
    ensures
        counts == ws.map_values(|w: Seq<char>| number::parsed_u32(w)->0),
{
    assert(counts =~= ws.map_values(|w: Seq<char>| number::parsed_u32(w)->0));
}

} // verus!
