//! What an amend that stopped on conflicts left behind: the conflicted files
//! of `git status --porcelain=v1`, the objects of their stages from `git
//! ls-files --stage`, and the commits involved, read from `git log`.

use vstd::prelude::*;
use crate::cherry_pick::{file_index, file_view, files_view, find_file, merge_conflict_info, ConflictFileInfo};
use crate::model::{ConflictDetail, ConflictMarkerCommitInfo, MergeConflictInfo};
use crate::commit_list::Commit;
use crate::number::{self, parse_u32_or_error};
use crate::rewrite::CopyCommitError;
use crate::text::{self, chars_of, push_all, slice_chars, split_whitespace_chars, std_lines_of, string_of, trim_chars};
use crate::unicode::utf8_width;

verus! {

pub type FileView = (Seq<char>, Option<Seq<char>>, Option<Seq<char>>, Option<Seq<char>>);

/// A trimmed status line can be cut into its status (its first two bytes)
/// and its path (from its fourth byte): it is shorter than three bytes, or
/// those bytes fall on character boundaries.
pub open spec fn status_line_cuttable(t: Seq<char>) -> bool {
    ||| crate::unicode::byte_len(t) < 3
    ||| (t.len() >= 3 && utf8_width(t[0]) == 1 && utf8_width(t[1]) == 1 && utf8_width(t[2]) == 1)
    ||| (t.len() >= 2 && utf8_width(t[0]) == 2 && utf8_width(t[1]) == 1)
}

/// The path of a trimmed status line that reports a conflict: its status
/// holds a `U`, or is `AA` or `DD`.
pub open spec fn status_conflict_path(t: Seq<char>) -> Option<Seq<char>> {
    if t.len() >= 3 && utf8_width(t[0]) == 1 && utf8_width(t[1]) == 1 && utf8_width(t[2]) == 1 && (t[0] == 'U'
        || t[1] == 'U' || (t[0] == 'A' && t[1] == 'A') || (t[0] == 'D' && t[1] == 'D')) {
        Some(t.skip(3))
    } else {
        None
    }
}

/// The conflicted paths of the status lines, each once, in order of first
/// appearance.
pub open spec fn status_paths(lines: Seq<Seq<char>>) -> Seq<Seq<char>>
    decreases lines.len(),
{
    if lines.len() == 0 {
        Seq::empty()
    } else {
        let prev = status_paths(lines.drop_last());
        match status_conflict_path(text::trim(lines.last())) {
            Some(p) => if prev.contains(p) {
                prev
            } else {
                prev.push(p)
            },
            None => prev,
        }
    }
}

pub open spec fn unstaged(p: Seq<char>) -> FileView {
    (p, None, None, None)
}

/// Every line of the status output can be cut as the status is read.
pub open spec fn status_cuttable(output: Seq<char>) -> bool {
    forall|i: int| 0 <= i < text::std_lines(output).len() ==> status_line_cuttable(
        text::trim(#[trigger] text::std_lines(output)[i]),
    )
}

fn conflict_path(t: &Vec<char>) -> (r: Option<Vec<char>>)
    ensures
        match r {
            Some(p) => status_conflict_path(t@) == Some(p@),
            None => status_conflict_path(t@) is None,
        },
{
    if t.len() >= 3 && t[0] <= '\u{7f}' && t[1] <= '\u{7f}' && t[2] <= '\u{7f}' {
        let a = t[0];
        let b = t[1];
        if a == 'U' || b == 'U' || (a == 'A' && b == 'A') || (a == 'D' && b == 'D') {
            let p = slice_chars(t, 3, t.len());
            assert(p@ =~= t@.skip(3));
            return Some(p);
        }
    }
    None
}

/// The conflicted files of `git status --porcelain=v1`, with no stage known
/// yet; refused when there is none.
pub fn conflicted_files_from_status(status_output: &str) -> (r: Result<Vec<ConflictFileInfo>, CopyCommitError>)
    requires
        status_cuttable(status_output@),
    ensures
        status_paths(text::std_lines(status_output@)).len() == 0 <==> (r matches Err(CopyCommitError::Other(m))
            && m@ == "No conflicts found in rebase state"@),
        status_paths(text::std_lines(status_output@)).len() > 0 <==> r is Ok,
        r matches Ok(fs) ==> files_view(fs@) == status_paths(text::std_lines(status_output@)).map_values(
            |p: Seq<char>| unstaged(p),
        ),
        r matches Ok(fs) ==> forall|a: int, b: int| 0 <= a < b < fs@.len() ==> (#[trigger] fs@[a]).path@ != (#[trigger] fs@[b]).path@,
{
    let lines = std_lines_of(status_output);
    let ghost ls = text::std_lines(status_output@);
    let mut files: Vec<ConflictFileInfo> = Vec::new();
    let mut i: usize = 0;
    while i < lines.len()
        invariant
            i <= lines@.len(),
            text::views(lines@) == ls,
            files_view(files@) == status_paths(ls.take(i as int)).map_values(|p: Seq<char>| unstaged(p)),
            forall|a: int, b: int| 0 <= a < b < files@.len() ==> (#[trigger] files@[a]).path@ != (#[trigger] files@[b]).path@,
        decreases lines.len() - i,
    {
        let t = trim_chars(&lines[i]);
        let ghost prev = status_paths(ls.take(i as int));
        proof {
            assert(ls.take(i + 1).drop_last() =~= ls.take(i as int));
            assert(ls.take(i + 1).last() == lines@[i as int]@);
            assert(files_view(files@).len() == prev.len());
            assert forall|k: int| 0 <= k < prev.len() implies files@[k].path@ == #[trigger] prev[k] by {
                assert(files_view(files@)[k] == unstaged(prev[k]));
            }
        }
        match conflict_path(&t) {
            Some(p) => {
                match find_file(&files, &p) {
                    Some(k) => {
                        proof {
                            assert(prev[k as int] == p@);
                            assert(prev.contains(p@));
                        }
                    },
                    None => {
                        proof {
                            assert(!prev.contains(p@)) by {
                                if prev.contains(p@) {
                                    let k = choose|k: int| 0 <= k < prev.len() && prev[k] == p@;
                                    assert(files_view(files@)[k].0 == p@);
                                }
                            }
                        }
                        let ghost before = files@;
                        files.push(ConflictFileInfo { path: string_of(&p), base_oid: None, ours_oid: None, theirs_oid: None });
                        proof {
                            assert(files_view(files@) =~= files_view(before).push(unstaged(p@)));
                            assert(prev.push(p@).map_values(|q: Seq<char>| unstaged(q)) =~= prev.map_values(
                                |q: Seq<char>| unstaged(q),
                            ).push(unstaged(p@)));
                            assert forall|a: int, b: int| 0 <= a < b < files@.len() implies (#[trigger] files@[a]).path@
                                != (#[trigger] files@[b]).path@ by {
                                if b == files@.len() - 1 {
                                    assert(files@[a].path@ == prev[a]);
                                    assert(prev.contains(prev[a]));
                                }
                            }
                        }
                    },
                }
            },
            None => {},
        }
        i = i + 1;
    }
    proof {
        assert(ls.take(lines@.len() as int) =~= ls);
    }
    if files.len() == 0 {
        return Err(CopyCommitError::Other(String::from_str("No conflicts found in rebase state")));
    }
    Ok(files)
}

/// A trimmed line of `git ls-files --stage`, `<mode> <object> <stage>\t<path>`:
/// the path, the object and the stage (at least three words before the tab).
pub open spec fn stage_entry(t: Seq<char>) -> Option<(Seq<char>, Seq<char>, Seq<char>)> {
    match text::first_occurrence(t, seq!['\t']) {
        Some(k) => {
            let ws = text::words(t.take(k));
            if ws.len() >= 3 {
                Some((t.skip(k + 1), ws[1], ws[2]))
            } else {
                None
            }
        },
        None => None,
    }
}

/// The stage entries of the lines, in order.
pub open spec fn stage_entries(lines: Seq<Seq<char>>) -> Seq<(Seq<char>, Seq<char>, Seq<char>)>
    decreases lines.len(),
{
    if lines.len() == 0 {
        Seq::empty()
    } else {
        stage_entries(lines.drop_last()) + match stage_entry(text::trim(lines.last())) {
            Some(e) => seq![e],
            None => Seq::empty(),
        }
    }
}

/// A file with the object of stage 1 (base), 2 (ours) or 3 (theirs) set.
pub open spec fn with_stage(f: FileView, oid: Seq<char>, stage: Seq<char>) -> FileView {
    if stage == seq!['1'] {
        (f.0, Some(oid), f.2, f.3)
    } else if stage == seq!['2'] {
        (f.0, f.1, Some(oid), f.3)
    } else if stage == seq!['3'] {
        (f.0, f.1, f.2, Some(oid))
    } else {
        f
    }
}

/// The files with the objects of the entries that name one of them; entries
/// of other paths are ignored.
pub open spec fn staged(files: Seq<FileView>, entries: Seq<(Seq<char>, Seq<char>, Seq<char>)>) -> Seq<FileView>
    decreases entries.len(),
{
    if entries.len() == 0 {
        files
    } else {
        let prev = staged(files, entries.drop_last());
        let (p, o, s) = entries.last();
        match file_index(prev, p) {
            Some(i) => prev.update(i, with_stage(prev[i], o, s)),
            None => prev,
        }
    }
}

fn parse_stage_entry(t: &Vec<char>) -> (r: Option<(Vec<char>, Vec<char>, Vec<char>)>)
    ensures
        match r {
            Some((p, o, s)) => stage_entry(t@) == Some((p@, o@, s@)),
            None => stage_entry(t@) is None,
        },
{
    let tab = vec!['\t'];
    assert(tab@ =~= seq!['\t']);
    match text::find_seq(t, &tab) {
        Some(k) => {
            assert(tab@.len() == 1);
            let tlen = t.len();
            assert(k + 1 <= tlen);
            let head = slice_chars(t, 0, k);
            assert(head@ =~= t@.take(k as int));
            let ws = split_whitespace_chars(&head);
            if ws.len() >= 3 {
                let path = slice_chars(t, k + 1, t.len());
                assert(path@ =~= t@.skip(k + 1));
                let o = slice_chars(&ws[1], 0, ws[1].len());
                let s = slice_chars(&ws[2], 0, ws[2].len());
                assert(o@ =~= ws@[1]@);
                assert(s@ =~= ws@[2]@);
                Some((path, o, s))
            } else {
                None
            }
        },
        None => None,
    }
}

/// Sets, on the files of `git status`, the objects of their stages from the
/// output of `git ls-files --stage`.
pub fn apply_stage_entries(files: &mut Vec<ConflictFileInfo>, ls_files_output: &str)
    requires
        forall|a: int, b: int| 0 <= a < b < old(files)@.len() ==> (#[trigger] old(files)@[a]).path@ != (#[trigger] old(files)@[b]).path@,
    ensures
        files_view(final(files)@) == staged(files_view(old(files)@), stage_entries(text::std_lines(ls_files_output@))),
        forall|a: int, b: int| 0 <= a < b < final(files)@.len() ==> (#[trigger] final(files)@[a]).path@ != (#[trigger] final(files)@[b]).path@,
{
    let lines = std_lines_of(ls_files_output);
    let ghost ls = text::std_lines(ls_files_output@);
    let ghost start = files_view(files@);
    let mut i: usize = 0;
    while i < lines.len()
        invariant
            i <= lines@.len(),
            text::views(lines@) == ls,
            files_view(files@) == staged(start, stage_entries(ls.take(i as int))),
            forall|a: int, b: int| 0 <= a < b < files@.len() ==> (#[trigger] files@[a]).path@ != (#[trigger] files@[b]).path@,
        decreases lines.len() - i,
    {
        let t = trim_chars(&lines[i]);
        proof {
            assert(ls.take(i + 1).drop_last() =~= ls.take(i as int));
            assert(ls.take(i + 1).last() == lines@[i as int]@);
        }
        match parse_stage_entry(&t) {
            Some((path, oid, stage)) => {
                let ghost e = (path@, oid@, stage@);
                let ghost prev_e = stage_entries(ls.take(i as int));
                proof {
                    assert(stage_entries(ls.take(i + 1)) =~= prev_e.push(e));
                    assert(prev_e.push(e).drop_last() =~= prev_e);
                }
                match find_file(files, &path) {
                    Some(k) => {
                        let mut f = files[k].clone_info();
                        let o = string_of(&oid);
                        let one = vec!['1'];
                        let two = vec!['2'];
                        let three = vec!['3'];
                        assert(one@ =~= seq!['1']);
                        assert(two@ =~= seq!['2']);
                        assert(three@ =~= seq!['3']);
                        if text::chars_eq(&stage, &one) {
                            f.base_oid = Some(o);
                        } else if text::chars_eq(&stage, &two) {
                            f.ours_oid = Some(o);
                        } else if text::chars_eq(&stage, &three) {
                            f.theirs_oid = Some(o);
                        }
                        let ghost before = files@;
                        assert(f.path@ == before[k as int].path@);
                        files.set(k, f);
                        proof {
                            assert(files_view(files@) =~= files_view(before).update(k as int, file_view(files@[k as int])));
                            assert forall|a: int, b: int| 0 <= a < b < files@.len() implies (#[trigger] files@[a]).path@
                                != (#[trigger] files@[b]).path@ by {
                                assert(files@[a].path@ == before[a].path@);
                                assert(files@[b].path@ == before[b].path@);
                            }
                        }
                    },
                    None => {},
                }
            },
            None => {
                assert(stage_entries(ls.take(i + 1)) =~= stage_entries(ls.take(i as int)));
            },
        }
        i = i + 1;
    }
    assert(ls.take(lines@.len() as int) =~= ls);
}

/// The NUL-separated fields of `git log -1 --format=%s%x00%at%x00%ct`:
/// the field at `k`, or empty where there is none.
pub open spec fn nul_field(output: Seq<char>, k: int) -> Seq<char> {
    let parts = text::split_by(output, |c: char| c == '\0');
    if k < parts.len() {
        parts[k]
    } else {
        Seq::empty()
    }
}

pub open spec fn invalid_timestamp(kind: Seq<char>, commit_id: Seq<char>, field: Seq<char>) -> Seq<char> {
    "Invalid "@ + kind + " timestamp for commit "@ + commit_id + ": "@ + number::u32_error_text(field)
}

/// A commit as conflict reports show it, from the output of `git log -1
/// --format=%s%x00%at%x00%ct`: its subject (also its message) and its
/// times; refused when a time is not a number.
pub fn get_commit_info_for_conflict(output: &str, commit_id: &str) -> (r: Result<Commit, CopyCommitError>)
    ensures
        ({
            let subject = text::trim(nul_field(output@, 0));
            let author = text::trim(nul_field(output@, 1));
            let committer = text::trim(nul_field(output@, 2));
            match r {
                Ok(c) => number::parsed_u32(author) == Some(c.author_timestamp) && number::parsed_u32(committer) == Some(
                    c.committer_timestamp,
                ) && c.id@ == commit_id@ && c.subject@ == subject && c.message@ == subject && c.stripped_subject@
                    == subject && c.author_name@.len() == 0 && c.author_email@.len() == 0 && c.parent_id is None
                    && c.tree_id@.len() == 0 && c.note is None && c.mapped_commit_id is None,
                Err(CopyCommitError::Other(m)) => (number::parsed_u32(author) is None && m@ == invalid_timestamp(
                    "author"@,
                    commit_id@,
                    author,
                )) || (number::parsed_u32(author) is Some && number::parsed_u32(committer) is None && m@
                    == invalid_timestamp("committer"@, commit_id@, committer)),
                Err(_) => false,
            }
        }),
        number::parsed_u32(text::trim(nul_field(output@, 1))) is Some && number::parsed_u32(
            text::trim(nul_field(output@, 2)),
        ) is Some ==> r is Ok,
{
    let chars = chars_of(output);
    let nul = crate::model::single_class('\0');
    assert(crate::model::is_char('\0') =~= (|c: char| c == '\0'));
    let parts = text::split_chars(&chars, &nul);
    let empty: Vec<char> = Vec::new();
    let subject = trim_chars(if parts.len() > 0 { &parts[0] } else { &empty });
    let author = trim_chars(if parts.len() > 1 { &parts[1] } else { &empty });
    let committer = trim_chars(if parts.len() > 2 { &parts[2] } else { &empty });
    assert(empty@ =~= Seq::<char>::empty());
    let author_ts = match parse_u32_or_error(&author) {
        Ok(n) => n,
        Err(e) => {
            let mut m = chars_of("Invalid author timestamp for commit ");
            push_all(&mut m, &chars_of(commit_id));
            push_all(&mut m, &chars_of(": "));
            push_all(&mut m, &e);
            proof {
                reveal_strlit("Invalid author timestamp for commit ");
                reveal_strlit("Invalid ");
                reveal_strlit("author");
                reveal_strlit(" timestamp for commit ");
                assert(m@ =~= invalid_timestamp("author"@, commit_id@, author@));
            }
            return Err(CopyCommitError::Other(string_of(&m)));
        },
    };
    let committer_ts = match parse_u32_or_error(&committer) {
        Ok(n) => n,
        Err(e) => {
            let mut m = chars_of("Invalid committer timestamp for commit ");
            push_all(&mut m, &chars_of(commit_id));
            push_all(&mut m, &chars_of(": "));
            push_all(&mut m, &e);
            proof {
                reveal_strlit("Invalid committer timestamp for commit ");
                reveal_strlit("Invalid ");
                reveal_strlit("committer");
                reveal_strlit(" timestamp for commit ");
                assert(m@ =~= invalid_timestamp("committer"@, commit_id@, committer@));
            }
            return Err(CopyCommitError::Other(string_of(&m)));
        },
    };
    let s = string_of(&subject);
    Ok(Commit {
        id: String::from_str(commit_id),
        subject: s.clone(),
        message: s.clone(),
        author_name: String::new(),
        author_email: String::new(),
        author_timestamp: author_ts,
        committer_timestamp: committer_ts,
        parent_id: None,
        tree_id: String::new(),
        note: None,
        stripped_subject: s,
        mapped_commit_id: None,
    })
}

} // verus!

verus! {

/// What reading the conflicts of a stopped amend asks for next.
pub enum AmendConflictStep {
    /// The output of `git status --porcelain=v1`.
    ReadStatus,
    /// The output of `git ls-files --stage`.
    ReadStages,
    /// The output of `git rev-parse HEAD`.
    ReadHead,
    /// Gather the details of the conflicted files: the rebase's `HEAD` is the
    /// merged tree, the target and the commit; the amended commit the parent.
    AnalyzeConflict { files: Vec<ConflictFileInfo>, merge_tree: String, parent_id: String, target_id: String, commit_id: String },
    /// Read the amended commit, then `HEAD`.
    ReadCommits { original_id: String, head_id: String },
    /// The conflicts, or why they could not be read.
    Done { result: Result<MergeConflictInfo, CopyCommitError> },
}

/// Reading the conflicts an autosquash rebase stopped on, before it is
/// aborted (`extract_amend_conflict_info`): the conflicted files from the
/// status (none is an error), their stages, and the report, in which `HEAD`
/// is both the commit and the target and the amended commit the parent.
pub struct AmendConflict {
    original_commit_id: String,
    head: String,
    files: Vec<ConflictFileInfo>,
    details: Vec<ConflictDetail>,
    markers: Vec<ConflictMarkerCommitInfo>,
    step: AmendConflictStep,
}

pub open spec fn paths_distinct(fs: Seq<ConflictFileInfo>) -> bool {
    forall|a: int, b: int| 0 <= a < b < fs.len() ==> (#[trigger] fs[a]).path@ != (#[trigger] fs[b]).path@
}

impl AmendConflict {
    pub closed spec fn step(&self) -> AmendConflictStep {
        self.step
    }

    /// The commit that was being amended.
    pub closed spec fn original(&self) -> Seq<char> {
        self.original_commit_id@
    }

    /// `HEAD`, trimmed, once read.
    pub closed spec fn head(&self) -> Seq<char> {
        self.head@
    }

    /// The conflicted files known so far.
    pub closed spec fn files(&self) -> Seq<ConflictFileInfo> {
        self.files@
    }

    pub closed spec fn conflict_details(&self) -> (Seq<ConflictDetail>, Seq<ConflictMarkerCommitInfo>) {
        (self.details@, self.markers@)
    }

    pub closed spec fn well_formed(&self) -> bool {
        paths_distinct(self.files@)
    }

    /// Starts by reading the status.
    pub fn new(original_commit_id: &str) -> (a: Self)
        ensures
            a.well_formed(),
            a.original() == original_commit_id@,
            a.step() is ReadStatus,
    {
        AmendConflict {
            original_commit_id: String::from_str(original_commit_id),
            head: String::new(),
            files: Vec::new(),
            details: Vec::new(),
            markers: Vec::new(),
            step: AmendConflictStep::ReadStatus,
        }
    }

    /// What to do next.
    pub fn next_step(&self) -> (s: &AmendConflictStep)
        ensures
            *s == self.step(),
    {
        &self.step
    }

    /// The status: its conflicted files, or the error that there are none.
    pub fn status_read(&mut self, output: Result<String, CopyCommitError>)
        requires
            old(self).well_formed(),
            old(self).step() is ReadStatus,
            output matches Ok(o) ==> status_cuttable(o@),
        ensures
            final(self).well_formed(),
            final(self).original() == old(self).original(),
            match output {
                Err(e) => final(self).step() == (AmendConflictStep::Done { result: Err(e) }),
                Ok(o) => if status_paths(text::std_lines(o@)).len() == 0 {
                    final(self).step() matches AmendConflictStep::Done { result: Err(CopyCommitError::Other(m)) } && m@
                        == "No conflicts found in rebase state"@
                } else {
                    final(self).step() is ReadStages && files_view(final(self).files()) == status_paths(
                        text::std_lines(o@),
                    ).map_values(|p: Seq<char>| unstaged(p))
                },
            },
    {
        match output {
            Err(e) => {
                self.step = AmendConflictStep::Done { result: Err(e) };
            },
            Ok(o) => match conflicted_files_from_status(o.as_str()) {
                Err(e) => {
                    self.step = AmendConflictStep::Done { result: Err(e) };
                },
                Ok(fs) => {
                    self.files = fs;
                    self.step = AmendConflictStep::ReadStages;
                },
            },
        }
    }

    /// The stages of the index: each conflicted file gets its objects.
    pub fn stages_read(&mut self, output: Result<String, CopyCommitError>)
        requires
            old(self).well_formed(),
            old(self).step() is ReadStages,
        ensures
            final(self).well_formed(),
            final(self).original() == old(self).original(),
            match output {
                Err(e) => final(self).step() == (AmendConflictStep::Done { result: Err(e) }),
                Ok(o) => final(self).step() is ReadHead && files_view(final(self).files()) == staged(
                    files_view(old(self).files()),
                    stage_entries(text::std_lines(o@)),
                ),
            },
    {
        match output {
            Err(e) => {
                self.step = AmendConflictStep::Done { result: Err(e) };
            },
            Ok(o) => {
                apply_stage_entries(&mut self.files, o.as_str());
                self.step = AmendConflictStep::ReadHead;
            },
        }
    }

    /// `HEAD`: the conflicts are analysed against it next.
    pub fn head_read(&mut self, output: Result<String, CopyCommitError>)
        requires
            old(self).well_formed(),
            old(self).step() is ReadHead,
        ensures
            final(self).well_formed(),
            final(self).original() == old(self).original(),
            match output {
                Err(e) => final(self).step() == (AmendConflictStep::Done { result: Err(e) }),
                Ok(o) => final(self).head() == text::trim(o@) && (final(self).step() matches AmendConflictStep::AnalyzeConflict {
                    files,
                    merge_tree,
                    parent_id,
                    target_id,
                    commit_id,
                } && files_view(files@) == files_view(old(self).files()) && merge_tree@ == text::trim(o@) && parent_id@
                    == old(self).original() && target_id@ == text::trim(o@) && commit_id@ == text::trim(o@)),
            },
    {
        match output {
            Err(e) => {
                self.step = AmendConflictStep::Done { result: Err(e) };
            },
            Ok(o) => {
                self.head = string_of(&trim_chars(&chars_of(o.as_str())));
                let mut files: Vec<ConflictFileInfo> = Vec::new();
                let mut i: usize = 0;
                while i < self.files.len()
                    invariant
                        i <= self.files@.len(),
                        files_view(files@) == files_view(self.files@).take(i as int),
                    decreases self.files.len() - i,
                {
                    let f = self.files[i].clone_info();
                    let ghost before = files@;
                    files.push(f);
                    assert(files_view(files@) =~= files_view(before).push(file_view(self.files@[i as int])));
                    assert(files_view(self.files@).take(i + 1) =~= files_view(self.files@).take(i as int).push(
                        file_view(self.files@[i as int]),
                    ));
                    i = i + 1;
                }
                assert(files_view(self.files@).take(self.files@.len() as int) =~= files_view(self.files@));
                self.step = AmendConflictStep::AnalyzeConflict {
                    files,
                    merge_tree: self.head.clone(),
                    parent_id: self.original_commit_id.clone(),
                    target_id: self.head.clone(),
                    commit_id: self.head.clone(),
                };
            },
        }
    }

    /// The details of the conflicts: the two commits are read next.
    pub fn conflict_analyzed(&mut self, details: Result<(Vec<ConflictDetail>, Vec<ConflictMarkerCommitInfo>), CopyCommitError>)
        requires
            old(self).well_formed(),
            old(self).step() is AnalyzeConflict,
        ensures
            final(self).well_formed(),
            final(self).original() == old(self).original(),
            final(self).head() == old(self).head(),
            match details {
                Err(e) => final(self).step() == (AmendConflictStep::Done { result: Err(e) }),
                Ok((d, m)) => final(self).conflict_details() == (d@, m@) && (final(self).step() matches AmendConflictStep::ReadCommits {
                    original_id,
                    head_id,
                } && original_id@ == old(self).original() && head_id@ == old(self).head()),
            },
    {
        match details {
            Err(e) => {
                self.step = AmendConflictStep::Done { result: Err(e) };
            },
            Ok((d, m)) => {
                self.details = d;
                self.markers = m;
                self.step = AmendConflictStep::ReadCommits { original_id: self.original_commit_id.clone(), head_id: self.head.clone() };
            },
        }
    }

    /// The amended commit and `HEAD`: the report names `HEAD` as the commit
    /// and as the target, and the amended commit as the parent.
    pub fn commits_read(&mut self, commits: Result<(Commit, Commit), CopyCommitError>)
        requires
            old(self).step() is ReadCommits,
        ensures
            match commits {
                Err(e) => final(self).step() == (AmendConflictStep::Done { result: Err(e) }),
                Ok((original, head)) => final(self).step() matches AmendConflictStep::Done { result: Ok(info) }
                    && info.original_parent_hash@ == old(self).original() && info.original_parent_message@ == original.message@
                    && info.original_parent_author_time == original.author_timestamp && info.original_parent_committer_time
                    == original.committer_timestamp && info.commit_hash@ == old(self).head() && info.target_branch_hash@
                    == old(self).head() && info.commit_message@ == head.message@ && info.target_branch_message@
                    == head.message@ && info.commit_author_time == head.author_timestamp && info.target_branch_author_time
                    == head.author_timestamp && info.commit_committer_time == head.committer_timestamp
                    && info.target_branch_committer_time == head.committer_timestamp && info.conflicting_files@
                    == old(self).conflict_details().0 && info.conflict_marker_commits@ == old(self).conflict_details().1,
            },
    {
        match commits {
            Err(e) => {
                self.step = AmendConflictStep::Done { result: Err(e) };
            },
            Ok((original, head)) => {
                let mut d: Vec<ConflictDetail> = Vec::new();
                let mut m: Vec<ConflictMarkerCommitInfo> = Vec::new();
                std::mem::swap(&mut d, &mut self.details);
                std::mem::swap(&mut m, &mut self.markers);
                let info = merge_conflict_info(
                    &head,
                    self.head.as_str(),
                    &original,
                    self.original_commit_id.as_str(),
                    &head,
                    self.head.as_str(),
                    d,
                    m,
                );
                self.step = AmendConflictStep::Done { result: Ok(info) };
            },
        }
    }

    /// The outcome, once it is read.
    pub fn into_result(self) -> (r: Result<MergeConflictInfo, CopyCommitError>)
        requires
            self.step() is Done,
        ensures
            self.step() == (AmendConflictStep::Done { result: r }),
    {
        match self.step {
            AmendConflictStep::Done { result } => result,
            _ => Err(CopyCommitError::Other(String::new())),
        }
    }
}

/// Starts reading the conflicts of an amend of `original_commit_id`; see
/// `AmendConflict`.
pub fn extract_amend_conflict_info(original_commit_id: &str) -> (a: AmendConflict)
    ensures
        a.well_formed(),
        a.original() == original_commit_id@,
        a.step() is ReadStatus,
{
    AmendConflict::new(original_commit_id)
}

} // verus!
