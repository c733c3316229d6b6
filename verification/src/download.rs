//! Downloading model files: resuming partial downloads, the sizes and
//! percentages reported, how often progress is reported, and the wording of
//! durations.

use vstd::prelude::*;
use crate::number::{self, format_u64};
use crate::text::{self, chars_of, push_all, string_of};

verus! {

/// How a download is going, as reported to the user.
#[derive(Debug, Clone)]
pub enum DownloadProgress {
    Started { total_files: u32 },
    FileStarted { file_name: String, file_size: Option<u32> },
    Progress { file_name: String, downloaded: u32, total: u32, bytes_per_second: Option<u32>, seconds_remaining: Option<u32> },
    FileCompleted { file_name: String },
    Completed,
    Cancelled,
    Error { message: String },
}

/// Where downloaded models are kept; implemented differently in production
/// and in tests.
pub trait ModelPathProvider {
    /// The directory under which models are stored.
    fn get_cache_dir(&self) -> Result<String, String>;
}

/// Receives the progress of a model download.
pub trait ProgressReporter {
    fn report_started(&self, total_files: u32) -> Result<(), String>;

    fn report_file_started(&self, file_name: &str, file_size: Option<u32>) -> Result<(), String>;

    fn report_progress(
        &self,
        file_name: &str,
        downloaded: u32,
        total: u32,
        bytes_per_second: Option<u32>,
        seconds_remaining: Option<u32>,
    ) -> Result<(), String>;

    fn report_file_completed(&self, file_name: &str) -> Result<(), String>;

    fn report_completed(&self) -> Result<(), String>;

    fn report_error(&self, message: &str) -> Result<(), String>;
}

/// A duration in words: seconds under a minute, minutes and seconds under an
/// hour, else hours and minutes.
pub open spec fn duration_text(seconds: u32) -> Seq<char> {
    if seconds < 60 {
        number::decimal(seconds as nat) + "s"@
    } else if seconds < 3600 {
        number::decimal((seconds / 60) as nat) + "m "@ + number::decimal((seconds % 60) as nat) + "s"@
    } else {
        number::decimal((seconds / 3600) as nat) + "h "@ + number::decimal(((seconds % 3600) / 60) as nat) + "m"@
    }
}

pub fn format_duration(seconds: u32) -> (s: String)
    ensures
        s@ == duration_text(seconds),
{
    let mut v: Vec<char>;
    if seconds < 60 {
        v = format_u64(seconds as u64);
        push_all(&mut v, &chars_of("s"));
    } else if seconds < 3600 {
        v = format_u64((seconds / 60) as u64);
        push_all(&mut v, &chars_of("m "));
        push_all(&mut v, &format_u64((seconds % 60) as u64));
        push_all(&mut v, &chars_of("s"));
    } else {
        v = format_u64((seconds / 3600) as u64);
        push_all(&mut v, &chars_of("h "));
        push_all(&mut v, &format_u64(((seconds % 3600) / 60) as u64));
        push_all(&mut v, &chars_of("m"));
    }
    string_of(&v)
}

/// The `Range` header that resumes a partial download of `resume_from`
/// bytes; none for a fresh download.
pub fn resume_header(resume_from: u64) -> (r: Option<String>)
    ensures
        resume_from == 0 ==> r is None,
        resume_from > 0 ==> (r matches Some(h) && h@ == "bytes="@ + number::decimal(resume_from as nat) + "-"@),
{
    if resume_from == 0 {
        return None;
    }
    let mut v = chars_of("bytes=");
    push_all(&mut v, &format_u64(resume_from));
    push_all(&mut v, &chars_of("-"));
    Some(string_of(&v))
}

/// A response is usable when it succeeded (2xx) or is partial content (206).
pub fn response_ok(status: u16) -> (b: bool)
    ensures
        b == (200 <= status < 300 || status == 206),
{
    (200 <= status && status < 300) || status == 206
}

/// The total size of the file: the content length, plus what was already
/// downloaded when the server resumed (206).
pub fn total_size(content_length: Option<u64>, resume_from: u64, status: u16) -> (t: u64)
    requires
        content_length matches Some(n) ==> n + resume_from <= u64::MAX,
    ensures
        t == (match content_length {
            Some(n) => n,
            None => 0,
        }) + (if resume_from > 0 && status == 206 { resume_from } else { 0 }),
{
    let len: u64 = match content_length {
        Some(n) => n,
        None => 0,
    };
    if resume_from > 0 && status == 206 {
        len + resume_from
    } else {
        len
    }
}

/// Progress is reported while streaming only for the large file (the one
/// with an expected size) when the size is known.
pub fn streams_with_progress(expected_size: Option<u32>, total: u64) -> (b: bool)
    ensures
        b == (expected_size is Some && total > 0),
{
    expected_size.is_some() && total > 0
}

/// The percentage downloaded, 0 while the total is unknown; like the cast it
/// is computed with, it keeps the low 32 bits of the quotient.
pub fn percentage(downloaded: u64, total: u64) -> (p: u32)
    requires
        downloaded * 100 <= u64::MAX,
    ensures
        total == 0 ==> p == 0,
        total > 0 ==> p == (((downloaded as int) * 100 / (total as int)) as u32),
{
    if total > 0 {
        #[verifier::truncate]
        ((downloaded * 100 / total) as u32)
    } else {
        0
    }
}

/// A progress report is sent after more than a second since the last one,
/// when the percentage grew or reached 100.
pub fn should_report_progress(elapsed_ms: u64, current_percentage: u32, last_percentage: u32) -> (b: bool)
    ensures
        b == (elapsed_ms > 1000 && (current_percentage > last_percentage || current_percentage == 100)),
{
    elapsed_ms > 1000 && (current_percentage > last_percentage || current_percentage == 100)
}

/// A byte count as reported: at most `u32::MAX`.
pub fn reported_bytes(n: u64) -> (r: u32)
    ensures
        n <= u32::MAX ==> r == n,
        n > u32::MAX ==> r == u32::MAX,
{
    if n > 4294967295 {
        4294967295
    } else {
        n as u32
    }
}

/// The files to fetch: those of the model not already present, in order.
pub fn files_to_download(names: &Vec<String>, present: &Vec<bool>) -> (r: Vec<usize>)
    requires
        present@.len() == names@.len(),
    ensures
        forall|k: int| 0 <= k < r@.len() ==> (#[trigger] r@[k]) < names@.len() && !present@[r@[k] as int],
        forall|i: int| 0 <= i < names@.len() && !present@[i] ==> r@.contains(i as usize),
        forall|a: int, b: int| 0 <= a < b < r@.len() ==> (#[trigger] r@[a]) < (#[trigger] r@[b]),
{
    let mut r: Vec<usize> = Vec::new();
    let mut i: usize = 0;
    while i < names.len()
        invariant
            i <= names@.len(),
            present@.len() == names@.len(),
            forall|k: int| 0 <= k < r@.len() ==> (#[trigger] r@[k]) < i && !present@[r@[k] as int],
            forall|j: int| 0 <= j < i && !present@[j] ==> r@.contains(j as usize),
            forall|a: int, b: int| 0 <= a < b < r@.len() ==> (#[trigger] r@[a]) < (#[trigger] r@[b]),
        decreases names.len() - i,
    {
        if !present[i] {
            let ghost before = r@;
            r.push(i);
            assert(r@[before.len() as int] == i);
            assert forall|j: int| 0 <= j < i + 1 && !present@[j] implies r@.contains(j as usize) by {
                if j < i {
                    let w = choose|w: int| 0 <= w < before.len() && before[w] == j as usize;
                    assert(r@[w] == before[w]);
                } else {
                    assert(r@[before.len() as int] == j as usize);
                }
            }
        }
        i = i + 1;
    }
    r
}

} // verus!
