//! Download jobs and the decisions taken around each download: whether a
//! file on disk is already good, whether fetched data is acceptable, how a
//! failed attempt is retried and how a batch reports its failures.
//!
//! The transfers themselves, the worker threads and the disk are handled by
//! the caller.
use vstd::prelude::*;
use crate::digest::{sha1_bytes, sha1_hex};
use crate::text::{
    concat2, decimal, eq_ignore_ascii_case, join, join_strings, str_eq_ignore_ascii_case,
    u64_to_decimal,
};

verus! {

/// A file to fetch: its URL, its destination (components below the data
/// directory), the checksum and size it must have, and a label for progress
/// reports.
#[derive(Debug, Clone)]
pub struct DownloadTask {
    pub url: String,
    pub dest: Vec<String>,
    pub expected_sha1: Option<String>,
    pub expected_size: Option<u64>,
    pub label: String,
}

/// The content of a [`DownloadTask`].
pub struct TaskView {
    pub url: Seq<char>,
    pub dest: Seq<Seq<char>>,
    pub expected_sha1: Option<Seq<char>>,
    pub expected_size: Option<u64>,
    pub label: Seq<char>,
}

/// The characters of an optional string.
pub open spec fn opt_view(s: Option<String>) -> Option<Seq<char>> {
    match s {
        Some(x) => Some(x@),
        None => None,
    }
}

impl View for DownloadTask {
    type V = TaskView;

    open spec fn view(&self) -> TaskView {
        TaskView {
            url: self.url@,
            dest: self.dest.deep_view(),
            expected_sha1: opt_view(self.expected_sha1),
            expected_size: self.expected_size,
            label: self.label@,
        }
    }
}

impl DeepView for DownloadTask {
    type V = TaskView;

    open spec fn deep_view(&self) -> TaskView {
        self@
    }
}

/// What a download batch reports while it runs.
#[derive(Debug, Clone)]
pub enum DownloadProgress {
    Started { label: String },
    Completed,
    Failed { label: String, error: String },
    Progress { completed: usize, total: usize },
}

/// Runs download batches with a fixed number of workers.
pub struct ParallelDownloader {
    workers: usize,
}

impl ParallelDownloader {
    /// The number of worker threads.
    pub closed spec fn worker_count(&self) -> usize {
        self.workers
    }

    /// A downloader with `workers` threads, at least one.
    pub fn new(workers: usize) -> (r: Self)
        ensures
            r.worker_count() == (if workers >= 1 { workers } else { 1 }),
    {
        ParallelDownloader { workers: if workers >= 1 { workers } else { 1 } }
    }

    /// The number of worker threads.
    pub fn workers(&self) -> (r: usize)
        ensures
            r == self.worker_count(),
            r >= 1,
    {
        proof {
            use_type_invariant(self);
        }
        self.workers
    }

    #[verifier::type_invariant]
    spec fn at_least_one_worker(self) -> bool {
        self.workers >= 1
    }
}

/// How many times a file is tried before it is given up.
pub const MAX_RETRIES: u32 = 3;

/// The error kept after a failed attempt, and the pause before the next
/// attempt: attempts before the last note their number and wait 500 ms per
/// attempt made; the last keeps the bare error and is not followed by a pause.
pub open spec fn retry_outcome_spec(attempt: u32, error: Seq<char>) -> (Seq<char>, Option<u64>) {
    if attempt < MAX_RETRIES {
        (
            error + " (reintento "@ + decimal(attempt as nat) + "/"@ + decimal(MAX_RETRIES as nat)
                + ")"@,
            Some((500 * attempt) as u64),
        )
    } else {
        (error, None)
    }
}

/// Decides what follows the failed attempt number `attempt`.
pub fn retry_outcome(attempt: u32, error: String) -> (r: (String, Option<u64>))
    requires
        1 <= attempt <= MAX_RETRIES,
    ensures
        (r.0@, r.1) == retry_outcome_spec(attempt, error@),
{
    if attempt < MAX_RETRIES {
        let mut m = error;
        m.append(" (reintento ");
        let a = u64_to_decimal(attempt as u64);
        m.append(a.as_str());
        m.append("/");
        let b = u64_to_decimal(MAX_RETRIES as u64);
        m.append(b.as_str());
        m.append(")");
        (m, Some(500 * (attempt as u64)))
    } else {
        (error, None)
    }
}

/// The line recorded for a task that failed: `<label>: <error>`.
pub fn failure_line(label: &str, error: &str) -> (r: String)
    ensures
        r@ == label@ + ": "@ + error@,
{
    let mut r = concat2(label, ": ");
    r.append(error);
    r
}

/// The outcome of a batch: success when no task failed, otherwise the
/// failure lines joined by newlines.
pub fn batch_result(errors: &Vec<String>) -> (r: Result<(), String>)
    ensures
        r is Ok <==> errors@.len() == 0,
        r matches Err(m) ==> m@ == join(errors.deep_view(), "\n"@),
{
    if errors.len() == 0 {
        Ok(())
    } else {
        Err(join_strings(errors, "\n"))
    }
}

/// A file on disk already is what a task asks for: it exists, has the
/// expected size (when one is given) and the expected SHA-1 (when one is
/// given, compared without regard to ASCII case; a digest that could not be
/// computed does not match).
pub open spec fn file_is_current(
    task: TaskView,
    file_len: Option<u64>,
    actual_sha1: Option<Seq<char>>,
) -> bool {
    match file_len {
        None => false,
        Some(len) => {
            &&& (task.expected_size matches Some(size) ==> size == len)
            &&& match task.expected_sha1 {
                None => true,
                Some(expected) => match actual_sha1 {
                    Some(actual) => eq_ignore_ascii_case(actual, expected),
                    None => false,
                },
            }
        },
    }
}

/// Whether the file at a task's destination can be kept, given its length
/// (`None` when it cannot be read) and its SHA-1 (`None` when it could not be
/// computed).
pub fn file_matches(task: &DownloadTask, file_len: Option<u64>, actual_sha1: Option<&str>) -> (r:
    bool)
    ensures
        r == file_is_current(
            task@,
            file_len,
            match actual_sha1 {
                Some(a) => Some(a@),
                None => None,
            },
        ),
{
    let len = match file_len {
        None => {
            return false;
        },
        Some(l) => l,
    };
    if let Some(expected_size) = task.expected_size {
        if len != expected_size {
            return false;
        }
    }
    if let Some(expected) = &task.expected_sha1 {
        return match actual_sha1 {
            Some(actual) => str_eq_ignore_ascii_case(actual, expected.as_str()),
            None => false,
        };
    }
    true
}

/// Whether fetched data is accepted for a task: its length must equal the
/// expected size and then its SHA-1 the expected one (ASCII case ignored);
/// the first failing check gives the error, naming the destination as shown.
pub open spec fn download_verdict(task: TaskView, data: Seq<u8>, dest: Seq<char>) -> Result<
    (),
    Seq<char>,
> {
    if task.expected_size matches Some(size) && data.len() != size {
        Err(
            "Tamaño incorrecto para "@ + dest + ": esperado "@ + decimal(
                task.expected_size->0 as nat,
            ) + ", obtenido "@ + decimal(data.len()),
        )
    } else if task.expected_sha1 matches Some(expected) && !eq_ignore_ascii_case(
        sha1_hex(data),
        expected,
    ) {
        Err(
            "SHA1 incorrecto para "@ + dest + ": esperado "@ + task.expected_sha1->0
                + ", obtenido "@ + sha1_hex(data),
        )
    } else {
        Ok(())
    }
}

/// Checks fetched data against a task before it is written.
pub fn check_download(task: &DownloadTask, data: &[u8], dest_display: &str) -> (r: Result<
    (),
    String,
>)
    ensures
        match r {
            Ok(()) => download_verdict(task@, data@, dest_display@) == Ok::<(), Seq<char>>(()),
            Err(m) => download_verdict(task@, data@, dest_display@) == Err::<(), Seq<char>>(m@),
        },
{
    if let Some(expected_size) = task.expected_size {
        if (data.len() as u64) != expected_size {
            let mut m = concat2("Tamaño incorrecto para ", dest_display);
            m.append(": esperado ");
            let e = u64_to_decimal(expected_size);
            m.append(e.as_str());
            m.append(", obtenido ");
            let g = u64_to_decimal(data.len() as u64);
            m.append(g.as_str());
            return Err(m);
        }
    }
    if let Some(expected) = &task.expected_sha1 {
        let actual = sha1_bytes(data);
        if !str_eq_ignore_ascii_case(actual.as_str(), expected.as_str()) {
            let mut m = concat2("SHA1 incorrecto para ", dest_display);
            m.append(": esperado ");
            m.append(expected.as_str());
            m.append(", obtenido ");
            m.append(actual.as_str());
            return Err(m);
        }
    }
    Ok(())
}


/// Data accepted for a task has the task's size and checksum, so once
/// written it is recognised as current and not fetched again.
pub proof fn lemma_accepted_download_is_current(task: TaskView, data: Seq<u8>, dest: Seq<char>)
    requires
        data.len() <= u64::MAX,
    ensures
        download_verdict(task, data, dest) is Ok ==> {
            &&& (task.expected_size matches Some(size) ==> data.len() == size)
            &&& (task.expected_sha1 matches Some(h) ==> eq_ignore_ascii_case(sha1_hex(data), h))
            &&& file_is_current(task, Some(data.len() as u64), Some(sha1_hex(data)))
        },
{
}

} // verus!
