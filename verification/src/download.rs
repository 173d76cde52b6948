use vstd::prelude::*;

use crate::config::{build_url, package_files, package_files_text, url_text, Platform};
use crate::text::{has_suffix, str_ends_with, views};

verus! {

/// One file to fetch: its name and the address it comes from.
pub struct DownloadJob {
    pub file: String,
    pub url: String,
}

/// What the outside world reports back to a file's task.
#[derive(Debug)]
pub enum TaskEvent {
    /// The task starts.
    Start,
    /// The download ended, or failed with this error.
    Downloaded(Result<(), String>),
    /// The archive was unpacked, or unpacking failed with this error.
    Extracted(Result<(), String>),
    /// The archive was deleted, or deleting it failed with this error.
    Removed(Result<(), String>),
}

/// What a file's task asks for next.
#[derive(Debug, PartialEq, Eq)]
pub enum TaskEffect {
    /// Download the file, through a temporary `.part` file that is renamed at the end.
    Download,
    /// Unpack the downloaded archive into the installation directory.
    Extract,
    /// Delete the downloaded archive.
    RemoveArchive,
    /// The task is over.
    Done,
    /// Nothing to do.
    Idle,
}

/// Where a file's task stands.
#[derive(Debug, PartialEq, Eq, Structural, Clone, Copy)]
pub enum TaskStage {
    Pending,
    Downloading,
    Extracting,
    Removing,
    Done,
}

/// The outcome of one event of a task: lines for the log, then one effect.
pub struct TaskStep {
    pub logs: Vec<String>,
    pub effect: TaskEffect,
}

/// The work done for one package file: download it, and unpack and delete it when it is an
/// archive.
pub struct FileTask {
    pub file: String,
    pub stage: TaskStage,
}

/// The next stage, the lines logged and the effect asked for, when `event` comes to the task of
/// `file` at `stage`.
pub open spec fn task_transition(file: Seq<char>, stage: TaskStage, event: TaskEvent) -> (
    TaskStage,
    Seq<Seq<char>>,
    TaskEffect,
) {
    match (stage, event) {
        (TaskStage::Pending, TaskEvent::Start) => (
            TaskStage::Downloading,
            seq!["Starting download: "@ + file],
            TaskEffect::Download,
        ),
        (TaskStage::Downloading, TaskEvent::Downloaded(Err(e))) => (
            TaskStage::Done,
            seq!["Error: "@ + file + " -> "@ + e@],
            TaskEffect::Done,
        ),
        (TaskStage::Downloading, TaskEvent::Downloaded(Ok(()))) => if has_suffix(file, ".zip"@) {
            (
                TaskStage::Extracting,
                seq!["Completed: "@ + file, "Extracting: "@ + file],
                TaskEffect::Extract,
            )
        } else {
            (TaskStage::Done, seq!["Completed: "@ + file], TaskEffect::Done)
        },
        (TaskStage::Extracting, TaskEvent::Extracted(Err(e))) => (
            TaskStage::Done,
            seq!["Extraction error: "@ + file + " -> "@ + e@],
            TaskEffect::Done,
        ),
        (TaskStage::Extracting, TaskEvent::Extracted(Ok(()))) => (
            TaskStage::Removing,
            seq!["Extracted: "@ + file],
            TaskEffect::RemoveArchive,
        ),
        (TaskStage::Removing, TaskEvent::Removed(Err(e))) => (
            TaskStage::Done,
            seq!["Error removing zip: "@ + e@],
            TaskEffect::Done,
        ),
        (TaskStage::Removing, TaskEvent::Removed(Ok(()))) => (
            TaskStage::Done,
            seq!["Removed: "@ + file],
            TaskEffect::Done,
        ),
        (s, _) => (s, seq![], TaskEffect::Idle),
    }
}

/// The stage and the effects, in order, after `events` come to the task of `file`.
pub open spec fn task_run(file: Seq<char>, stage: TaskStage, events: Seq<TaskEvent>) -> (
    TaskStage,
    Seq<TaskEffect>,
)
    decreases events.len(),
{
    if events.len() == 0 {
        (stage, seq![])
    } else {
        let (s, effects) = task_run(file, stage, events.drop_last());
        let (s2, _, e) = task_transition(file, s, events.last());
        (s2, effects.push(e))
    }
}

proof fn lemma_task_run_prefix(file: Seq<char>, events: Seq<TaskEvent>, i: int)
    requires
        0 <= i < events.len(),
    ensures
        task_run(file, TaskStage::Pending, events).1.len() == events.len(),
        task_run(file, TaskStage::Pending, events).1[i] == task_transition(
            file,
            task_run(file, TaskStage::Pending, events.take(i)).0,
            events[i],
        ).2,
    decreases events.len(),
{
    let d = events.drop_last();
    if i == events.len() - 1 {
        assert(events.take(i) =~= d);
        if d.len() > 0 {
            lemma_task_run_prefix(file, d, d.len() - 1);
        }
    } else {
        lemma_task_run_prefix(file, d, i);
        assert(d.take(i) =~= events.take(i));
    }
}

proof fn lemma_extracting_invariant(file: Seq<char>, events: Seq<TaskEvent>)
    ensures
        task_run(file, TaskStage::Pending, events).1.len() == events.len(),
        task_run(file, TaskStage::Pending, events).0 == TaskStage::Extracting ==> exists|j: int|
            0 <= j < events.len() && #[trigger] task_run(file, TaskStage::Pending, events).1[j]
                == TaskEffect::Extract,
    decreases events.len(),
{
    if events.len() > 0 {
        let d = events.drop_last();
        lemma_extracting_invariant(file, d);
        let r = task_run(file, TaskStage::Pending, d);
        let effects = task_run(file, TaskStage::Pending, events).1;
        if task_run(file, TaskStage::Pending, events).0 == TaskStage::Extracting {
            if r.0 == TaskStage::Extracting {
                let j: int = choose|j: int| 0 <= j < d.len() && #[trigger] r.1[j] == TaskEffect::Extract;
                assert(effects[j] == TaskEffect::Extract);
            } else {
                assert(effects[events.len() - 1] == TaskEffect::Extract);
            }
        }
    }
}

/// Only an archive is unpacked, and only once it was downloaded.
pub proof fn lemma_only_archives_extracted(file: Seq<char>, events: Seq<TaskEvent>, i: int)
    requires
        0 <= i < events.len(),
        task_run(file, TaskStage::Pending, events).1[i] == TaskEffect::Extract,
    ensures
        has_suffix(file, ".zip"@),
        events[i] matches TaskEvent::Downloaded(Ok(_)),
{
    lemma_task_run_prefix(file, events, i);
}

/// An archive is deleted only once it was unpacked without error.
pub proof fn lemma_archive_removed_after_extraction(
    file: Seq<char>,
    events: Seq<TaskEvent>,
    i: int,
)
    requires
        0 <= i < events.len(),
        task_run(file, TaskStage::Pending, events).1[i] == TaskEffect::RemoveArchive,
    ensures
        events[i] matches TaskEvent::Extracted(Ok(_)),
        exists|j: int|
            0 <= j < i && #[trigger] task_run(file, TaskStage::Pending, events).1[j]
                == TaskEffect::Extract,
{
    lemma_task_run_prefix(file, events, i);
    let pre = events.take(i);
    lemma_extracting_invariant(file, pre);
    let j: int = choose|j: int|
        0 <= j < pre.len() && #[trigger] task_run(file, TaskStage::Pending, pre).1[j]
            == TaskEffect::Extract;
    lemma_task_run_prefix(file, events, j);
    lemma_task_run_prefix(file, pre, j);
    assert(pre.take(j) =~= events.take(j));
}

/// A failed download ends the task of any file, archive or not: the error is logged and the task
/// is done.
pub proof fn lemma_download_error_ends_task(file: Seq<char>, err: String)
    ensures
        task_transition(file, TaskStage::Downloading, TaskEvent::Downloaded(Err(err))) == (
            TaskStage::Done,
            seq!["Error: "@ + file + " -> "@ + err@],
            TaskEffect::Done,
        ),
{
}

proof fn lemma_pending_from_pending(file: Seq<char>, stage: TaskStage, event: TaskEvent)
    ensures
        task_transition(file, stage, event).0 == TaskStage::Pending ==> stage == TaskStage::Pending
            && task_transition(file, stage, event).2 == TaskEffect::Idle,
        task_transition(file, stage, event).2 == TaskEffect::Download ==> stage
            == TaskStage::Pending,
{
}

proof fn lemma_pending_means_idle(file: Seq<char>, events: Seq<TaskEvent>)
    ensures
        task_run(file, TaskStage::Pending, events).1.len() == events.len(),
        task_run(file, TaskStage::Pending, events).0 == TaskStage::Pending ==> forall|m: int|
            0 <= m < events.len() ==> #[trigger] task_run(file, TaskStage::Pending, events).1[m]
                == TaskEffect::Idle,
    decreases events.len(),
{
    if events.len() > 0 {
        let d = events.drop_last();
        lemma_pending_means_idle(file, d);
        let r = task_run(file, TaskStage::Pending, d);
        lemma_pending_from_pending(file, r.0, events.last());
    }
}

/// Each file is downloaded at most once: no task asks for a second download, whatever comes back.
pub proof fn lemma_single_download(file: Seq<char>, events: Seq<TaskEvent>, i: int, j: int)
    requires
        0 <= i < events.len(),
        0 <= j < events.len(),
        task_run(file, TaskStage::Pending, events).1[i] == TaskEffect::Download,
        task_run(file, TaskStage::Pending, events).1[j] == TaskEffect::Download,
    ensures
        i == j,
{
    if i != j {
        let (a, b) = if i < j { (i, j) } else { (j, i) };
        lemma_task_run_prefix(file, events, a);
        lemma_task_run_prefix(file, events, b);
        let pre = events.take(b);
        lemma_pending_from_pending(file, task_run(file, TaskStage::Pending, pre).0, events[b]);
        lemma_pending_means_idle(file, pre);
        lemma_task_run_prefix(file, pre, a);
        assert(pre.take(a) =~= events.take(a));
        assert(pre[a] == events[a]);
        assert(task_run(file, TaskStage::Pending, pre).1[a] == TaskEffect::Idle);
    }
}

fn lines1(a: String) -> (r: Vec<String>)
    ensures
        views(r@) == seq![a@],
{
    let mut r: Vec<String> = Vec::new();
    r.push(a);
    assert(views(r@) =~= seq![a@]);
    r
}

fn lines2(a: String, b: String) -> (r: Vec<String>)
    ensures
        views(r@) == seq![a@, b@],
{
    let mut r: Vec<String> = Vec::new();
    r.push(a);
    r.push(b);
    assert(views(r@) =~= seq![a@, b@]);
    r
}

fn task_step(logs: Vec<String>, effect: TaskEffect) -> (s: TaskStep)
    ensures
        s.logs == logs,
        s.effect == effect,
{
    TaskStep { logs, effect }
}

impl FileTask {
    /// The task of `file`, not started.
    pub fn new(file: String) -> (t: FileTask)
        ensures
            t.file == file,
            t.stage == TaskStage::Pending,
    {
        FileTask { file, stage: TaskStage::Pending }
    }

    /// Takes in what the last effect produced, and says what to log and do next.
    pub fn advance(&mut self, event: TaskEvent) -> (s: TaskStep)
        ensures
            final(self).file == old(self).file,
            (final(self).stage, views(s.logs@), s.effect) == task_transition(
                old(self).file@,
                old(self).stage,
                event,
            ),
    {
        let f = self.file.as_str();
        let (next, s) = match (self.stage, event) {
            (TaskStage::Pending, TaskEvent::Start) => (
                TaskStage::Downloading,
                task_step(
                    lines1(String::from_str("Starting download: ").concat(f)),
                    TaskEffect::Download,
                ),
            ),
            (TaskStage::Downloading, TaskEvent::Downloaded(Err(e))) => (
                TaskStage::Done,
                task_step(
                    lines1(String::from_str("Error: ").concat(f).concat(" -> ").concat(e.as_str())),
                    TaskEffect::Done,
                ),
            ),
            (TaskStage::Downloading, TaskEvent::Downloaded(Ok(()))) => {
                let done = String::from_str("Completed: ").concat(f);
                if str_ends_with(f, ".zip") {
                    (
                        TaskStage::Extracting,
                        task_step(
                            lines2(done, String::from_str("Extracting: ").concat(f)),
                            TaskEffect::Extract,
                        ),
                    )
                } else {
                    (TaskStage::Done, task_step(lines1(done), TaskEffect::Done))
                }
            },
            (TaskStage::Extracting, TaskEvent::Extracted(Err(e))) => (
                TaskStage::Done,
                task_step(
                    lines1(
                        String::from_str("Extraction error: ").concat(f).concat(" -> ").concat(
                            e.as_str(),
                        ),
                    ),
                    TaskEffect::Done,
                ),
            ),
            (TaskStage::Extracting, TaskEvent::Extracted(Ok(()))) => (
                TaskStage::Removing,
                task_step(
                    lines1(String::from_str("Extracted: ").concat(f)),
                    TaskEffect::RemoveArchive,
                ),
            ),
            (TaskStage::Removing, TaskEvent::Removed(Err(e))) => (
                TaskStage::Done,
                task_step(
                    lines1(String::from_str("Error removing zip: ").concat(e.as_str())),
                    TaskEffect::Done,
                ),
            ),
            (TaskStage::Removing, TaskEvent::Removed(Ok(()))) => (
                TaskStage::Done,
                task_step(lines1(String::from_str("Removed: ").concat(f)), TaskEffect::Done),
            ),
            (st, _) => (st, task_step(Vec::new(), TaskEffect::Idle)),
        };
        proof {
            if s.effect == TaskEffect::Idle {
                assert(views(s.logs@) =~= Seq::<Seq<char>>::empty());
            }
        }
        self.stage = next;
        s
    }
}

/// The files to download for `p`, each with its address, in order.
pub fn download_jobs(p: Platform) -> (jobs: Vec<DownloadJob>)
    ensures
        jobs.len() == package_files_text(p).len(),
        forall|i: int|
            0 <= i < jobs.len() ==> #[trigger] jobs[i].file@ == package_files_text(p)[i]
                && jobs[i].url@ == url_text(package_files_text(p)[i]),
{
    let files = package_files(p);
    let mut jobs: Vec<DownloadJob> = Vec::new();
    let mut i: usize = 0;
    while i < files.len()
        invariant
            i <= files.len(),
            files@.map_values(|s: String| s@) == package_files_text(p),
            jobs.len() == i,
            forall|k: int|
                0 <= k < i ==> #[trigger] jobs[k].file@ == package_files_text(p)[k]
                    && jobs[k].url@ == url_text(package_files_text(p)[k]),
        decreases files.len() - i,
    {
        let file = files[i].clone();
        let url = build_url(file.as_str());
        proof {
            assert(files@.map_values(|s: String| s@)[i as int] == files@[i as int]@);
        }
        jobs.push(DownloadJob { file, url });
        i = i + 1;
    }
    jobs
}

/// The error of a download that the server answered with a status other than success.
pub fn http_error(status: &str) -> (msg: String)
    ensures
        msg@ == "HTTP error: "@ + status@,
{
    String::from_str("HTTP error: ").concat(status)
}

/// The line logged once every package was handled.
pub fn downloads_complete_line() -> (msg: String)
    ensures
        msg@ == "All downloads and extractions completed!"@,
{
    String::from_str("All downloads and extractions completed!")
}

} // verus!
