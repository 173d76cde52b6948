use morpheus_updater::config::Platform;
use morpheus_updater::download::{
    download_jobs, downloads_complete_line, http_error, FileTask, TaskEffect, TaskEvent, TaskStage,
};

fn run(file: &str, events: Vec<TaskEvent>) -> (Vec<String>, Vec<TaskEffect>, TaskStage) {
    let mut t = FileTask::new(file.to_string());
    let mut logs = Vec::new();
    let mut effects = Vec::new();
    for e in events {
        let s = t.advance(e);
        logs.extend(s.logs);
        effects.push(s.effect);
    }
    (logs, effects, t.stage)
}

#[test]
fn archive_is_downloaded_extracted_and_removed() {
    let (logs, effects, stage) = run(
        "morpheus_tux.zip",
        vec![
            TaskEvent::Start,
            TaskEvent::Downloaded(Ok(())),
            TaskEvent::Extracted(Ok(())),
            TaskEvent::Removed(Ok(())),
        ],
    );
    assert_eq!(
        effects,
        vec![TaskEffect::Download, TaskEffect::Extract, TaskEffect::RemoveArchive, TaskEffect::Done]
    );
    assert_eq!(
        logs,
        vec![
            "Starting download: morpheus_tux.zip",
            "Completed: morpheus_tux.zip",
            "Extracting: morpheus_tux.zip",
            "Extracted: morpheus_tux.zip",
            "Removed: morpheus_tux.zip",
        ]
    );
    assert_eq!(stage, TaskStage::Done);
}

#[test]
fn jar_is_only_downloaded() {
    let (logs, effects, _) = run(
        "Launcher.jar",
        vec![TaskEvent::Start, TaskEvent::Downloaded(Ok(()))],
    );
    assert_eq!(effects, vec![TaskEffect::Download, TaskEffect::Done]);
    assert_eq!(logs, vec!["Starting download: Launcher.jar", "Completed: Launcher.jar"]);
}

#[test]
fn errors_are_logged_and_end_the_task() {
    let (logs, effects, _) = run(
        "Launcher.jar",
        vec![TaskEvent::Start, TaskEvent::Downloaded(Err("HTTP error: 404 Not Found".to_string()))],
    );
    assert_eq!(effects, vec![TaskEffect::Download, TaskEffect::Done]);
    assert_eq!(logs[1], "Error: Launcher.jar -> HTTP error: 404 Not Found");

    let (logs, effects, _) = run(
        "morpheus_win.zip",
        vec![
            TaskEvent::Start,
            TaskEvent::Downloaded(Ok(())),
            TaskEvent::Extracted(Err("invalid Zip archive".to_string())),
            TaskEvent::Removed(Ok(())),
        ],
    );
    assert_eq!(effects[2], TaskEffect::Done);
    assert_eq!(effects[3], TaskEffect::Idle);
    assert_eq!(logs[3], "Extraction error: morpheus_win.zip -> invalid Zip archive");

    let (logs, _, _) = run(
        "morpheus_win.zip",
        vec![
            TaskEvent::Start,
            TaskEvent::Downloaded(Ok(())),
            TaskEvent::Extracted(Ok(())),
            TaskEvent::Removed(Err("denied".to_string())),
        ],
    );
    assert_eq!(logs.last().unwrap(), "Error removing zip: denied");
}

#[test]
fn jobs_and_messages() {
    let jobs = download_jobs(Platform::Windows);
    let pairs: Vec<(String, String)> = jobs.into_iter().map(|j| (j.file, j.url)).collect();
    assert_eq!(
        pairs,
        vec![
            (
                "morpheus_win.zip".to_string(),
                "https://morpheuslauncher.it/downloads/morpheus_win.zip".to_string()
            ),
            (
                "Launcher.jar".to_string(),
                "https://morpheuslauncher.it/downloads/Launcher.jar".to_string()
            ),
            (
                "authlib-injector.jar".to_string(),
                "https://morpheuslauncher.it/downloads/authlib-injector.jar".to_string()
            ),
        ]
    );
    assert_eq!(http_error("503 Service Unavailable"), "HTTP error: 503 Service Unavailable");
    assert_eq!(downloads_complete_line(), "All downloads and extractions completed!");
}
