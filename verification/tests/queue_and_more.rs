use velocity_downloader::listing::{batch_item_finished, batch_save_dir, newest_first_order, toggle_action, ToggleAction};
use velocity_downloader::messaging::{extension_outcome, extension_plan, ExtensionPlan};
use velocity_downloader::media::{keep_error_line, media_failure_message, MediaInfo};
use velocity_downloader::models::{DownloadKind, DownloadStatus, HttpContext};
use velocity_downloader::naming::fallback_save_name;
use velocity_downloader::planning::{source_from_media, DownloadAnalysis};
use velocity_downloader::queue::{assembly_step, batch_step, plan_queue_start, plan_queue_stop, AssemblyStep, BatchStep};
use velocity_downloader::tasks::DownloadTask;
use velocity_downloader::transfer::context_headers;
use velocity_downloader::versions::{select_update_platform, verify_update_bytes};

fn queued(id: &str, sequential: bool, group: Option<&str>, index: usize) -> DownloadTask {
    let mut t = DownloadTask::new(format!("https://x/{}", id), format!("{}.bin", id), format!("/d/{}.bin", id));
    t.id = id.to_string();
    t.scheduled_queue = true;
    t.batch_sequential = sequential;
    t.batch_group_id = group.map(|g| g.to_string());
    t.batch_queue_index = index;
    t
}

#[test]
fn scheduler_queue_splits_into_immediate_and_batches() {
    let mut other = queued("o", false, None, 0);
    other.scheduled_queue = false;
    let mut paused = queued("p", false, None, 0);
    paused.status = DownloadStatus::Paused;
    let tasks = vec![
        queued("a", false, None, 0),
        queued("b2", true, Some("g"), 2),
        other,
        queued("c", false, None, 0),
        queued("b0", true, Some("g"), 0),
        queued("solo", true, None, 5),
        queued("b1", true, Some("g"), 1),
        paused,
        queued("b1x", true, Some("g"), 1),
    ];
    let plan = plan_queue_start(&tasks);
    assert_eq!(plan.immediate, vec!["a".to_string(), "c".to_string()]);
    assert_eq!(plan.batches.len(), 2);
    assert_eq!(plan.batches[0], vec!["b0".to_string(), "b1".to_string(), "b1x".to_string(), "b2".to_string()]);
    assert_eq!(plan.batches[1], vec!["solo".to_string()]);
}

#[test]
fn batches_move_on_when_an_item_ends() {
    assert_eq!(batch_step(None), BatchStep::Next);
    assert_eq!(batch_step(Some(DownloadStatus::Completed)), BatchStep::Next);
    assert_eq!(batch_step(Some(DownloadStatus::Failed)), BatchStep::Next);
    assert_eq!(batch_step(Some(DownloadStatus::Paused)), BatchStep::Stop);
    assert_eq!(batch_step(Some(DownloadStatus::Downloading)), BatchStep::Wait);
    assert_eq!(batch_step(Some(DownloadStatus::Queued)), BatchStep::Wait);
}

#[test]
fn scheduler_stops_its_running_downloads() {
    let mut running = queued("r", false, None, 0);
    running.status = DownloadStatus::Downloading;
    let mut done = queued("d", false, None, 0);
    done.status = DownloadStatus::Completed;
    let mut manual = queued("m", false, None, 0);
    manual.scheduled_queue = false;
    manual.status = DownloadStatus::Downloading;
    let tasks = vec![running, done, manual, queued("q", false, None, 0)];
    assert_eq!(plan_queue_stop(&tasks), vec!["r".to_string(), "q".to_string()]);
}

#[test]
fn list_order_is_newest_first_and_stable() {
    let created = vec![5, 9, 5, 7, 9];
    let hidden = vec![false, false, false, true, false];
    assert_eq!(newest_first_order(&created, &hidden), vec![1, 4, 0, 2]);
    assert_eq!(newest_first_order(&vec![], &vec![]), Vec::<usize>::new());
}

#[test]
fn ytdlp_errors() {
    let mut lines = Vec::new();
    keep_error_line(&mut lines, "   ");
    assert!(lines.is_empty());
    for i in 0..25 {
        keep_error_line(&mut lines, &format!(" ERROR {} ", i));
    }
    assert_eq!(lines.len(), 20);
    assert_eq!(lines[0], "ERROR 5");
    assert_eq!(lines[19], "ERROR 24");
    assert_eq!(media_failure_message(&lines, "exit status: 1"), "ERROR 24");
    assert_eq!(media_failure_message(&vec![], "exit status: 2"), "yt-dlp exited with exit status: 2");
    assert_eq!(
        media_failure_message(&vec!["ERROR: Requested format is not available".to_string()], "x"),
        "Format unavailable, try a different quality"
    );
}

#[test]
fn request_headers_from_context() {
    let ctx = HttpContext {
        cookies: Some("a=1".to_string()),
        referer: Some(String::new()),
        user_agent: Some("UA/1".to_string()),
    };
    assert_eq!(
        context_headers(&ctx),
        vec![("Cookie".to_string(), "a=1".to_string()), ("User-Agent".to_string(), "UA/1".to_string())]
    );
    assert!(context_headers(&HttpContext::default()).is_empty());
}

#[test]
fn fallback_names_are_random_and_keep_the_name() {
    let a = fallback_save_name("file.zip");
    let b = fallback_save_name("file.zip");
    assert_ne!(a, b);
    assert!(a.ends_with("-file.zip"));
    assert_eq!(a.len(), 36 + 1 + 8);
}

#[test]
fn analysis_of_a_probed_media_page() {
    let info = MediaInfo {
        filename: "Show: Episode?.mp4".to_string(),
        filesize: None,
        content_type: Some("video/media".to_string()),
        formats: vec![],
        can_merge: false,
    };
    let source = source_from_media(&info);
    assert_eq!((source.total_size, source.kind), (0, DownloadKind::Media));
    let a = DownloadAnalysis::of_source(&source, vec![], "/d/Video/Show_ Episode_.mp4".to_string());
    assert_eq!(a.filename, "Show_ Episode_.mp4");
    assert!(a.is_media);
    assert_eq!(a.size, 0);
}

#[test]
fn update_platform_choice() {
    let keys = |v: &[&str]| v.iter().map(|s| s.to_string()).collect::<Vec<String>>();
    assert_eq!(select_update_platform(&keys(&["linux-x86_64", "windows-x86_64-msvc", "windows-x86_64"])), Some(2));
    assert_eq!(select_update_platform(&keys(&["darwin-aarch64", "windows-x86_64-msvc"])), Some(1));
    assert_eq!(select_update_platform(&keys(&["darwin", "my-windows-build-x86_64", "windows-x86_64-gnu"])), Some(1));
    assert_eq!(select_update_platform(&keys(&["windows-aarch64"])), None);
}

#[test]
fn window_actions() {
    use_toggle();
}

fn use_toggle() {
    assert_eq!(toggle_action(Some(DownloadStatus::Paused)), ToggleAction::Resume);
    assert_eq!(toggle_action(Some(DownloadStatus::Failed)), ToggleAction::Resume);
    assert_eq!(toggle_action(Some(DownloadStatus::Completed)), ToggleAction::AlreadyComplete);
    assert_eq!(toggle_action(Some(DownloadStatus::Downloading)), ToggleAction::Pause);
    assert_eq!(toggle_action(None), ToggleAction::NotFound);
    assert!(batch_item_finished(DownloadStatus::Paused));
    assert!(!batch_item_finished(DownloadStatus::Assembling));
    assert_eq!(batch_save_dir("  "), None);
    assert_eq!(batch_save_dir(" /d "), Some(" /d ".to_string()));
}

#[test]
fn extension_requests_are_routed() {
    match extension_plan("   ", false) {
        ExtensionPlan::Refuse(r) => assert!(!r.success && r.message == "URL is empty"),
        other => panic!("unexpected {:?}", other),
    }
    match extension_plan(" https://x.org/a.zip ", false) {
        ExtensionPlan::StartNow(u) => assert_eq!(u, "https://x.org/a.zip"),
        other => panic!("unexpected {:?}", other),
    }
    match extension_plan("https://www.youtube.com/watch?v=1", false) {
        ExtensionPlan::OpenDialog(u) => assert_eq!(u, "https://www.youtube.com/watch?v=1"),
        other => panic!("unexpected {:?}", other),
    }
    assert!(matches!(extension_plan("https://x.org/a.zip", true), ExtensionPlan::OpenDialog(_)));
    assert_eq!(extension_outcome(true, Ok(())).message, "Download opened in Velocity Download Manager");
    assert_eq!(extension_outcome(false, Ok(())).message, "Download started in Velocity Download Manager");
    let r = extension_outcome(false, Err("no space".to_string()));
    assert!(!r.success && r.message == "no space");
}

#[test]
fn installer_bytes_are_checked_by_their_sha256() {
    let abc = "ba7816bf8f01cfea414140de5dae2223b00361a396177a9cb410ff61f20015ad";
    assert_eq!(verify_update_bytes(b"abc", abc), Ok(()));
    assert_eq!(verify_update_bytes(b"abc", &format!("sha256:{}", abc.to_uppercase())), Ok(()));
    assert_eq!(
        verify_update_bytes(b"abd", abc),
        Err("Update verification failed. The downloaded installer hash did not match latest.json.".to_string())
    );
    assert_eq!(
        verify_update_bytes(b"abc", "not-a-hash"),
        Err("Update manifest contains an invalid sha256 value.".to_string())
    );
}

#[test]
fn hidden_pre_download_waits_for_confirmation() {
    assert_eq!(assembly_step(false, false), AssemblyStep::Assemble);
    assert_eq!(assembly_step(false, true), AssemblyStep::Assemble);
    assert_eq!(assembly_step(true, false), AssemblyStep::Wait);
    assert_eq!(assembly_step(true, true), AssemblyStep::Pause);
}
