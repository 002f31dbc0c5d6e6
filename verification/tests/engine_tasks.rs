use velocity_downloader::engine::{calculate_segments, create_segments, single_stream_timeouts, DownloadEngineConfig};
use velocity_downloader::models::{default_download_kind, DownloadKind, DownloadStatus, HttpContext, Segment, SegmentStatus};
use velocity_downloader::tasks::DownloadTask;

const MIB: u64 = 1024 * 1024;

fn task(save_path: &str) -> DownloadTask {
    DownloadTask::new(
        "https://example.com/file.zip".to_string(),
        "file.zip".to_string(),
        save_path.to_string(),
    )
}

#[test]
fn segment_count_is_bounded_by_size_and_preference() {
    assert_eq!(calculate_segments(0, 8), 1);
    assert_eq!(calculate_segments(500, 8), 1);
    assert_eq!(calculate_segments(3 * MIB, 8), 3);
    assert_eq!(calculate_segments(100 * MIB, 8), 8);
    assert_eq!(calculate_segments(100 * MIB, 40), 16);
    assert_eq!(calculate_segments(100 * MIB, 0), 1);
}

#[test]
fn segments_partition_the_file() {
    let segs = create_segments(10, 3, "/tmp/parts");
    let ranges: Vec<(u64, u64)> = segs.iter().map(|s| (s.start_byte, s.end_byte)).collect();
    assert_eq!(ranges, vec![(0, 2), (3, 5), (6, 9)]);
    assert_eq!(segs[2].temp_file, "/tmp/parts/segment_2.part");
    assert!(segs.iter().all(|s| s.downloaded == 0 && s.status == SegmentStatus::Pending));
    let total: u64 = segs.iter().map(|s| s.total_size()).sum();
    assert_eq!(total, 10);
}

#[test]
fn segment_new_and_size() {
    let s = Segment::new(7, 100, 199, "/d");
    assert_eq!(s.id, 7);
    assert_eq!(s.total_size(), 100);
    assert_eq!(s.temp_file, "/d/segment_7.part");
    assert_eq!(default_download_kind(), DownloadKind::Direct);
}

#[test]
fn timeouts_follow_large_file_mode() {
    assert_eq!(single_stream_timeouts(DownloadEngineConfig { large_file_mode: false }), (45, 60));
    assert_eq!(single_stream_timeouts(DownloadEngineConfig { large_file_mode: true }), (120, 90));
}

#[test]
fn new_task_has_fresh_id_and_queued_state() {
    let a = task("/downloads/file.zip");
    let b = task("/downloads/file.zip");
    assert_eq!(a.id.len(), 36);
    assert_ne!(a.id, b.id);
    assert_eq!(a.status, DownloadStatus::Queued);
    assert_eq!(a.num_segments, 1);
    assert!(a.segments.is_empty());
    assert_eq!(a.created_at, a.updated_at);
}

#[test]
fn temp_dir_and_meta_path_lie_beside_the_file() {
    let mut t = task("/downloads/video/file.zip");
    let id = t.id.clone();
    assert_eq!(t.temp_dir(), format!("/downloads/video/.myidm_temp_{}", id));
    assert_eq!(t.meta_file_path(), "/downloads/video/.file.zip.meta");
    t.temp_dir_override = Some("/scratch".to_string());
    assert_eq!(t.temp_dir(), format!("/scratch/.myidm_temp_{}", id));
}

#[test]
fn configure_segments_for_range_and_single_streams() {
    let mut t = task("/d/file.zip");
    t.total_size = 4 * MIB;
    t.supports_range = true;
    t.configure_segments(8);
    assert_eq!(t.num_segments, 4);
    assert_eq!(t.segments.len(), 4);
    assert_eq!(t.segments[3].end_byte, 4 * MIB - 1);

    let mut single = task("/d/file.zip");
    single.total_size = 4 * MIB;
    single.configure_segments(8);
    assert_eq!(single.num_segments, 1);
    assert_eq!((single.segments[0].start_byte, single.segments[0].end_byte), (0, 4 * MIB - 1));

    let mut media = task("/d/clip.mp4");
    media.download_kind = DownloadKind::Media;
    media.supports_range = true;
    media.total_size = 0;
    media.configure_segments(8);
    assert_eq!(media.num_segments, 1);
    assert_eq!(media.segments[0].end_byte, 0);
}

#[test]
fn paused_single_stream_restarts_fresh() {
    let mut t = task("/d/file.zip");
    t.total_size = 100;
    t.configure_segments(8);
    t.downloaded = 40;
    t.segments[0].downloaded = 40;
    t.segments[0].status = SegmentStatus::Paused;
    t.status = DownloadStatus::Paused;
    t.prepare_start();
    assert_eq!(t.status, DownloadStatus::Downloading);
    assert_eq!(t.downloaded, 0);
    assert_eq!(t.segments[0].downloaded, 0);
    assert_eq!(t.segments[0].status, SegmentStatus::Pending);
}

#[test]
fn paused_segmented_download_keeps_progress_on_start() {
    let mut t = task("/d/file.zip");
    t.total_size = 4 * MIB;
    t.supports_range = true;
    t.configure_segments(4);
    t.downloaded = 1000;
    t.status = DownloadStatus::Paused;
    t.prepare_start();
    assert_eq!(t.downloaded, 1000);
    assert_eq!(t.status, DownloadStatus::Downloading);
}

#[test]
fn finish_completes_or_fails_unless_paused() {
    let mut t = task("/d/file.zip");
    t.total_size = 500;
    t.downloaded = 120;
    t.status = DownloadStatus::Downloading;
    assert!(t.finish(&Ok(())));
    assert_eq!(t.status, DownloadStatus::Completed);
    assert_eq!(t.downloaded, 500);

    let mut f = task("/d/file.zip");
    f.status = DownloadStatus::Downloading;
    assert!(!f.finish(&Err("connection timed out".to_string())));
    assert_eq!(f.status, DownloadStatus::Failed);
    assert_eq!(
        f.error.as_deref(),
        Some("The connection stalled or timed out. Use Retry to continue from the saved progress.")
    );

    let mut p = task("/d/file.zip");
    p.status = DownloadStatus::Paused;
    p.downloaded = 10;
    assert!(!p.finish(&Ok(())));
    assert_eq!(p.status, DownloadStatus::Paused);
    assert_eq!(p.downloaded, 10);
    assert!(!p.finish(&Err("boom".to_string())));
    assert_eq!(p.status, DownloadStatus::Paused);
    assert!(p.error.is_none());
}

#[test]
fn completed_download_cannot_be_queued() {
    let mut t = task("/d/file.zip");
    t.status = DownloadStatus::Completed;
    assert_eq!(
        t.move_to_scheduled_queue(),
        Err("Completed downloads cannot be moved to the queue.".to_string())
    );
    assert_eq!(t.status, DownloadStatus::Completed);
    assert!(!t.scheduled_queue);

    let mut q = task("/d/file.zip");
    q.status = DownloadStatus::Failed;
    assert_eq!(q.move_to_scheduled_queue(), Ok(()));
    assert_eq!(q.status, DownloadStatus::Queued);
    assert!(q.scheduled_queue);
}

#[test]
fn pause_and_requeue() {
    let mut t = task("/d/file.zip");
    t.status = DownloadStatus::Downloading;
    t.pause();
    assert_eq!(t.status, DownloadStatus::Paused);
    t.mark_queued();
    assert_eq!(t.status, DownloadStatus::Queued);
}

#[test]
fn restored_segments_count_what_is_on_disk() {
    let mut t = task("/d/file.zip");
    t.total_size = 30;
    t.supports_range = true;
    t.segments = create_segments(30, 3, "/d/tmp");
    t.status = DownloadStatus::Downloading;
    t.downloaded = 999;
    t.verify_restored_segments(&vec![Some(10), Some(4), None]);
    assert_eq!(t.status, DownloadStatus::Paused);
    assert_eq!(t.segments[0].downloaded, 10);
    assert_eq!(t.segments[0].status, SegmentStatus::Completed);
    assert_eq!(t.segments[1].downloaded, 4);
    assert_eq!(t.segments[1].status, SegmentStatus::Paused);
    assert_eq!(t.segments[2].downloaded, 0);
    assert_eq!(t.segments[2].status, SegmentStatus::Pending);
    assert_eq!(t.downloaded, 14);
}

#[test]
fn restored_part_files_longer_than_their_range_are_capped() {
    let mut t = task("/d/file.zip");
    t.supports_range = true;
    t.segments = create_segments(20, 2, "/d/tmp");
    t.status = DownloadStatus::Failed;
    t.verify_restored_segments(&vec![Some(50), Some(50)]);
    assert_eq!(t.downloaded, 20);
    assert_eq!(t.status, DownloadStatus::Failed);
}

#[test]
fn completed_history_is_normalized() {
    let mut t = task("/d/file.zip");
    t.total_size = 0;
    t.downloaded = 0;
    t.status = DownloadStatus::Failed;
    t.error = Some("x".to_string());
    t.scheduled_queue = true;
    t.normalize_completed_history_task(Some(2048));
    assert_eq!(t.status, DownloadStatus::Completed);
    assert!(t.error.is_none());
    assert!(!t.scheduled_queue);
    assert_eq!((t.total_size, t.downloaded), (2048, 2048));
    assert_eq!(t.segments.len(), 1);
    assert_eq!(t.segments[0].end_byte, 2047);
    assert_eq!(t.segments[0].downloaded, 2048);
    assert_eq!(t.segments[0].status, SegmentStatus::Completed);

    let mut u = task("/d/file.zip");
    u.total_size = 0;
    u.downloaded = 300;
    u.normalize_completed_history_task(None);
    assert_eq!((u.total_size, u.downloaded), (300, 300));

    let mut v = task("/d/file.zip");
    v.total_size = 100;
    v.downloaded = 10;
    v.segments = create_segments(100, 2, "/d/tmp");
    v.normalize_completed_history_task(None);
    assert_eq!(v.downloaded, 100);
    assert!(v.segments.iter().all(|s| s.status == SegmentStatus::Completed && s.downloaded == 50));
}

#[test]
fn segment_progress_resyncs_the_task_count() {
    let mut t = task("/d/file.zip");
    t.segments = create_segments(30, 3, "/d/tmp");
    t.downloaded = 5;
    let mut running = create_segments(30, 3, "/d/tmp");
    running[0].downloaded = 10;
    running[1].downloaded = 7;
    running[2].downloaded = 1;
    t.absorb_segments(&running);
    assert_eq!(t.downloaded, 18);
    assert_eq!(t.segments[1].downloaded, 7);

    t.fail_with_segments(&running);
    assert_eq!(t.status, DownloadStatus::Failed);

    let mut c = task("/d/file.zip");
    c.segments = create_segments(30, 3, "/d/tmp");
    c.downloaded = 2;
    c.pause_with_segments(&running);
    assert_eq!(c.status, DownloadStatus::Paused);
    assert_eq!(c.downloaded, 2);
    assert_eq!(c.segments[0].downloaded, 10);
}

#[test]
fn single_stream_progress_updates_total_and_segment() {
    let mut t = task("/d/file.zip");
    t.total_size = 100;
    t.configure_segments(8);
    t.record_single_progress(10, 0);
    assert_eq!(t.downloaded, 10);
    assert_eq!(t.total_size, 100);
    assert_eq!(t.segments[0].downloaded, 10);
    assert_eq!(t.segments[0].status, SegmentStatus::Downloading);
    t.record_single_progress(5, 400);
    assert_eq!(t.total_size, 400);
    assert_eq!(t.segments[0].end_byte, 399);
    assert_eq!(t.downloaded, 15);

    t.record_single_result(450);
    assert_eq!((t.downloaded, t.total_size), (450, 450));
    t.record_single_result(0);
    assert_eq!(t.downloaded, 450);
}

#[test]
fn media_progress_never_goes_back() {
    let mut t = task("/d/clip.mp4");
    t.download_kind = DownloadKind::Media;
    t.configure_segments(8);
    t.accept_media_total(Some(1000));
    assert_eq!(t.total_size, 1000);
    t.accept_media_total(Some(400));
    assert_eq!(t.total_size, 1000);
    assert!(t.accept_media_downloaded(Some(300)));
    assert_eq!(t.downloaded, 300);
    assert_eq!(t.status, DownloadStatus::Downloading);
    assert_eq!(t.segments[0].end_byte, 999);
    assert_eq!(t.segments[0].downloaded, 300);
    assert!(!t.accept_media_downloaded(Some(200)));
    assert_eq!(t.downloaded, 300);
    assert!(t.accept_media_downloaded(None));
    assert_eq!(t.downloaded, 300);
}

#[test]
fn media_file_path_pause_and_finalize() {
    let mut t = task("/d/clip.mp4");
    t.download_kind = DownloadKind::Media;
    t.configure_segments(8);
    t.set_media_file_path("/d/Video/Best Clip.mkv");
    assert_eq!(t.save_path, "/d/Video/Best Clip.mkv");
    assert_eq!(t.filename, "Best Clip.mkv");

    t.pause_media();
    assert_eq!(t.status, DownloadStatus::Paused);
    assert_eq!(t.segments[0].status, SegmentStatus::Paused);

    t.downloaded = 70;
    t.finalize_media(None);
    assert_eq!((t.total_size, t.downloaded), (70, 70));
    assert_eq!(t.segments[0].end_byte, 69);
    assert_eq!(t.segments[0].status, SegmentStatus::Completed);

    t.finalize_media(Some(90));
    assert_eq!((t.total_size, t.downloaded), (90, 90));
}

#[test]
fn http_context_default_is_empty() {
    let c = HttpContext::default();
    assert!(c.cookies.is_none() && c.referer.is_none() && c.user_agent.is_none());
}
