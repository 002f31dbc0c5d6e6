use velocity_downloader::media::MediaInfo;
use velocity_downloader::models::{DownloadKind, DownloadStatus, HttpContext, Segment, SegmentStatus};
use velocity_downloader::planning::{
    can_use_media_analysis, choose_filename, kept_media_format, needs_media_probe, plan_task,
    planned_total, resolve_probes, save_dir_for, source_from_analysis, ProbedSource, TaskPlacement,
};
use velocity_downloader::transfer::{
    begin_segment, check_segment_response, check_single_response, content_range_total,
    extract_filename, filename_from_disposition, finish_segment, finish_single, get_probe_result,
    head_probe_result, header_u64, range_header, range_probe_result, redirect_step,
    retry_delay_secs, should_retry, RedirectStep, ResponseHead, MAX_DOWNLOAD_RETRIES,
};

fn head(status: u16) -> ResponseHead {
    ResponseHead {
        status,
        status_text: format!("{} Status", status),
        final_url: "https://files.example.com/pub/archive%20v2.zip".to_string(),
        content_length: None,
        content_range: None,
        content_type: Some("application/zip".to_string()),
        content_disposition: None,
        accept_ranges: None,
    }
}

#[test]
fn header_numbers() {
    assert_eq!(header_u64(&Some("1234".to_string())), Some(1234));
    assert_eq!(header_u64(&Some("+7".to_string())), Some(7));
    assert_eq!(header_u64(&Some(" 12".to_string())), None);
    assert_eq!(header_u64(&Some("18446744073709551616".to_string())), None);
    assert_eq!(header_u64(&None), None);
}

#[test]
fn content_range_gives_the_total() {
    assert_eq!(content_range_total(&Some("bytes 0-0/12345".to_string())), Some(12345));
    assert_eq!(content_range_total(&Some("bytes 0-1048575/ 99 ".to_string())), Some(99));
    assert_eq!(content_range_total(&Some("bytes 0-0/*".to_string())), None);
    assert_eq!(content_range_total(&Some("bytes 0-0".to_string())), None);
    assert_eq!(content_range_total(&None), None);
}

#[test]
fn disposition_names() {
    assert_eq!(
        filename_from_disposition("attachment; filename=\"report.pdf\""),
        Some("report.pdf".to_string())
    );
    assert_eq!(
        filename_from_disposition("attachment; filename*=UTF-8''na%C3%AFve%20file.txt"),
        Some("naïve file.txt".to_string())
    );
    assert_eq!(
        filename_from_disposition("inline; filename*='quoted.bin'"),
        Some("quoted.bin".to_string())
    );
    assert_eq!(filename_from_disposition("attachment"), None);
    assert_eq!(
        filename_from_disposition("filename=first.txt; filename=second.txt"),
        Some("first.txt".to_string())
    );
}

#[test]
fn filename_falls_back_to_the_url() {
    assert_eq!(
        extract_filename(&Some("attachment; filename=\"a.iso\"".to_string()), "https://x.org/b.iso", ""),
        "a.iso"
    );
    assert_eq!(extract_filename(&None, "https://x.org/dir/b%20c.iso", ""), "b c.iso");
    assert_eq!(extract_filename(&Some("attachment; filename=\"\"".to_string()), "https://x.org/b.iso", ""), "b.iso");
    assert_eq!(extract_filename(&None, "https://x.org/", ""), "download");
    assert_eq!(extract_filename(&None, "", "https://x.org/c.bin"), "c.bin");
    assert_eq!(extract_filename(&None, "not a url", ""), "download");
}

#[test]
fn ranged_probe_reads_206_and_200() {
    let mut h = head(206);
    h.content_range = Some("bytes 0-0/5000".to_string());
    h.content_length = Some("1".to_string());
    let (size, ranges, ct, name) = range_probe_result(&h).unwrap();
    assert_eq!((size, ranges), (5000, true));
    assert_eq!(ct.as_deref(), Some("application/zip"));
    assert_eq!(name, "archive v2.zip");

    let mut ok = head(200);
    ok.content_length = Some("777".to_string());
    let (size, ranges, _, _) = range_probe_result(&ok).unwrap();
    assert_eq!((size, ranges), (777, false));

    let mut unknown = head(206);
    unknown.content_range = Some("bytes 0-0/*".to_string());
    let (size, ranges, _, _) = range_probe_result(&unknown).unwrap();
    assert_eq!((size, ranges), (0, false));

    assert_eq!(range_probe_result(&head(404)).unwrap_err(), "Range GET returned status 404");
}

#[test]
fn head_and_get_probes() {
    let mut h = head(200);
    h.content_length = Some("100".to_string());
    h.accept_ranges = Some("Bytes".to_string());
    let (size, ranges, _, _) = head_probe_result(&h).unwrap();
    assert_eq!((size, ranges), (100, true));
    h.accept_ranges = Some("none".to_string());
    assert!(!head_probe_result(&h).unwrap().1);
    assert_eq!(head_probe_result(&head(500)).unwrap_err(), "HEAD returned status: 500 Status");
    assert_eq!(get_probe_result(&head(403)).unwrap_err(), "GET returned status: 403 Status");
    let (size, ranges, _, _) = get_probe_result(&h).unwrap();
    assert_eq!((size, ranges), (100, false));
}

#[test]
fn redirects() {
    let cur = "https://a.example.com/start?x=1";
    assert!(matches!(
        redirect_step(cur, 302, &Some("https://b.example.com/f".to_string()), 0),
        RedirectStep::Follow(u) if u == "https://b.example.com/f"
    ));
    assert!(matches!(
        redirect_step(cur, 301, &Some("/next/file.bin".to_string()), 0),
        RedirectStep::Follow(u) if u == "https://a.example.com/next/file.bin?x=1"
    ));
    assert!(matches!(redirect_step(cur, 302, &Some("relative".to_string()), 0), RedirectStep::Deliver));
    assert!(matches!(redirect_step(cur, 302, &None, 0), RedirectStep::Deliver));
    assert!(matches!(redirect_step(cur, 200, &Some("https://b/".to_string()), 0), RedirectStep::Deliver));
    assert!(matches!(
        redirect_step(cur, 302, &Some("https://b.example.com/f".to_string()), 9),
        RedirectStep::Follow(_)
    ));
    assert!(matches!(
        redirect_step(cur, 302, &Some("https://b.example.com/f".to_string()), 10),
        RedirectStep::TooMany
    ));
    assert!(matches!(redirect_step(cur, 200, &None, 10), RedirectStep::Deliver));
}

#[test]
fn segment_requests_resume_where_they_stopped() {
    assert_eq!(range_header(0, 1048575), "bytes=0-1048575");
    let mut s = Segment::new(0, 100, 199, "/t");
    s.downloaded = 30;
    assert_eq!(begin_segment(&mut s), Some((130, 199)));
    assert_eq!(s.status, SegmentStatus::Downloading);
    s.downloaded = 100;
    assert_eq!(begin_segment(&mut s), None);
    assert_eq!(s.status, SegmentStatus::Completed);
}

#[test]
fn segment_response_checks() {
    let mut s = Segment::new(3, 0, 9, "/t");
    assert_eq!(check_segment_response(&mut s, 206, &Some("application/zip".to_string()), ""), Ok(()));
    assert_eq!(s.status, SegmentStatus::Pending);
    assert_eq!(
        check_segment_response(&mut s, 200, &None, ""),
        Err("Server does not support Range requests (returned 200 instead of 206). Cannot do multi-segment download.".to_string())
    );
    assert_eq!(s.status, SegmentStatus::Failed);
    let body = "x".repeat(300);
    let err = check_segment_response(&mut s, 503, &None, &body).unwrap_err();
    assert_eq!(err, format!("Segment 3 server returned status 503: {}", "x".repeat(200)));
    assert_eq!(
        check_segment_response(&mut s, 206, &Some("Text/HTML; charset=utf-8".to_string()), ""),
        Err("Failed: got HTML page instead of file, possible session or cookie issue".to_string())
    );
}

#[test]
fn single_response_checks() {
    assert_eq!(check_single_response(200, "200 OK", &None, ""), Ok(()));
    assert_eq!(
        check_single_response(404, "404 Not Found", &None, "gone"),
        Err("Server returned status 404 Not Found: gone".to_string())
    );
    let long = "é".repeat(300);
    let err = check_single_response(500, "500 Internal Server Error", &None, &long).unwrap_err();
    assert_eq!(err, format!("Server returned status 500 Internal Server Error: {}", "é".repeat(250)));
    assert!(check_single_response(200, "200 OK", &Some("text/html".to_string()), "").is_err());
}

#[test]
fn transfers_that_end_early_fail() {
    let mut s = Segment::new(0, 0, 9, "/t");
    assert_eq!(finish_segment(&mut s, 4, 10), Err("Premature EOF (4 of 10 bytes)".to_string()));
    assert_eq!(s.status, SegmentStatus::Failed);
    assert_eq!(finish_segment(&mut s, 10, 10), Ok(()));
    assert_eq!(s.status, SegmentStatus::Completed);
    assert_eq!(finish_single(5, 9), Err("Premature EOF (5 of 9 bytes)".to_string()));
    assert_eq!(finish_single(5, 0), Ok(()));
    assert_eq!(finish_single(9, 9), Ok(()));
}

#[test]
fn retry_policy_and_backoff() {
    assert!(should_retry(false, false, 0, "Stream error"));
    assert!(!should_retry(true, false, 0, ""));
    assert!(!should_retry(false, true, 0, "x"));
    assert!(!should_retry(false, false, MAX_DOWNLOAD_RETRIES, "x"));
    assert!(!should_retry(false, false, 1, "Failed: got HTML page instead of file, possible session or cookie issue"));
    assert!(!should_retry(false, false, 1, "Server does not support Range requests (returned 200 instead of 206). Cannot do multi-segment download."));
    let delays: Vec<u64> = (1..10).map(retry_delay_secs).collect();
    assert_eq!(delays, vec![1, 2, 4, 8, 16, 20, 20, 20, 20]);
}

#[test]
fn media_analysis_can_stand_in_for_a_probe() {
    let name = Some("clip.mp4".to_string());
    let fmt = Some("video:137:1080".to_string());
    assert!(can_use_media_analysis(true, &name, &fmt, Some(10)));
    assert!(!can_use_media_analysis(true, &Some("  ".to_string()), &fmt, Some(10)));
    assert!(!can_use_media_analysis(true, &name, &fmt, Some(0)));
    assert!(!can_use_media_analysis(false, &name, &fmt, Some(10)));
    let s = source_from_analysis(&None, Some(42));
    assert_eq!((s.total_size, s.supports_range, s.filename.as_str()), (42, false, "media.mp4"));
    assert_eq!(s.content_type.as_deref(), Some("video/media"));
}

#[test]
fn probes_resolve_in_order() {
    let direct_ok: Result<(u64, bool, Option<String>, String), String> =
        Ok((10, true, Some("application/zip".to_string()), "a.zip".to_string()));
    assert!(!needs_media_probe(&direct_ok));
    let s = resolve_probes(&direct_ok, &None).unwrap();
    assert_eq!((s.total_size, s.supports_range, s.kind), (10, true, DownloadKind::Direct));

    let html: Result<(u64, bool, Option<String>, String), String> =
        Ok((0, false, Some("text/html".to_string()), "watch".to_string()));
    assert!(needs_media_probe(&html));
    let info = MediaInfo {
        filename: "Clip.mp4".to_string(),
        filesize: Some(99),
        content_type: Some("video/media".to_string()),
        formats: vec![],
        can_merge: true,
    };
    let s = resolve_probes(&html, &Some(Ok(info))).unwrap();
    assert_eq!((s.total_size, s.kind, s.filename.as_str()), (99, DownloadKind::Media, "Clip.mp4"));
    let s = resolve_probes(&html, &Some(Err("no".to_string()))).unwrap();
    assert_eq!(s.kind, DownloadKind::Direct);

    let failed: Result<(u64, bool, Option<String>, String), String> = Err("probe failed".to_string());
    assert!(needs_media_probe(&failed));
    assert_eq!(resolve_probes(&failed, &Some(Err("x".to_string()))).unwrap_err(), "probe failed");
}

#[test]
fn names_folders_and_sizes_of_new_downloads() {
    assert_eq!(choose_filename(&Some("  ".to_string()), "a<b>.zip"), "a_b_.zip");
    assert_eq!(choose_filename(&Some("dir/my:file.pdf".to_string()), "x.zip"), "my_file.pdf");
    assert_eq!(planned_total(DownloadKind::Media, 5, Some(9)), 9);
    assert_eq!(planned_total(DownloadKind::Media, 5, Some(0)), 5);
    assert_eq!(planned_total(DownloadKind::Direct, 5, Some(9)), 5);
    assert_eq!(save_dir_for(&None, "/home/u/Downloads", "movie.MKV"), ("/home/u/Downloads/Video".to_string(), true));
    assert_eq!(save_dir_for(&Some("/tmp/x".to_string()), "/home/u/Downloads", "a.zip"), ("/tmp/x".to_string(), false));
    assert_eq!(kept_media_format(&Some(" ".to_string())), None);
    assert_eq!(kept_media_format(&Some("best".to_string())), Some("best".to_string()));
}

#[test]
fn planned_task_takes_source_and_settings() {
    let source = ProbedSource {
        total_size: 3 * 1024 * 1024,
        supports_range: true,
        content_type: Some("application/zip".to_string()),
        filename: "a.zip".to_string(),
        kind: DownloadKind::Direct,
    };
    let placement = TaskPlacement {
        save_path: "/d/Compressed/a (1).zip".to_string(),
        temp_dir_override: None,
        speed_limit_bps: Some(2048),
        default_segments: 8,
        scheduled_queue: true,
        batch_group_id: Some("g".to_string()),
        batch_sequential: true,
        batch_queue_index: 2,
    };
    let t = plan_task("https://x/a.zip".to_string(), "a.zip", source, None, HttpContext::default(), placement);
    assert_eq!(t.filename, "a (1).zip");
    assert_eq!(t.status, DownloadStatus::Queued);
    assert_eq!(t.num_segments, 3);
    assert_eq!(t.segments.len(), 3);
    assert_eq!(t.segments[0].start_byte, 0);
    assert_eq!(t.segments[2].end_byte, 3 * 1024 * 1024 - 1);
    assert!(t.segments.iter().all(|s| s.downloaded == 0));
    assert_eq!(t.speed_limit_bps, Some(2048));
    assert!(t.scheduled_queue && t.batch_sequential);
    assert_eq!(t.batch_queue_index, 2);
}

#[test]
fn extended_disposition_name_takes_priority() {
    assert_eq!(
        filename_from_disposition("attachment; filename=\"a.txt\"; filename*=UTF-8''b%20c.txt"),
        Some("b c.txt".to_string())
    );
    assert_eq!(
        filename_from_disposition("attachment; filename*=utf-8''b%20c.txt; filename=\"a.txt\""),
        Some("b c.txt".to_string())
    );
    assert_eq!(
        extract_filename(
            &Some("attachment; filename=\"a.txt\"; filename*=UTF-8''b%20c.txt".to_string()),
            "https://x.org/z.bin",
            ""
        ),
        "b c.txt"
    );
}

#[test]
fn first_retry_waits_one_second() {
    assert_eq!(retry_delay_secs(1), 1);
    assert_eq!(retry_delay_secs(5), 16);
    assert_eq!(retry_delay_secs(6), 20);
    assert_eq!(retry_delay_secs(100), 20);
}
