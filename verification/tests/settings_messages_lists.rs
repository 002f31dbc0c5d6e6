use velocity_downloader::formats::{
    audio_option_from_format, best_audio_size_of, media_info_from_description, media_quality_options, rank_formats,
    requested_download_size, video_option_from_format, FormatEntry, MediaDescription,
};
use velocity_downloader::listing::{
    category_matches, is_active_download, keyboard_selection, parse_batch_urls, parse_i32, segment_status_label,
    SelectionChange,
};
use velocity_downloader::media::{
    append_http_context, build_video_fallback_selector, download_format_selector, is_html_content_type,
    is_likely_media_page_url, is_youtube_url, media_probe_contexts, output_file_path, selected_video_format,
};
use velocity_downloader::messaging::{
    browser_display_name, browser_extensions_page, frame_length, frame_message, get_browser_ext_url, process_message,
    DownloadRequest, DownloadResponse, NativeMessage,
};
use velocity_downloader::models::{DownloadStatus, HttpContext, SegmentStatus};
use velocity_downloader::settings::{
    default_segments, download_dir_or_current, parse_speed_limit_kib, settings_from_inputs, AppSettings, StateManager,
};
use velocity_downloader::tasks::DownloadTask;

fn entry(id: &str, height: Option<u64>, vcodec: &str, acodec: &str, size: Option<u64>) -> FormatEntry {
    FormatEntry {
        format_id: Some(id.to_string()),
        height,
        fps: None,
        filesize: size,
        filesize_approx: None,
        vcodec: Some(vcodec.to_string()),
        acodec: Some(acodec.to_string()),
        ext: Some("mp4".to_string()),
    }
}

#[test]
fn settings_defaults() {
    assert_eq!(default_segments(), 8);
    let s = AppSettings::default();
    assert_eq!(s.default_segments, 8);
    assert!(s.temp_download_dir.is_none() && s.speed_limit_bps.is_none());
    assert!(!s.start_on_boot && !s.extension_prompt_seen);
    assert_eq!(download_dir_or_current(None), ".");
    assert_eq!(download_dir_or_current(Some("/home/u/Downloads".to_string())), "/home/u/Downloads");
}

#[test]
fn speed_limits_in_kib() {
    assert_eq!(parse_speed_limit_kib("  "), Ok(None));
    assert_eq!(parse_speed_limit_kib(" 0 "), Ok(None));
    assert_eq!(parse_speed_limit_kib("512"), Ok(Some(524288)));
    assert_eq!(parse_speed_limit_kib("18446744073709551615"), Ok(Some(u64::MAX)));
    assert_eq!(parse_speed_limit_kib("fast"), Err("Enter a number in KB/s.".to_string()));
}

#[test]
fn settings_form_is_checked_in_order() {
    let ok = settings_from_inputs(" /d ", "  ", " 40 ", "100", true, false, true, false).unwrap();
    assert_eq!(ok.default_download_dir, "/d");
    assert_eq!(ok.default_segments, 16);
    assert_eq!(ok.speed_limit_bps, Some(102400));
    assert!(ok.temp_download_dir.is_none());
    assert!(ok.start_on_boot && ok.show_download_complete_dialog && !ok.show_add_dialog_for_extension_downloads);
    let zero = settings_from_inputs("/d", " /t ", "0", "0", false, false, false, true).unwrap();
    assert_eq!(zero.default_segments, 1);
    assert_eq!(zero.speed_limit_bps, None);
    assert_eq!(zero.temp_download_dir.as_deref(), Some("/t"));
    assert!(zero.extension_prompt_seen);
    assert_eq!(
        settings_from_inputs(" ", "", "x", "y", false, false, false, false).unwrap_err(),
        "Default save folder is required."
    );
    assert_eq!(
        settings_from_inputs("/d", "", "x", "y", false, false, false, false).unwrap_err(),
        "Connections must be a number."
    );
    assert_eq!(
        settings_from_inputs("/d", "", "4", "y", false, false, false, false).unwrap_err(),
        "Speed limit must be a number."
    );
}

#[test]
fn state_files() {
    assert_eq!(StateManager::settings_file_in("/home/u/.config"), "/home/u/.config/VelocityDownloader/settings.json");
    assert!(StateManager::is_state_file("/d/.file.zip.meta"));
    assert!(!StateManager::is_state_file("/d/file.zip"));
}

#[test]
fn native_messages_are_answered() {
    let msg = |action: &str, url: Option<&str>| NativeMessage {
        action: action.to_string(),
        url: url.map(|u| u.to_string()),
        filename: None,
        referrer: None,
        file_size: None,
        mime_type: None,
    };
    let r = process_message(msg("ping", None));
    assert!(r.success && r.message == "pong" && r.download_id.is_none());
    let r = process_message(msg("intercept_download", Some("https://x/f.zip")));
    assert!(r.success);
    assert_eq!(r.message, "Download intercepted: https://x/f.zip");
    assert_eq!(r.download_id.unwrap().len(), 36);
    let r = process_message(msg("intercept_download", None));
    assert!(!r.success && r.message == "No URL provided");
    let r = process_message(msg("get_status", None));
    assert!(r.success && r.message == "running");
    let r = process_message(msg("dance", None));
    assert!(!r.success && r.message == "Unknown action: dance");
}

#[test]
fn frames_round_trip() {
    let payload = br#"{"action":"ping"}"#.to_vec();
    let framed = frame_message(&payload);
    assert_eq!(&framed[..4], &[17, 0, 0, 0]);
    let prefix = [framed[0], framed[1], framed[2], framed[3]];
    assert_eq!(frame_length(prefix), Some(17));
    assert_eq!(&framed[4..], &payload[..]);
    assert_eq!(frame_length([0, 0, 16, 0]), Some(1048576));
    assert_eq!(frame_length([1, 0, 16, 0]), None);
}

#[test]
fn extension_requests_and_browser_pages() {
    let req = DownloadRequest {
        url: "https://x/f".to_string(),
        cookies: Some("a=b".to_string()),
        referer: None,
        user_agent: Some("UA".to_string()),
    };
    let ctx = req.http_context();
    assert_eq!(ctx.cookies.as_deref(), Some("a=b"));
    assert!(ctx.referer.is_none());
    let ok = DownloadResponse::delivered(Ok(()));
    assert!(ok.success && ok.message == "Download triggered in UI");
    let bad = DownloadResponse::delivered(Err("window closed".to_string()));
    assert!(!bad.success && bad.message == "window closed");
    assert_eq!(get_browser_ext_url("vivaldi"), "vivaldi://extensions");
    assert_eq!(get_browser_ext_url("safari"), "");
    assert_eq!(browser_extensions_page("brave"), "brave://extensions");
    assert_eq!(browser_extensions_page("firefox"), "chrome://extensions");
    assert_eq!(browser_display_name("edge"), "Microsoft Edge");
    assert_eq!(browser_display_name("x"), "Chrome");
}

#[test]
fn list_labels_and_filters() {
    assert_eq!(segment_status_label(&SegmentStatus::Pending), "Waiting");
    assert_eq!(segment_status_label(&SegmentStatus::Downloading), "Receiving data");
    let mut t = DownloadTask::new("https://x/a.mp3".to_string(), "a.mp3".to_string(), "/d/a.mp3".to_string());
    assert!(is_active_download(&t));
    assert!(category_matches(&t, "Music"));
    assert!(!category_matches(&t, "Video"));
    assert!(category_matches(&t, "Unfinished"));
    assert!(category_matches(&t, "Queues"));
    assert!(!category_matches(&t, "Grabber projects"));
    t.status = DownloadStatus::Completed;
    assert!(!is_active_download(&t));
    assert!(category_matches(&t, "Finished"));
    assert!(category_matches(&t, "All Downloads"));
}

#[test]
fn batch_lists() {
    let text = " https://a.org/x.ZIP \r\nftp://b.org/y.iso\nnot a url\nhttp://c.org/z.mp4\n";
    assert_eq!(
        parse_batch_urls(text, ""),
        vec!["https://a.org/x.ZIP".to_string(), "ftp://b.org/y.iso".to_string(), "http://c.org/z.mp4".to_string()]
    );
    assert_eq!(
        parse_batch_urls(text, " .zip, MP4 ,"),
        vec!["https://a.org/x.ZIP".to_string(), "http://c.org/z.mp4".to_string()]
    );
    assert_eq!(parse_batch_urls(text, "exe"), Vec::<String>::new());
}

#[test]
fn keyboard_selection_moves_and_clamps() {
    let chars = |s: &str| s.chars().collect::<Vec<char>>();
    assert_eq!(parse_i32(&chars("-42")), Some(-42));
    assert_eq!(parse_i32(&chars("+7")), Some(7));
    assert_eq!(parse_i32(&chars("-+7")), None);
    assert_eq!(parse_i32(&chars("2147483648")), None);
    assert_eq!(parse_i32(&chars("-2147483648")), Some(i32::MIN));
    assert_eq!(keyboard_selection("down", false, 2, -1, 0), SelectionChange::Clear);
    assert_eq!(keyboard_selection("clear", false, 2, -1, 5), SelectionChange::Clear);
    assert_eq!(keyboard_selection("select-all", false, -1, -1, 5), SelectionChange::All { primary: 0 });
    assert_eq!(keyboard_selection("down", false, 2, -1, 5), SelectionChange::One { row: 3 });
    assert_eq!(keyboard_selection("down", false, 4, -1, 5), SelectionChange::One { row: 4 });
    assert_eq!(keyboard_selection("page-up", false, 4, -1, 5), SelectionChange::One { row: 0 });
    assert_eq!(keyboard_selection("end", true, -1, -1, 5), SelectionChange::Range { row: 4, anchor: 0 });
    assert_eq!(keyboard_selection("up", true, 3, 1, 5), SelectionChange::Range { row: 2, anchor: 1 });
    assert_eq!(keyboard_selection("select-index: 7 ", false, 1, -1, 5), SelectionChange::One { row: 4 });
    assert_eq!(keyboard_selection("select-index:x", false, 1, -1, 5), SelectionChange::One { row: 1 });
    assert_eq!(keyboard_selection("jump", false, 1, -1, 5), SelectionChange::One { row: 1 });
}

#[test]
fn media_pages_and_arguments() {
    assert!(is_likely_media_page_url("https://www.youtube.com/watch?v=1"));
    assert!(is_likely_media_page_url("https://cdn.example.com/live/INDEX.M3U8"));
    assert!(!is_likely_media_page_url("https://notyoutube.com/watch"));
    assert!(!is_likely_media_page_url("nonsense"));
    assert!(is_youtube_url("https://youtu.be/abc"));
    assert!(is_html_content_type(&Some("Text/HTML".to_string())));
    assert!(!is_html_content_type(&None));
    let ctx = HttpContext { cookies: Some(" c=1 ".to_string()), referer: Some("https://r/".to_string()), user_agent: None };
    assert_eq!(media_probe_contexts("https://youtube.com/watch", &ctx).len(), 2);
    assert_eq!(media_probe_contexts("https://vimeo.com/1", &ctx).len(), 1);
    let mut args = Vec::new();
    append_http_context(&mut args, &ctx);
    assert_eq!(args, vec!["--add-header", "Cookie: c=1", "--referer", "https://r/", "--add-header", "Referer: https://r/"]);
    assert_eq!(selected_video_format("video:137:1080"), Some(("137".to_string(), Some(1080))));
    assert_eq!(selected_video_format("video-only:22"), Some(("22".to_string(), None)));
    assert_eq!(selected_video_format("audio:1"), None);
    assert_eq!(
        build_video_fallback_selector("137", Some(720)),
        "137+bestaudio[ext=m4a]/137+bestaudio/bestvideo[height<=720][vcodec^=avc1]+bestaudio[ext=m4a]/bestvideo[height<=720]+bestaudio/bestvideo+bestaudio/best"
    );
    assert_eq!(download_format_selector(&Some("audio:140".to_string()), true), ("140".to_string(), true));
    assert_eq!(download_format_selector(&Some("audio: ".to_string()), true), ("bestaudio".to_string(), true));
    assert_eq!(download_format_selector(&None, false), ("best[ext=mp4]/best".to_string(), false));
    assert_eq!(output_file_path("VELOCITY_FILE:  /d/v.mp4 "), Some("/d/v.mp4".to_string()));
    assert_eq!(output_file_path("[download] 5%"), None);
}

#[test]
fn formats_are_ranked_largest_first_and_stably() {
    let formats = vec![
        entry("a", Some(360), "avc1", "none", Some(10)),
        entry("b", Some(1080), "avc1", "none", Some(50)),
        entry("c", Some(360), "vp9", "none", Some(10)),
        entry("d", None, "none", "opus", Some(3)),
    ];
    let ranked = rank_formats(&formats);
    let ids: Vec<&str> = ranked.iter().map(|f| f.format_id.as_deref().unwrap()).collect();
    assert_eq!(ids, vec!["b", "a", "c", "d"]);
    assert_eq!(best_audio_size_of(&formats), Some(3));
}

#[test]
fn quality_choices_from_formats() {
    let formats = vec![
        entry("18", Some(360), "avc1.42001E", "mp4a.40.2", Some(100)),
        entry("137", Some(1080), "avc1.640028", "none", Some(900)),
        entry("136", Some(720), "avc1", "none", None),
        entry("399", Some(1080), "av01", "none", Some(800)),
        entry("140", None, "none", "mp4a.40.2", Some(30)),
        entry("251", None, "none", "opus", Some(40)),
        entry("140", None, "none", "mp4a.40.2", Some(30)),
        entry("x", Some(240), "avc1", "none", Some(0)),
    ];
    let opts = media_quality_options(&formats, Some(1234), true);
    let ids: Vec<&str> = opts.iter().map(|o| o.id.as_str()).collect();
    assert_eq!(ids, vec!["bestvideo+bestaudio/best", "video:137:1080", "video:136:720", "video:18:360", "audio:251", "audio:140"]);
    assert_eq!(opts[0].label, "Best available");
    assert_eq!(opts[0].filesize, Some(1234));
    assert_eq!(opts[1].label, "1080p (AVC1)");
    assert_eq!(opts[1].filesize, Some(940));
    assert!(opts[1].requires_ffmpeg);
    assert_eq!(opts[2].filesize, None);
    assert_eq!(opts[3].filesize, Some(100));
    assert!(!opts[3].requires_ffmpeg);
    assert_eq!(opts[4].label, "Audio only (OPUS)");

    let single = media_quality_options(&formats, None, false);
    assert_eq!(single[0].id, "best[ext=mp4]/best");
    assert_eq!(single[0].label, "Best single-file");
    assert_eq!(single[1].filesize, None);

    assert!(video_option_from_format(&entry("a", None, "avc1", "none", None), None).is_none());
    assert!(audio_option_from_format(&entry("a", Some(1), "avc1", "opus", None)).is_none());
}

#[test]
fn media_description_gives_name_and_size() {
    let d = MediaDescription {
        title: Some("My: Clip".to_string()),
        fulltitle: None,
        vcodec: Some("vp9".to_string()),
        ext: Some("webm".to_string()),
        requested: Some(vec![(Some(100), None), (None, Some(50)), (None, None)]),
        filesize: Some(1),
        filesize_approx: None,
        formats: vec![],
    };
    assert_eq!(requested_download_size(&d), Some(150));
    let info = media_info_from_description(&d, true);
    assert_eq!(info.filename, "My_ Clip.mp4");
    assert_eq!(info.filesize, Some(150));
    assert_eq!(info.content_type.as_deref(), Some("video/media"));
    assert_eq!(info.formats.len(), 1);
    let info = media_info_from_description(&d, false);
    assert_eq!(info.filename, "My_ Clip.webm");
    let bare = MediaDescription {
        title: None,
        fulltitle: None,
        vcodec: Some("none".to_string()),
        ext: None,
        requested: None,
        filesize: None,
        filesize_approx: Some(9),
        formats: vec![],
    };
    let info = media_info_from_description(&bare, true);
    assert_eq!(info.filename, "media.mp4");
    assert_eq!(info.filesize, Some(9));
}
