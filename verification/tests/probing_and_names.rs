use velocity_downloader::formats::{FormatEntry, MediaDescription};
use velocity_downloader::models::HttpContext;
use velocity_downloader::naming::first_free_name;
use velocity_downloader::probing::{
    json_line, next_probe, video_candidate_count, MediaProbePlan, ProbeMethod, ProbeNext,
};
use velocity_downloader::tasks::DownloadTask;

fn video(height: Option<u64>, vcodec: &str) -> FormatEntry {
    FormatEntry {
        format_id: Some("f".to_string()),
        height,
        fps: None,
        filesize: None,
        filesize_approx: None,
        vcodec: Some(vcodec.to_string()),
        acodec: None,
        ext: Some("mp4".to_string()),
    }
}

fn description(title: &str, formats: Vec<FormatEntry>) -> MediaDescription {
    MediaDescription {
        title: Some(title.to_string()),
        fulltitle: None,
        vcodec: None,
        ext: None,
        requested: None,
        filesize: None,
        filesize_approx: None,
        formats,
    }
}

#[test]
fn probes_go_ranged_get_head_get_then_give_up() {
    let mut errors: Vec<String> = Vec::new();
    assert!(matches!(next_probe(&errors), ProbeNext::Send(ProbeMethod::RangedGet)));
    errors.push("a".to_string());
    assert!(matches!(next_probe(&errors), ProbeNext::Send(ProbeMethod::Head)));
    errors.push("b \"q\"".to_string());
    assert!(matches!(next_probe(&errors), ProbeNext::Send(ProbeMethod::PlainGet)));
    errors.push("c".to_string());
    match next_probe(&errors) {
        ProbeNext::GiveUp(m) => assert_eq!(
            m,
            "Failed to probe URL. Range GET: Some(\"a\"), HEAD: Some(\"b \\\"q\\\"\"), GET: Some(\"c\")"
        ),
        other => panic!("unexpected {:?}", other),
    }
}

#[test]
fn video_candidates_need_a_height_and_a_video_codec() {
    let formats = vec![video(Some(720), "avc1"), video(None, "avc1"), video(Some(360), "none"), video(Some(1080), "vp9")];
    assert_eq!(video_candidate_count(&formats), 2);
}

#[test]
fn other_sites_get_one_attempt() {
    let mut plan = MediaProbePlan::new("https://vimeo.com/1", &HttpContext::default());
    let a = plan.next_attempt().unwrap();
    assert_eq!(a.extractor_args, None);
    assert!(!a.after_pause);
    plan.record(Ok(description("x", vec![])));
    assert!(plan.next_attempt().is_none());
    let d = plan.finish().unwrap();
    assert_eq!(d.title, Some("x".to_string()));
}

#[test]
fn youtube_keeps_probing_until_three_video_formats() {
    let mut plan = MediaProbePlan::new("https://www.youtube.com/watch?v=1", &HttpContext::default());
    let first = plan.next_attempt().unwrap();
    assert_eq!(first.extractor_args, None);
    plan.record(Ok(description("one", vec![video(Some(360), "avc1")])));
    let second = plan.next_attempt().unwrap();
    assert_eq!(second.extractor_args, Some("youtube:player_client=web,ios,android,mweb".to_string()));
    plan.record(Err("blocked".to_string()));
    let third = plan.next_attempt().unwrap();
    assert_eq!(third.extractor_args, Some("youtube:player_client=default,web,ios,android".to_string()));
    plan.record(Ok(description("two", vec![video(Some(360), "avc1"), video(Some(720), "avc1")])));
    let fourth = plan.next_attempt().unwrap();
    assert_eq!(fourth.extractor_args, Some("youtube:skip=dash,hls".to_string()));
    plan.record(Ok(description("zero", vec![])));
    let fifth = plan.next_attempt().unwrap();
    assert!(fifth.after_pause);
    assert_eq!(fifth.extractor_args, None);
    plan.record(Ok(description(
        "three",
        vec![video(Some(360), "avc1"), video(Some(720), "avc1"), video(Some(1080), "avc1")],
    )));
    assert!(plan.next_attempt().is_none());
    assert_eq!(plan.finish().unwrap().title, Some("three".to_string()));
}

#[test]
fn youtube_with_browser_context_tries_the_clean_context_first() {
    let ctx = HttpContext { cookies: Some("a=b".to_string()), referer: None, user_agent: None };
    let mut plan = MediaProbePlan::new("https://youtu.be/x", &ctx);
    let mut seen = 0;
    while let Some(a) = plan.next_attempt() {
        if seen < 4 {
            assert_eq!(a.context.cookies, None);
        } else if seen < 8 {
            assert_eq!(a.context.cookies, Some("a=b".to_string()));
        }
        assert_eq!(a.after_pause, seen == 8);
        plan.record(Err(format!("e{}", seen)));
        seen += 1;
    }
    assert_eq!(seen, 16);
    assert_eq!(plan.finish().unwrap_err(), "e15");
}

#[test]
fn no_description_and_no_error_is_reported() {
    let plan = MediaProbePlan::new("https://vimeo.com/1", &HttpContext::default());
    assert_eq!(plan.finish().unwrap_err(), "yt-dlp did not return media information");
}

#[test]
fn json_description_is_the_last_brace_line() {
    assert_eq!(json_line("[info] x\n{\"a\":1}\n  {\"b\":2}  \r\nend\n"), Some("{\"b\":2}".to_string()));
    assert_eq!(json_line("nothing here"), None);
}

#[test]
fn first_free_name_skips_taken_names() {
    let taken = ["a.zip", "a (1).zip"];
    assert_eq!(first_free_name("a.zip", |n: &str| taken.contains(&n)), "a (2).zip");
    assert_eq!(first_free_name("b.zip", |n: &str| taken.contains(&n)), "b.zip");
    let all = first_free_name("c.zip", |_n: &str| true);
    assert!(all.ends_with("-c.zip"));
    assert_eq!(all.len(), 37 + "c.zip".len());
}

#[test]
fn media_files_are_staged_then_moved_beside_the_save_path() {
    let t = DownloadTask::new("https://youtu.be/x".to_string(), "clip.mp4".to_string(), "/d/Video/clip.mp4".to_string());
    let staged = t.staged_media_path();
    assert_eq!(staged, format!("/d/Video/.myidm_temp_{}/clip.mp4", t.id));
    let written = format!("/d/Video/.myidm_temp_{}/clip.webm", t.id);
    assert_eq!(t.final_media_path(&written), "/d/Video/clip.webm");
}
