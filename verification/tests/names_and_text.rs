use velocity_downloader::messages::friendly_error;
use velocity_downloader::naming::{candidate_file_name, category_for_filename, meta_file_name, sanitize_component, sanitize_filename};
use velocity_downloader::schedule::{
    parse_schedule_time, schedule_time_to_picker, scheduler_tick, time_picker_to_schedule_time, SchedulerAction,
    SchedulerConfig,
};
use velocity_downloader::selection::{clamp_row_index, encode_selected_ids, ids_for_range, parse_selected_ids};
use velocity_downloader::versions::{
    compare_versions, powershell_single_quoted, sanitize_version_for_filename, verify_update_sha256_hex, version_parts,
};

#[test]
fn file_names_are_made_safe() {
    assert_eq!(sanitize_filename("report<2024>:final?.pdf"), "report_2024__final_.pdf");
    assert_eq!(sanitize_filename("/some/dir/  ..name.txt..  "), "name.txt");
    assert_eq!(sanitize_filename("..."), "download");
    assert_eq!(sanitize_filename("tab\there.bin"), "tab_here.bin");
    assert_eq!(sanitize_component("My Video: Part 1.mp4"), "My Video_ Part 1.mp4");
    assert_eq!(sanitize_component(" . "), "media.mp4");
}

#[test]
fn categories_follow_the_extension() {
    assert_eq!(category_for_filename("movie.MKV"), "Video");
    assert_eq!(category_for_filename("song.flac"), "Music");
    assert_eq!(category_for_filename("backup.tar.gz"), "Compressed");
    assert_eq!(category_for_filename("setup.AppImage"), "Programs");
    assert_eq!(category_for_filename("notes.txt"), "Documents");
    assert_eq!(category_for_filename("README"), "General");
}

#[test]
fn free_name_candidates_and_state_files() {
    assert_eq!(candidate_file_name("file.zip", 0), "file.zip");
    assert_eq!(candidate_file_name("file.zip", 3), "file (3).zip");
    assert_eq!(candidate_file_name("archive.tar.gz", 1), "archive.tar (1).gz");
    assert_eq!(candidate_file_name("README", 2), "README (2)");
    assert_eq!(meta_file_name("file.zip"), ".file.zip.meta");
}

#[test]
fn errors_are_explained_to_the_user() {
    assert_eq!(
        friendly_error("Failed: got HTML page instead of file"),
        "The server returned a web page instead of the file. The link may require a fresh login, cookies, or a refreshed URL."
    );
    assert_eq!(friendly_error("Disk full"), "Not enough disk space for this download.");
    assert_eq!(friendly_error("Too many redirects"), "The link redirected too many times. The URL may be expired or protected.");
    assert_eq!(friendly_error("something odd"), "something odd");
}

#[test]
fn schedule_times_round_trip() {
    assert_eq!(time_picker_to_schedule_time(12, 5, false), "00:05");
    assert_eq!(time_picker_to_schedule_time(7, 30, true), "19:30");
    assert_eq!(time_picker_to_schedule_time(15, 99, false), "00:59");
    assert_eq!(parse_schedule_time(" 19 : 30 "), Some((19, 30)));
    assert_eq!(parse_schedule_time("24:00"), None);
    assert_eq!(parse_schedule_time("7"), None);
    assert_eq!(schedule_time_to_picker("00:05"), Some((12, 5, false)));
    assert_eq!(schedule_time_to_picker("19:30"), Some((7, 30, true)));
    let t = time_picker_to_schedule_time(9, 15, true);
    assert_eq!(schedule_time_to_picker(&t), Some((9, 15, true)));
}

#[test]
fn scheduler_acts_once_per_minute() {
    let mut c = SchedulerConfig::default();
    assert_eq!(scheduler_tick(&mut c, "2024-05-01", "08:00"), None);
    c.enabled = true;
    assert_eq!(scheduler_tick(&mut c, "2024-05-01", "08:00"), Some(SchedulerAction::Start));
    assert_eq!(c.last_start_key, "2024-05-01 08:00");
    assert_eq!(scheduler_tick(&mut c, "2024-05-01", "08:00"), None);
    assert_eq!(scheduler_tick(&mut c, "2024-05-02", "08:00"), Some(SchedulerAction::Start));
    assert_eq!(scheduler_tick(&mut c, "2024-05-01", "23:00"), Some(SchedulerAction::Stop));
    assert_eq!(scheduler_tick(&mut c, "2024-05-01", "23:00"), None);
    assert_eq!(scheduler_tick(&mut c, "2024-05-01", "12:00"), None);
}

#[test]
fn versions_compare_by_numbers() {
    assert_eq!(version_parts("v1.10.3-beta2"), vec![1, 10, 3, 2]);
    assert_eq!(version_parts("vv2..7"), vec![2, 7]);
    assert_eq!(version_parts("1.99999999999.2"), vec![1, 2]);
    assert_eq!(compare_versions("1.10.0", "1.9.9"), 1);
    assert_eq!(compare_versions("v1.2", "1.2.0"), 0);
    assert_eq!(compare_versions("1.2", "1.2.1"), -1);
    assert_eq!(sanitize_version_for_filename("1.2.3+build/7"), "1.2.3_build_7");
    assert_eq!(powershell_single_quoted("C:\\Users\\O'Neil\\setup.exe"), "'C:\\Users\\O''Neil\\setup.exe'");
}

#[test]
fn update_checksums() {
    let good = "ab".repeat(32);
    assert_eq!(verify_update_sha256_hex(&good.to_uppercase(), &format!("  sha256:{} ", good)), Ok(()));
    assert_eq!(
        verify_update_sha256_hex(&good, "sha256:abc"),
        Err("Update manifest contains an invalid sha256 value.".to_string())
    );
    assert_eq!(
        verify_update_sha256_hex(&"cd".repeat(32), &good),
        Err("Update verification failed. The downloaded installer hash did not match latest.json.".to_string())
    );
}

#[test]
fn selection_text_round_trip() {
    let ids = vec!["a1".to_string(), "b2".to_string(), "c3".to_string()];
    let text = encode_selected_ids(&ids);
    assert_eq!(text, "\na1\nb2\nc3\n");
    assert_eq!(parse_selected_ids(&text), ids);
    assert_eq!(encode_selected_ids(&vec![]), "");
    assert_eq!(parse_selected_ids(""), Vec::<String>::new());
    assert_eq!(parse_selected_ids(" x \r\n\n y"), vec!["x".to_string(), "y".to_string()]);
}

#[test]
fn row_indices_and_ranges() {
    assert_eq!(clamp_row_index(5, 0), -1);
    assert_eq!(clamp_row_index(-3, 4), 0);
    assert_eq!(clamp_row_index(9, 4), 3);
    assert_eq!(clamp_row_index(2, 4), 2);
    let rows: Vec<String> = ["a", "b", "c", "d"].iter().map(|s| s.to_string()).collect();
    assert_eq!(ids_for_range(&rows, 3, 1), vec!["b".to_string(), "c".to_string(), "d".to_string()]);
    assert_eq!(ids_for_range(&rows, -2, 0), vec!["a".to_string()]);
    assert_eq!(ids_for_range(&rows, 2, 10), vec!["c".to_string(), "d".to_string()]);
    assert_eq!(ids_for_range(&rows, 4, 7), Vec::<String>::new());
}

#[test]
fn version_order_is_antisymmetric() {
    let pairs = [("1.2.3", "1.10"), ("2", "2.0.0"), ("v3.1", "3.0.9")];
    for (a, b) in pairs {
        assert_eq!(compare_versions(a, b), -compare_versions(b, a));
    }
}

#[test]
fn numbered_candidates_are_all_different() {
    let names: Vec<String> = (1..200).map(|i| candidate_file_name("clip.mp4", i)).collect();
    let mut sorted = names.clone();
    sorted.sort();
    sorted.dedup();
    assert_eq!(sorted.len(), names.len());
    assert!(names.iter().all(|n| n != "clip.mp4"));
}
