//! Planning a new download: which probe to trust, the name and folder it is saved
//! under, and the task it starts as.

use vstd::prelude::*;
use crate::media::{MediaFormatOption, MediaInfo, is_html_content_type, is_html_type};
use crate::models::{DownloadKind, DownloadStatus, HttpContext, opt_view};
use crate::naming::{category_for_filename, filename_category, sanitize_filename, sanitized};
use crate::paths::{file_name_of, joined_path, path_file_name, path_join};
use crate::tasks::{has_initial_segments, task_temp_dir, DownloadTask};
use crate::text::{chars_of, trim, trim_vec};
use crate::transfer::ProbeResult;

verus! {

/// A text that holds something besides white space.
pub open spec fn is_filled(value: Option<Seq<char>>) -> bool {
    value is Some && trim(value->0).len() > 0
}

fn filled(value: &Option<String>) -> (r: bool)
    ensures
        r == is_filled(opt_view(*value)),
{
    match value {
        Some(v) => {
            let c = chars_of(v.as_str());
            trim_vec(&c).len() > 0
        },
        None => false,
    }
}

/// A media page can be added from an earlier analysis, without probing it again, when
/// that analysis gave a file name, a format and a size.
pub open spec fn analysis_usable(
    media_candidate: bool,
    filename_override: Option<Seq<char>>,
    media_format: Option<Seq<char>>,
    expected_size: Option<u64>,
) -> bool {
    media_candidate && is_filled(filename_override) && is_filled(media_format) && match expected_size {
        Some(n) => n > 0,
        None => false,
    }
}

/// Whether a media page can be added from an earlier analysis (see `analysis_usable`).
pub fn can_use_media_analysis(
    media_candidate: bool,
    filename_override: &Option<String>,
    media_format: &Option<String>,
    expected_size: Option<u64>,
) -> (r: bool)
    ensures
        r == analysis_usable(media_candidate, opt_view(*filename_override), opt_view(*media_format), expected_size),
{
    media_candidate && filled(filename_override) && filled(media_format) && match expected_size {
        Some(n) => n > 0,
        None => false,
    }
}

/// What is known of a download before its task is made.
#[derive(Debug)]
pub struct ProbedSource {
    pub total_size: u64,
    pub supports_range: bool,
    pub content_type: Option<String>,
    pub filename: String,
    pub kind: DownloadKind,
}

/// The source of a media page analysed before: its size, no ranges, the `video/media`
/// type, and the analysed name (or `media.mp4`).
pub fn source_from_analysis(filename_override: &Option<String>, expected_size: Option<u64>) -> (s: ProbedSource)
    ensures
        s.total_size == match expected_size {
            Some(n) => n,
            None => 0,
        },
        !s.supports_range,
        opt_view(s.content_type) == Some("video/media"@),
        s.filename@ == match opt_view(*filename_override) {
            Some(n) => n,
            None => "media.mp4"@,
        },
        s.kind == DownloadKind::Media,
{
    ProbedSource {
        total_size: match expected_size {
            Some(n) => n,
            None => 0,
        },
        supports_range: false,
        content_type: Some(String::from_str("video/media")),
        filename: match filename_override {
            Some(n) => n.clone(),
            None => String::from_str("media.mp4"),
        },
        kind: DownloadKind::Media,
    }
}

/// The source a media probe found: its size where known, no ranges, its type and name.
pub open spec fn media_source_fits(s: ProbedSource, info: MediaInfo) -> bool {
    &&& s.total_size == match info.filesize {
        Some(n) => n,
        None => 0,
    }
    &&& !s.supports_range
    &&& opt_view(s.content_type) == opt_view(info.content_type)
    &&& s.filename@ == info.filename@
    &&& s.kind == DownloadKind::Media
}

/// The source a direct probe found.
pub open spec fn direct_source_fits(s: ProbedSource, probe: ProbeResult) -> bool {
    &&& s.total_size == probe.0
    &&& s.supports_range == probe.1
    &&& opt_view(s.content_type) == opt_view(probe.2)
    &&& s.filename@ == probe.3@
    &&& s.kind == DownloadKind::Direct
}

/// The source a media probe found (see `media_source_fits`).
pub fn source_from_media(info: &MediaInfo) -> (s: ProbedSource)
    ensures
        media_source_fits(s, *info),
{
    ProbedSource {
        total_size: match info.filesize {
            Some(n) => n,
            None => 0,
        },
        supports_range: false,
        content_type: crate::models::clone_opt_string(&info.content_type),
        filename: info.filename.clone(),
        kind: DownloadKind::Media,
    }
}

/// After a direct probe, the page is probed as media too where the probe failed or
/// found a web page.
pub open spec fn media_probe_needed(direct: Result<ProbeResult, String>) -> bool {
    match direct {
        Ok(p) => is_html_type(opt_view(p.2)),
        Err(_) => true,
    }
}

/// Whether a media probe is to follow a direct one (see `media_probe_needed`).
pub fn needs_media_probe(direct: &Result<ProbeResult, String>) -> (r: bool)
    ensures
        r == media_probe_needed(*direct),
{
    match direct {
        Ok(p) => is_html_content_type(&p.2),
        Err(_) => true,
    }
}

/// Settles what a download is from a direct probe and, where one was needed, a media
/// probe: a media probe that succeeded wins; otherwise a direct probe that succeeded
/// stands; where both failed, the direct probe's error is reported.
pub fn resolve_probes(direct: &Result<ProbeResult, String>, media: &Option<Result<MediaInfo, String>>) -> (r: Result<ProbedSource, String>)
    requires
        media is Some <==> media_probe_needed(*direct),
    ensures
        media matches Some(Ok(info)) ==> (r matches Ok(s) && media_source_fits(s, *info)),
        !(media matches Some(Ok(_))) ==> match direct {
            Ok(p) => r matches Ok(s) && direct_source_fits(s, *p),
            Err(e) => r matches Err(m) && m@ == e@,
        },
{
    match media {
        Some(Ok(info)) => Ok(source_from_media(info)),
        _ => match direct {
            Ok(p) => Ok(ProbedSource {
                total_size: p.0,
                supports_range: p.1,
                content_type: crate::models::clone_opt_string(&p.2),
                filename: p.3.clone(),
                kind: DownloadKind::Direct,
            }),
            Err(e) => Err(e.clone()),
        },
    }
}

/// The name a new download is saved under: the name asked for where it holds something
/// besides white space, else the probed one, made safe for the file system.
pub open spec fn chosen_name(filename_override: Option<Seq<char>>, probed: Seq<char>) -> Seq<char> {
    let name = if is_filled(filename_override) { filename_override->0 } else { probed };
    sanitized(
        match file_name_of(name) {
            Some(n) => n,
            None => "download"@,
        },
        "download"@,
    )
}

/// Picks the name a new download is saved under (see `chosen_name`).
pub fn choose_filename(filename_override: &Option<String>, probed: &str) -> (r: String)
    ensures
        r@ == chosen_name(opt_view(*filename_override), probed@),
{
    if filled(filename_override) {
        match filename_override {
            Some(n) => sanitize_filename(n.as_str()),
            None => sanitize_filename(probed),
        }
    } else {
        sanitize_filename(probed)
    }
}

/// The size a new download counts on: for media, a size given by an earlier analysis
/// replaces the probed one.
pub fn planned_total(kind: DownloadKind, probed_total: u64, expected_size: Option<u64>) -> (r: u64)
    ensures
        r == (if kind == DownloadKind::Media && expected_size is Some && expected_size->0 > 0 {
            expected_size->0
        } else {
            probed_total
        }),
{
    if kind == DownloadKind::Media {
        match expected_size {
            Some(n) => if n > 0 { n } else { probed_total },
            None => probed_total,
        }
    } else {
        probed_total
    }
}

/// The folder a new download is saved in: the one asked for, or else the category
/// folder of its name under the default download folder. The second part says whether
/// the folder is a category folder, which is created before use.
pub fn save_dir_for(save_path: &Option<String>, base_dir: &str, filename: &str) -> (r: (String, bool))
    ensures
        match opt_view(*save_path) {
            Some(p) => r.0@ == p && !r.1,
            None => r.0@ == joined_path(base_dir@, filename_category(filename@)) && r.1,
        },
{
    match save_path {
        Some(p) => (p.clone(), false),
        None => (path_join(base_dir, category_for_filename(filename)), true),
    }
}

/// The format kept for a media download: none where the one given is blank.
pub fn kept_media_format(media_format: &Option<String>) -> (r: Option<String>)
    ensures
        opt_view(r) == (if is_filled(opt_view(*media_format)) { opt_view(*media_format) } else { None }),
{
    if filled(media_format) {
        crate::models::clone_opt_string(media_format)
    } else {
        None
    }
}

/// Where and how a new download is to be kept, beside its source.
#[derive(Debug)]
pub struct TaskPlacement {
    pub save_path: String,
    pub temp_dir_override: Option<String>,
    pub speed_limit_bps: Option<u64>,
    pub default_segments: usize,
    pub scheduled_queue: bool,
    pub batch_group_id: Option<String>,
    pub batch_sequential: bool,
    pub batch_queue_index: usize,
}

/// Makes the task of a new download saved at `placement.save_path`: it is named after
/// the file that path ends in (or `fallback_name`), takes the source's size, range
/// support, type and engine, the kept format, the browser context and the settings, and
/// has its segments laid out for its size, kind, range support and
/// `placement.default_segments` (`has_initial_segments`).
pub fn plan_task(
    url: String,
    fallback_name: &str,
    source: ProbedSource,
    media_format: Option<String>,
    ctx: HttpContext,
    placement: TaskPlacement,
) -> (t: DownloadTask)
    ensures
        t.url@ == url@,
        t.save_path@ == placement.save_path@,
        t.filename@ == match file_name_of(placement.save_path@) {
            Some(n) => n,
            None => fallback_name@,
        },
        t.status == DownloadStatus::Queued,
        t.total_size == source.total_size,
        t.downloaded == 0,
        t.supports_range == source.supports_range,
        opt_view(t.content_type) == opt_view(source.content_type),
        t.download_kind == source.kind,
        opt_view(t.media_format) == opt_view(media_format),
        t.http_context == ctx,
        opt_view(t.temp_dir_override) == opt_view(placement.temp_dir_override),
        t.speed_limit_bps == placement.speed_limit_bps,
        t.scheduled_queue == placement.scheduled_queue,
        opt_view(t.batch_group_id) == opt_view(placement.batch_group_id),
        t.batch_sequential == placement.batch_sequential,
        t.batch_queue_index == placement.batch_queue_index,
        t.error is None,
        t.segments@.len() == t.num_segments,
        t.num_segments >= 1,
        has_initial_segments(
            t,
            source.total_size,
            source.kind,
            source.supports_range,
            task_temp_dir(t),
            placement.default_segments,
        ),
{
    let filename = match path_file_name(placement.save_path.as_str()) {
        Some(n) => n,
        None => String::from_str(fallback_name),
    };
    let mut task = DownloadTask::new(url, filename, placement.save_path);
    task.total_size = source.total_size;
    task.supports_range = source.supports_range;
    task.content_type = source.content_type;
    task.download_kind = source.kind;
    task.media_format = media_format;
    task.http_context = ctx;
    task.temp_dir_override = placement.temp_dir_override;
    task.speed_limit_bps = placement.speed_limit_bps;
    task.scheduled_queue = placement.scheduled_queue;
    task.batch_group_id = placement.batch_group_id;
    task.batch_sequential = placement.batch_sequential;
    task.batch_queue_index = placement.batch_queue_index;
    task.configure_segments(placement.default_segments);
    task
}


/// What the add-download window shows about a link before it is added.
#[derive(Debug)]
pub struct DownloadAnalysis {
    pub filename: String,
    pub size: u64,
    pub save_path: String,
    pub is_media: bool,
    pub formats: Vec<MediaFormatOption>,
}

impl DownloadAnalysis {
    /// The analysis of a probed link that would be saved at `save_path`: its name made
    /// safe for the file system, its size (0 where unknown), whether it is a media page,
    /// and the quality choices found for it.
    pub fn of_source(source: &ProbedSource, formats: Vec<MediaFormatOption>, save_path: String) -> (a: DownloadAnalysis)
        ensures
            a.filename@ == chosen_name(None, source.filename@),
            a.size == source.total_size,
            a.is_media == (source.kind == DownloadKind::Media),
            a.formats@ == formats@,
            a.save_path@ == save_path@,
    {
        DownloadAnalysis {
            filename: sanitize_filename(source.filename.as_str()),
            size: source.total_size,
            save_path,
            is_media: source.kind == DownloadKind::Media,
            formats,
        }
    }
}

} // verus!
