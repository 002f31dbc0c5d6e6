//! Media pages: recognising them, and the yt-dlp command lines used to probe and fetch them.

use vstd::prelude::*;
use crate::models::{HttpContext, opt_view};
use crate::text::{
    chars_of, contains_seq, ends_with, ends_with_vec, lit, lowercase, push_str, string_from_chars,
    str_contains, to_lowercase, trim, trim_vec,
};
use crate::urls::{parse_url, url_parts};
use crate::paths::{file_stem_of, joined_path, parent_of, path_file_stem, path_join, path_parent};
use crate::numbers::{decimal_text, parse_bounded, parse_unsigned, push_decimal};
use crate::text::{last_index_of, rfind_char, strip_prefix, strip_prefix_vec, sub_vec, starts_with};

verus! {

/// A quality choice offered for a media page.
#[derive(Debug)]
pub struct MediaFormatOption {
    pub id: String,
    pub label: String,
    pub height: Option<u64>,
    pub ext: Option<String>,
    pub filesize: Option<u64>,
    pub requires_ffmpeg: bool,
}

/// What a media page offers.
#[derive(Debug)]
pub struct MediaInfo {
    pub filename: String,
    pub filesize: Option<u64>,
    pub content_type: Option<String>,
    pub formats: Vec<MediaFormatOption>,
    pub can_merge: bool,
}

/// A content type names an HTML page.
pub open spec fn is_html_type(content_type: Option<Seq<char>>) -> bool {
    match content_type {
        Some(v) => contains_seq(lowercase(v), "text/html"@),
        None => false,
    }
}

/// Whether a response's content type is an HTML page: its lowercased text holds `text/html`.
pub fn is_html_content_type(content_type: &Option<String>) -> (r: bool)
    ensures
        r == is_html_type(opt_view(*content_type)),
{
    match content_type {
        Some(v) => {
            let lower = to_lowercase(v.as_str());
            str_contains(lower.as_str(), "text/html")
        },
        None => false,
    }
}

/// Hosts whose pages are fetched with yt-dlp.
pub open spec fn media_domains() -> Seq<Seq<char>> {
    seq![
        "youtube.com"@, "youtu.be"@, "vimeo.com"@, "dailymotion.com"@, "tiktok.com"@,
        "instagram.com"@, "facebook.com"@, "fb.watch"@, "x.com"@, "twitter.com"@, "twitch.tv"@,
        "soundcloud.com"@, "reddit.com"@, "streamable.com"@, "bilibili.com"@,
    ]
}

/// `host` is `domain` or one of its subdomains.
pub open spec fn host_in_domain(host: Seq<char>, domain: Seq<char>) -> bool {
    host == domain || ends_with(host, "."@ + domain)
}

/// A URL names a media page: a stream playlist (`.m3u8`, `.mpd`) or a page on a known
/// video or audio site.
pub open spec fn is_media_page(url: Seq<char>) -> bool {
    match url_parts(url) {
        None => false,
        Some(parts) => {
            let host = lowercase(match parts.0 { Some(h) => h, None => ""@ });
            let path = lowercase(parts.1);
            ends_with(path, ".m3u8"@) || ends_with(path, ".mpd"@)
                || exists|i: int| 0 <= i < media_domains().len() && host_in_domain(host, #[trigger] media_domains()[i])
        },
    }
}

fn host_in_domain_exec(host: &Vec<char>, domain: &str) -> (r: bool)
    ensures
        r == host_in_domain(host@, domain@),
{
    let d = chars_of(domain);
    let mut dotted: Vec<char> = Vec::new();
    push_str(&mut dotted, ".");
    push_str(&mut dotted, domain);
    if crate::naming::eq_chars(host, &d) {
        true
    } else {
        ends_with_vec(host, &dotted)
    }
}

fn host_and_path(url: &str) -> (r: Option<(Vec<char>, Vec<char>)>)
    ensures
        r is None ==> url_parts(url@) is None,
        r matches Some(hp) ==> url_parts(url@) is Some && hp.0@ == lowercase(
            match url_parts(url@).unwrap().0 { Some(h) => h, None => ""@ },
        ) && hp.1@ == lowercase(url_parts(url@).unwrap().1),
{
    match parse_url(url) {
        None => None,
        Some(parts) => {
            let host = match &parts.host {
                Some(h) => to_lowercase(h.as_str()),
                None => to_lowercase(""),
            };
            let path = to_lowercase(parts.path.as_str());
            Some((chars_of(host.as_str()), chars_of(path.as_str())))
        },
    }
}

/// Whether a URL is better fetched with yt-dlp than as a plain file.
pub fn is_likely_media_page_url(url: &str) -> (r: bool)
    ensures
        r == is_media_page(url@),
{
    let (host, path) = match host_and_path(url) {
        None => return false,
        Some(hp) => hp,
    };
    if ends_with_vec(&path, &lit(".m3u8")) || ends_with_vec(&path, &lit(".mpd")) {
        return true;
    }
    let domains: [&str; 15] = [
        "youtube.com", "youtu.be", "vimeo.com", "dailymotion.com", "tiktok.com", "instagram.com",
        "facebook.com", "fb.watch", "x.com", "twitter.com", "twitch.tv", "soundcloud.com",
        "reddit.com", "streamable.com", "bilibili.com",
    ];
    assert(domains@.len() == 15);
    assert forall|i: int| 0 <= i < 15 implies (#[trigger] domains@[i])@ == media_domains()[i] by {}
    let mut i: usize = 0;
    while i < 15
        invariant
            i <= 15,
            domains@.len() == 15,
            url_parts(url@) is Some,
            host@ == lowercase(match url_parts(url@).unwrap().0 { Some(h) => h, None => ""@ }),
            path@ == lowercase(url_parts(url@).unwrap().1),
            !ends_with(path@, ".m3u8"@) && !ends_with(path@, ".mpd"@),
            forall|k: int| 0 <= k < 15 ==> (#[trigger] domains@[k])@ == media_domains()[k],
            forall|k: int| 0 <= k < i ==> !host_in_domain(host@, #[trigger] media_domains()[k]),
        decreases 15 - i,
    {
        if host_in_domain_exec(&host, domains[i]) {
            assert(host_in_domain(host@, media_domains()[i as int]));
            return true;
        }
        i = i + 1;
    }
    false
}


/// A URL names a YouTube page.
pub open spec fn is_youtube(url: Seq<char>) -> bool {
    match url_parts(url) {
        None => false,
        Some(parts) => {
            let host = lowercase(match parts.0 { Some(h) => h, None => ""@ });
            host_in_domain(host, "youtube.com"@) || host_in_domain(host, "youtu.be"@)
        },
    }
}

/// Whether a URL is a YouTube page (host `youtube.com`, `youtu.be` or a subdomain).
pub fn is_youtube_url(url: &str) -> (r: bool)
    ensures
        r == is_youtube(url@),
{
    match host_and_path(url) {
        None => false,
        Some((host, _path)) => host_in_domain_exec(&host, "youtube.com") || host_in_domain_exec(&host, "youtu.be"),
    }
}

/// The trimmed text of an optional field, where some is left.
pub open spec fn non_empty_text(value: Option<Seq<char>>) -> Option<Seq<char>> {
    match value {
        Some(s) => if trim(s).len() > 0 { Some(trim(s)) } else { None },
        None => None,
    }
}

/// The trimmed text of an optional field, or `None` where it is absent or blank.
pub fn non_empty(value: &Option<String>) -> (r: Option<String>)
    ensures
        opt_view(r) == non_empty_text(opt_view(*value)),
{
    match value {
        Some(s) => {
            let v = chars_of(s.as_str());
            let t = trim_vec(&v);
            if t.len() > 0 {
                Some(string_from_chars(t.as_slice()))
            } else {
                None
            }
        },
        None => None,
    }
}

/// The context carries no cookie, referer or user agent worth sending.
pub open spec fn context_is_empty(ctx: HttpContext) -> bool {
    non_empty_text(opt_view(ctx.cookies)) is None && non_empty_text(opt_view(ctx.referer)) is None
        && non_empty_text(opt_view(ctx.user_agent)) is None
}

/// Whether a browser context carries nothing: every field absent or blank.
pub fn http_context_is_empty(ctx: &HttpContext) -> (r: bool)
    ensures
        r == context_is_empty(*ctx),
{
    non_empty(&ctx.cookies).is_none() && non_empty(&ctx.referer).is_none() && non_empty(&ctx.user_agent).is_none()
}

/// The contexts to probe a media page with: for YouTube with a browser context, first a
/// clean one and then the browser's; otherwise the given one alone.
pub fn media_probe_contexts(url: &str, ctx: &HttpContext) -> (r: Vec<HttpContext>)
    ensures
        (is_youtube(url@) && !context_is_empty(*ctx)) ==> r@.len() == 2 && r@[0].cookies is None
            && r@[0].referer is None && r@[0].user_agent is None && r@[1] == *ctx,
        !(is_youtube(url@) && !context_is_empty(*ctx)) ==> r@.len() == 1 && r@[0] == *ctx,
{
    let mut r: Vec<HttpContext> = Vec::new();
    if is_youtube_url(url) && !http_context_is_empty(ctx) {
        r.push(HttpContext::empty());
        r.push(ctx.duplicate());
    } else {
        r.push(ctx.duplicate());
    }
    r
}

/// Appends the text `s` as one more argument.
pub fn push_arg(args: &mut Vec<String>, s: &str)
    ensures
        final(args).deep_view() == old(args).deep_view().push(s@),
{
    let ghost before = args.deep_view();
    args.push(String::from_str(s));
    assert(args.deep_view() =~= before.push(s@));
}

/// Appends the characters `v` as one more argument.
pub fn push_arg_chars(args: &mut Vec<String>, v: &Vec<char>)
    ensures
        final(args).deep_view() == old(args).deep_view().push(v@),
{
    let ghost before = args.deep_view();
    args.push(string_from_chars(v.as_slice()));
    assert(args.deep_view() =~= before.push(v@));
}

/// The yt-dlp arguments that pass a browser context on: the cookie as a header, the
/// referer both as `--referer` and as a header, and the user agent.
pub open spec fn http_context_args(ctx: HttpContext) -> Seq<Seq<char>> {
    let cookie_args = match non_empty_text(opt_view(ctx.cookies)) {
        Some(v) => seq!["--add-header"@, "Cookie: "@ + v],
        None => Seq::<Seq<char>>::empty(),
    };
    let referer_args = match non_empty_text(opt_view(ctx.referer)) {
        Some(v) => seq!["--referer"@, v, "--add-header"@, "Referer: "@ + v],
        None => Seq::<Seq<char>>::empty(),
    };
    let agent_args = match non_empty_text(opt_view(ctx.user_agent)) {
        Some(v) => seq!["--user-agent"@, v],
        None => Seq::<Seq<char>>::empty(),
    };
    cookie_args + referer_args + agent_args
}

fn prefixed(prefix: &str, v: &String) -> (r: Vec<char>)
    ensures
        r@ == prefix@ + v@,
{
    let mut out: Vec<char> = Vec::new();
    push_str(&mut out, prefix);
    push_str(&mut out, v.as_str());
    out
}

/// Appends the yt-dlp arguments that pass the browser context `ctx` on.
pub fn append_http_context(args: &mut Vec<String>, ctx: &HttpContext)
    ensures
        final(args).deep_view() == old(args).deep_view() + http_context_args(*ctx),
{
    let ghost start = args.deep_view();
    let ghost cookie_args = match non_empty_text(opt_view(ctx.cookies)) {
        Some(v) => seq!["--add-header"@, "Cookie: "@ + v],
        None => Seq::<Seq<char>>::empty(),
    };
    let ghost referer_args = match non_empty_text(opt_view(ctx.referer)) {
        Some(v) => seq!["--referer"@, v, "--add-header"@, "Referer: "@ + v],
        None => Seq::<Seq<char>>::empty(),
    };
    if let Some(value) = non_empty(&ctx.cookies) {
        push_arg(args, "--add-header");
        push_arg_chars(args, &prefixed("Cookie: ", &value));
    }
    assert(args.deep_view() =~= start + cookie_args);
    if let Some(value) = non_empty(&ctx.referer) {
        push_arg(args, "--referer");
        push_arg(args, value.as_str());
        push_arg(args, "--add-header");
        push_arg_chars(args, &prefixed("Referer: ", &value));
    }
    assert(args.deep_view() =~= start + cookie_args + referer_args);
    if let Some(value) = non_empty(&ctx.user_agent) {
        push_arg(args, "--user-agent");
        push_arg(args, value.as_str());
    }
    assert(args.deep_view() =~= start + http_context_args(*ctx));
}

/// Appends `--extractor-args` with `value`.
pub fn append_youtube_extractor_args(args: &mut Vec<String>, value: &str)
    ensures
        final(args).deep_view() == old(args).deep_view() + seq!["--extractor-args"@, value@],
{
    let ghost start = args.deep_view();
    push_arg(args, "--extractor-args");
    push_arg(args, value);
    assert(args.deep_view() =~= start + seq!["--extractor-args"@, value@]);
}

/// The yt-dlp format selector used when no quality was chosen.
pub open spec fn default_format_selector(can_merge: bool) -> Seq<char> {
    if can_merge { "bestvideo+bestaudio/best"@ } else { "best[ext=mp4]/best"@ }
}

/// The yt-dlp format selector for "best": separate video and audio when FFmpeg can merge
/// them, else the best single MP4 file.
pub fn media_format_selector(can_merge: bool) -> (r: &'static str)
    ensures
        r@ == default_format_selector(can_merge),
{
    if can_merge { "bestvideo+bestaudio/best" } else { "best[ext=mp4]/best" }
}


/// What follows `video:` or `video-only:` in a chosen quality.
pub open spec fn video_choice_rest(value: Seq<char>) -> Option<Seq<char>> {
    match strip_prefix(value, "video:"@) {
        Some(rest) => Some(rest),
        None => strip_prefix(value, "video-only:"@),
    }
}

/// A chosen video quality read as format id and height: `video:<id>:<height>` (or
/// `video-only:`); the height is what follows the last `:`, absent where it is not a number.
pub open spec fn video_choice(value: Seq<char>) -> Option<(Seq<char>, Option<nat>)> {
    match video_choice_rest(value) {
        None => None,
        Some(rest) => match last_index_of(rest, ':') {
            None => Some((rest, None)),
            Some(i) => Some((rest.take(i), parse_bounded(trim(rest.skip(i + 1)), u64::MAX as nat))),
        },
    }
}

/// Reads a chosen video quality `video:<id>:<height>` into its format id and height.
pub fn selected_video_format(value: &str) -> (r: Option<(String, Option<u64>)>)
    ensures
        r matches Some(p) ==> video_choice(value@) == Some((p.0@, match p.1 { Some(h) => Some(h as nat), None => None })),
        r is None ==> video_choice(value@) is None,
{
    let v = chars_of(value);
    let rest = match strip_prefix_vec(&v, "video:") {
        Some(rest) => rest,
        None => match strip_prefix_vec(&v, "video-only:") {
            Some(rest) => rest,
            None => return None,
        },
    };
    match rfind_char(&rest, ':') {
        None => Some((string_from_chars(rest.as_slice()), None)),
        Some(i) => {
            let id = sub_vec(&rest, 0, i);
            assert(id@ =~= rest@.take(i as int));
            let after = sub_vec(&rest, i + 1, rest.len());
            assert(after@ =~= rest@.skip(i + 1));
            let trimmed = trim_vec(&after);
            let height = parse_unsigned(&trimmed, u64::MAX);
            Some((string_from_chars(id.as_slice()), height))
        },
    }
}

/// The format selector that asks for video `format_id` at `height`, falling back to
/// lower qualities and finally to the best available.
pub open spec fn video_fallback_selector(format_id: Seq<char>, height: Option<nat>) -> Seq<char> {
    let id = trim(format_id);
    let requested = if id.len() == 0 {
        "bestvideo+bestaudio"@
    } else {
        id + "+bestaudio[ext=m4a]/"@ + id + "+bestaudio"@
    };
    match height {
        Some(h) => requested + "/bestvideo[height<="@ + decimal_text(h) + "][vcodec^=avc1]+bestaudio[ext=m4a]/bestvideo[height<="@
            + decimal_text(h) + "]+bestaudio/bestvideo+bestaudio/best"@,
        None => requested + "/bestvideo+bestaudio/best"@,
    }
}

/// Builds the format selector for a chosen video quality.
pub fn build_video_fallback_selector(format_id: &str, height: Option<u64>) -> (r: String)
    ensures
        r@ == video_fallback_selector(format_id@, match height { Some(h) => Some(h as nat), None => None }),
{
    let idv = chars_of(format_id);
    let id = trim_vec(&idv);
    let mut out: Vec<char> = Vec::new();
    if id.len() == 0 {
        push_str(&mut out, "bestvideo+bestaudio");
    } else {
        crate::text::push_all(&mut out, &id);
        push_str(&mut out, "+bestaudio[ext=m4a]/");
        crate::text::push_all(&mut out, &id);
        push_str(&mut out, "+bestaudio");
    }
    match height {
        Some(h) => {
            push_str(&mut out, "/bestvideo[height<=");
            push_decimal(&mut out, h);
            push_str(&mut out, "][vcodec^=avc1]+bestaudio[ext=m4a]/bestvideo[height<=");
            push_decimal(&mut out, h);
            push_str(&mut out, "]+bestaudio/bestvideo+bestaudio/best");
        },
        None => {
            push_str(&mut out, "/bestvideo+bestaudio/best");
        },
    }
    string_from_chars(out.as_slice())
}


/// Appends every text of `items` as arguments.
pub fn push_args(args: &mut Vec<String>, items: &[&str])
    ensures
        final(args).deep_view() == old(args).deep_view() + Seq::new(items@.len(), |i: int| items@[i]@),
{
    let ghost start = args.deep_view();
    let mut i: usize = 0;
    while i < items.len()
        invariant
            i <= items@.len(),
            args.deep_view() == start + Seq::new(i as nat, |k: int| items@[k]@),
        decreases items@.len() - i,
    {
        push_arg(args, items[i]);
        i = i + 1;
        assert(args.deep_view() =~= start + Seq::new(i as nat, |k: int| items@[k]@));
    }
}

/// The yt-dlp arguments that point it at the folder of the FFmpeg found, if any.
pub open spec fn ffmpeg_location_args(ffmpeg_path: Option<Seq<char>>) -> Seq<Seq<char>> {
    match ffmpeg_path {
        Some(p) => seq!["--ffmpeg-location"@, match parent_of(p) { Some(d) => d, None => p }],
        None => Seq::<Seq<char>>::empty(),
    }
}

/// Appends the arguments that point yt-dlp at the folder of `ffmpeg_path`.
pub fn append_ffmpeg_location(args: &mut Vec<String>, ffmpeg_path: &Option<String>)
    ensures
        final(args).deep_view() == old(args).deep_view() + ffmpeg_location_args(opt_view(*ffmpeg_path)),
{
    let ghost start = args.deep_view();
    if let Some(path) = ffmpeg_path {
        push_arg(args, "--ffmpeg-location");
        match path_parent(path.as_str()) {
            Some(dir) => push_arg(args, dir.as_str()),
            None => push_arg(args, path.as_str()),
        }
    }
    assert(args.deep_view() =~= start + ffmpeg_location_args(opt_view(*ffmpeg_path)));
}

/// The fixed yt-dlp flags of a metadata probe.
pub open spec fn probe_flags() -> Seq<Seq<char>> {
    seq![
        "--dump-single-json"@, "--no-playlist"@, "--skip-download"@, "--no-warnings"@, "--no-colors"@,
        "--no-check-certificates"@, "--ignore-no-formats-error"@, "--no-write-thumbnail"@,
        "--no-write-subs"@, "--no-write-auto-subs"@, "--no-write-comments"@, "--no-write-info-json"@,
    ]
}

/// The yt-dlp command line that asks for the metadata of a media page as JSON.
pub open spec fn probe_args(
    url: Seq<char>,
    extractor_args: Option<Seq<char>>,
    ffmpeg_path: Option<Seq<char>>,
    ctx: HttpContext,
) -> Seq<Seq<char>> {
    probe_flags() + match extractor_args {
        Some(e) => seq!["--extractor-args"@, e],
        None => Seq::<Seq<char>>::empty(),
    } + ffmpeg_location_args(ffmpeg_path) + http_context_args(ctx) + seq![url]
}

/// Builds the yt-dlp command line that probes `url` for its formats.
pub fn media_probe_args(
    url: &str,
    extractor_args: &Option<String>,
    ffmpeg_path: &Option<String>,
    ctx: &HttpContext,
) -> (args: Vec<String>)
    ensures
        args.deep_view() == probe_args(url@, opt_view(*extractor_args), opt_view(*ffmpeg_path), *ctx),
{
    let mut args: Vec<String> = Vec::new();
    let flags: [&str; 12] = [
        "--dump-single-json", "--no-playlist", "--skip-download", "--no-warnings", "--no-colors",
        "--no-check-certificates", "--ignore-no-formats-error", "--no-write-thumbnail",
        "--no-write-subs", "--no-write-auto-subs", "--no-write-comments", "--no-write-info-json",
    ];
    push_args(&mut args, &flags);
    assert(args.deep_view() =~= probe_flags());
    let ghost a1 = args.deep_view();
    if let Some(e) = extractor_args {
        append_youtube_extractor_args(&mut args, e.as_str());
    }
    assert(args.deep_view() =~= a1 + match opt_view(*extractor_args) {
        Some(e) => seq!["--extractor-args"@, e],
        None => Seq::<Seq<char>>::empty(),
    });
    append_ffmpeg_location(&mut args, ffmpeg_path);
    append_http_context(&mut args, ctx);
    push_arg(&mut args, url);
    assert(args.deep_view() =~= probe_args(url@, opt_view(*extractor_args), opt_view(*ffmpeg_path), *ctx));
    args
}

/// The format selector of a media download and whether it fetches audio alone, for the
/// quality chosen (`audio:<id>`, `video:<id>:<height>`, any other selector, or none).
pub open spec fn download_format_choice(media_format: Option<Seq<char>>, can_merge: bool) -> (Seq<char>, bool) {
    match non_empty_text(media_format) {
        Some(v) => {
            let audio_only = starts_with(v, "audio:"@);
            let selector = match strip_prefix(v, "audio:"@) {
                Some(id) => if trim(id).len() == 0 { "bestaudio"@ } else { id },
                None => match video_choice(v) {
                    Some(choice) => video_fallback_selector(choice.0, choice.1),
                    None => v,
                },
            };
            (selector, audio_only)
        },
        None => (
            if can_merge {
                "bestvideo[vcodec^=avc1]+bestaudio[ext=m4a]/bestvideo+bestaudio/best"@
            } else {
                default_format_selector(false)
            },
            false,
        ),
    }
}

/// Picks the yt-dlp format selector for a media download, and whether it is audio alone.
pub fn download_format_selector(media_format: &Option<String>, can_merge: bool) -> (r: (String, bool))
    ensures
        (r.0@, r.1) == download_format_choice(opt_view(*media_format), can_merge),
{
    match non_empty(media_format) {
        Some(value) => {
            let v = chars_of(value.as_str());
            let audio_only = starts_with_vec_str(&v, "audio:");
            let selector = match strip_prefix_vec(&v, "audio:") {
                Some(id) => {
                    let t = trim_vec(&id);
                    if t.len() == 0 {
                        String::from_str("bestaudio")
                    } else {
                        string_from_chars(id.as_slice())
                    }
                },
                None => match selected_video_format(value.as_str()) {
                    Some((id, height)) => build_video_fallback_selector(id.as_str(), height),
                    None => value,
                },
            };
            (selector, audio_only)
        },
        None => {
            if can_merge {
                (String::from_str("bestvideo[vcodec^=avc1]+bestaudio[ext=m4a]/bestvideo+bestaudio/best"), false)
            } else {
                (String::from_str(media_format_selector(false)), false)
            }
        },
    }
}

fn starts_with_vec_str(v: &Vec<char>, p: &str) -> (r: bool)
    ensures
        r == starts_with(v@, p@),
{
    let pv = chars_of(p);
    crate::text::starts_with_vec(v, &pv)
}


/// Marker that opens each progress line printed by yt-dlp.
pub open spec fn progress_marker() -> Seq<char> {
    "VELOCITY_PROGRESS"@
}

/// Marker in front of the path yt-dlp prints once the file is in place.
pub open spec fn file_marker() -> Seq<char> {
    "VELOCITY_FILE:"@
}

/// The leading yt-dlp flags of a media download.
pub open spec fn download_flags() -> Seq<Seq<char>> {
    seq![
        "--newline"@, "--progress"@, "--no-colors"@, "--continue"@, "--no-playlist"@, "--no-warnings"@,
        "--no-check-certificates"@, "--no-write-thumbnail"@, "--no-write-subs"@, "--no-write-auto-subs"@,
        "--no-write-comments"@, "--no-write-info-json"@, "--progress-template"@,
        "download:VELOCITY_PROGRESS downloaded=%(progress.downloaded_bytes)s total=%(progress.total_bytes)s total_estimate=%(progress.total_bytes_estimate)s speed=%(progress.speed)s eta=%(progress.eta)s"@,
        "--print"@, "after_move:VELOCITY_FILE:%(filepath)s"@, "-f"@,
    ]
}

/// The output template of a media download: `<folder of save_path>/<stem>.%(ext)s`, the
/// stem being `media` where the save path has none.
pub open spec fn media_output_template(save_path: Seq<char>) -> Seq<char> {
    let dir = match parent_of(save_path) { Some(d) => d, None => "."@ };
    let stem = match file_stem_of(save_path) {
        Some(s) => if trim(s).len() > 0 { s } else { "media"@ },
        None => "media"@,
    };
    joined_path(dir, stem + ".%(ext)s"@)
}

/// The `--limit-rate` arguments for a speed limit in bytes per second: whole KiB per
/// second, at least one; none where there is no limit.
pub open spec fn rate_limit_args(limit_bps: Option<u64>) -> Seq<Seq<char>> {
    match limit_bps {
        Some(l) => if l > 0 {
            let kib: nat = if l / 1024 >= 1 { (l / 1024) as nat } else { 1 };
            seq!["--limit-rate"@, decimal_text(kib) + "K"@]
        } else {
            Seq::<Seq<char>>::empty()
        },
        None => Seq::<Seq<char>>::empty(),
    }
}

/// A speed limit of `l` bytes per second is passed to yt-dlp as whole KiB per second,
/// rounded down but at least 1: the rate given never exceeds the limit where the limit is
/// at least 1 KiB/s, and is less than 1 KiB/s below it. No limit (or 0) passes nothing.
pub proof fn rate_limit_is_the_limit_in_kib(l: u64)
    ensures
        rate_limit_args(None).len() == 0,
        rate_limit_args(Some(0u64)).len() == 0,
        l > 0 ==> exists|k: nat| {
            &&& rate_limit_args(Some(l)) == seq!["--limit-rate"@, #[trigger] decimal_text(k) + "K"@]
            &&& k >= 1
            &&& (l >= 1024 ==> k * 1024 <= l < (k + 1) * 1024)
            &&& (l < 1024 ==> k == 1)
        },
{
    if l > 0 {
        let k: nat = if l / 1024 >= 1 { (l / 1024) as nat } else { 1 };
        assert(rate_limit_args(Some(l)) == seq!["--limit-rate"@, decimal_text(k) + "K"@]);
        assert(l >= 1024 ==> k * 1024 <= l < (k + 1) * 1024) by (nonlinear_arith)
            requires
                l >= 1024 ==> k == l / 1024,
        ;
        assert(l < 1024 ==> k == 1);
    }
}

/// The yt-dlp command line that downloads a media page to `save_path`.
pub open spec fn download_args(
    url: Seq<char>,
    save_path: Seq<char>,
    media_format: Option<Seq<char>>,
    can_merge: bool,
    ffmpeg_path: Option<Seq<char>>,
    limit_bps: Option<u64>,
    ctx: HttpContext,
) -> Seq<Seq<char>> {
    let choice = download_format_choice(media_format, can_merge);
    download_flags() + seq![choice.0, "-o"@, media_output_template(save_path)]
        + seq!["--extractor-args"@, "youtube:player_client=web,ios,android"@]
        + (if choice.1 { seq!["--extract-audio"@, "--audio-format"@, "mp3"@] } else { seq!["--merge-output-format"@, "mp4"@] })
        + ffmpeg_location_args(ffmpeg_path) + rate_limit_args(limit_bps) + http_context_args(ctx) + seq![url]
}

fn output_template(save_path: &str) -> (r: String)
    ensures
        r@ == media_output_template(save_path@),
{
    let dir = match path_parent(save_path) {
        Some(d) => d,
        None => String::from_str("."),
    };
    let mut name: Vec<char> = Vec::new();
    match path_file_stem(save_path) {
        Some(stem) => {
            let sv = chars_of(stem.as_str());
            let t = trim_vec(&sv);
            if t.len() > 0 {
                push_str(&mut name, stem.as_str());
            } else {
                push_str(&mut name, "media");
            }
        },
        None => push_str(&mut name, "media"),
    }
    push_str(&mut name, ".%(ext)s");
    let name = string_from_chars(name.as_slice());
    path_join(dir.as_str(), name.as_str())
}

/// Builds the yt-dlp command line that downloads `url` to `save_path` in the chosen
/// quality, with FFmpeg where it was found, at most `limit_bps`, with the browser context.
pub fn media_download_args(
    url: &str,
    save_path: &str,
    media_format: &Option<String>,
    can_merge: bool,
    ffmpeg_path: &Option<String>,
    limit_bps: Option<u64>,
    ctx: &HttpContext,
) -> (args: Vec<String>)
    ensures
        args.deep_view() == download_args(url@, save_path@, opt_view(*media_format), can_merge,
            opt_view(*ffmpeg_path), limit_bps, *ctx),
{
    let (selector, audio_only) = download_format_selector(media_format, can_merge);
    let mut args: Vec<String> = Vec::new();
    let flags: [&str; 17] = [
        "--newline", "--progress", "--no-colors", "--continue", "--no-playlist", "--no-warnings",
        "--no-check-certificates", "--no-write-thumbnail", "--no-write-subs", "--no-write-auto-subs",
        "--no-write-comments", "--no-write-info-json", "--progress-template",
        "download:VELOCITY_PROGRESS downloaded=%(progress.downloaded_bytes)s total=%(progress.total_bytes)s total_estimate=%(progress.total_bytes_estimate)s speed=%(progress.speed)s eta=%(progress.eta)s",
        "--print", "after_move:VELOCITY_FILE:%(filepath)s", "-f",
    ];
    push_args(&mut args, &flags);
    assert(args.deep_view() =~= download_flags());
    push_arg(&mut args, selector.as_str());
    push_arg(&mut args, "-o");
    let template = output_template(save_path);
    push_arg(&mut args, template.as_str());
    append_youtube_extractor_args(&mut args, "youtube:player_client=web,ios,android");
    let ghost a1 = args.deep_view();
    if audio_only {
        push_arg(&mut args, "--extract-audio");
        push_arg(&mut args, "--audio-format");
        push_arg(&mut args, "mp3");
    } else {
        push_arg(&mut args, "--merge-output-format");
        push_arg(&mut args, "mp4");
    }
    assert(args.deep_view() =~= a1 + (if audio_only { seq!["--extract-audio"@, "--audio-format"@, "mp3"@] } else { seq!["--merge-output-format"@, "mp4"@] }));
    append_ffmpeg_location(&mut args, ffmpeg_path);
    let ghost a2 = args.deep_view();
    if let Some(limit) = limit_bps {
        if limit > 0 {
            let kib = if limit / 1024 >= 1 { limit / 1024 } else { 1 };
            let mut rate: Vec<char> = Vec::new();
            push_decimal(&mut rate, kib);
            push_str(&mut rate, "K");
            push_arg(&mut args, "--limit-rate");
            push_arg_chars(&mut args, &rate);
        }
    }
    assert(args.deep_view() =~= a2 + rate_limit_args(limit_bps));
    append_http_context(&mut args, ctx);
    push_arg(&mut args, url);
    assert(args.deep_view() =~= download_args(url@, save_path@, opt_view(*media_format), can_merge,
        opt_view(*ffmpeg_path), limit_bps, *ctx));
    args
}

/// The path yt-dlp reports on an output line, after the file marker and trimmed.
pub open spec fn reported_file_path(line: Seq<char>) -> Option<Seq<char>> {
    match crate::text::find_first(line, file_marker()) {
        Some(i) => {
            let path = trim(line.skip(i + file_marker().len()));
            if path.len() > 0 { Some(path) } else { None }
        },
        None => None,
    }
}

/// The final path of a downloaded media file, where the output line reports one.
pub fn output_file_path(line: &str) -> (r: Option<String>)
    ensures
        opt_view(r) == reported_file_path(line@),
{
    let v = chars_of(line);
    let marker = lit("VELOCITY_FILE:");
    match crate::text::find_vec(&v, &marker) {
        Some(i) => {
            assert(crate::text::occurs_at(v@, marker@, i as int));
            let ml = marker.len();
            let vl = v.len();
            assert(i + ml <= vl);
            let rest = sub_vec(&v, i + ml, vl);
            assert(rest@ =~= v@.skip(i + marker@.len()));
            let path = trim_vec(&rest);
            if path.len() > 0 {
                Some(string_from_chars(path.as_slice()))
            } else {
                None
            }
        },
        None => None,
    }
}


impl MediaFormatOption {
    /// A copy of this option.
    pub fn duplicate(&self) -> (o: MediaFormatOption)
        ensures
            o == *self,
    {
        MediaFormatOption {
            id: self.id.clone(),
            label: self.label.clone(),
            height: self.height,
            ext: crate::models::clone_opt_string(&self.ext),
            filesize: self.filesize,
            requires_ffmpeg: self.requires_ffmpeg,
        }
    }
}

/// Some option before position `i` has the same id as the one at `i`.
pub open spec fn id_seen_before(s: Seq<MediaFormatOption>, i: int) -> bool {
    exists|j: int| 0 <= j < i && (#[trigger] s[j]).id@ == s[i].id@
}

/// The options of `s` whose id does not occur earlier in `s`, in order.
pub open spec fn first_by_id(s: Seq<MediaFormatOption>) -> Seq<MediaFormatOption>
    decreases s.len(),
{
    if s.len() == 0 {
        s
    } else {
        let rest = first_by_id(s.drop_last());
        if id_seen_before(s, s.len() - 1) { rest } else { rest.push(s.last()) }
    }
}

/// Some option with a height before position `i` has the same height as the one at `i`.
pub open spec fn height_seen_before(s: Seq<MediaFormatOption>, i: int) -> bool {
    s[i].height is Some && exists|j: int| 0 <= j < i && (#[trigger] s[j]).height == s[i].height
}

/// The options of `s` without a height, and those whose height does not occur earlier.
pub open spec fn first_by_height(s: Seq<MediaFormatOption>) -> Seq<MediaFormatOption>
    decreases s.len(),
{
    if s.len() == 0 {
        s
    } else {
        let rest = first_by_height(s.drop_last());
        if height_seen_before(s, s.len() - 1) { rest } else { rest.push(s.last()) }
    }
}

/// Drops every option whose id an earlier option already has.
pub fn dedupe_format_options(options: &mut Vec<MediaFormatOption>)
    ensures
        final(options)@ == first_by_id(old(options)@),
{
    let ghost s = options@;
    let mut kept: Vec<MediaFormatOption> = Vec::new();
    let mut i: usize = 0;
    while i < options.len()
        invariant
            options@ == s,
            i <= s.len(),
            kept@ == first_by_id(s.take(i as int)),
        decreases s.len() - i,
    {
        let mut seen = false;
        let mut j: usize = 0;
        while j < i
            invariant
                options@ == s,
                j <= i < s.len(),
                seen == exists|k: int| 0 <= k < j && (#[trigger] s[k]).id@ == s[i as int].id@,
            decreases i - j,
        {
            if options[j].id == options[i].id {
                seen = true;
            }
            j = j + 1;
        }
        let ghost t = s.take(i + 1);
        assert(t.drop_last() =~= s.take(i as int));
        assert(id_seen_before(t, i as int) == seen) by {
            if seen {
                let k = choose|k: int| 0 <= k < i && (#[trigger] s[k]).id@ == s[i as int].id@;
                assert(t[k] == s[k]);
            }
            if id_seen_before(t, i as int) {
                let k = choose|k: int| 0 <= k < i && (#[trigger] t[k]).id@ == t[i as int].id@;
                assert(t[k] == s[k]);
            }
        }
        if !seen {
            kept.push(options[i].duplicate());
        }
        i = i + 1;
    }
    assert(s.take(s.len() as int) =~= s);
    *options = kept;
}

/// Drops every option whose height an earlier option already has; options without a
/// height all stay.
pub fn dedupe_video_options_by_height(options: &mut Vec<MediaFormatOption>)
    ensures
        final(options)@ == first_by_height(old(options)@),
{
    let ghost s = options@;
    let mut kept: Vec<MediaFormatOption> = Vec::new();
    let mut i: usize = 0;
    while i < options.len()
        invariant
            options@ == s,
            i <= s.len(),
            kept@ == first_by_height(s.take(i as int)),
        decreases s.len() - i,
    {
        let mut seen = false;
        if options[i].height.is_some() {
            let mut j: usize = 0;
            while j < i
                invariant
                    options@ == s,
                    j <= i < s.len(),
                    seen == exists|k: int| 0 <= k < j && (#[trigger] s[k]).height == s[i as int].height,
                decreases i - j,
            {
                if options[j].height == options[i].height {
                    seen = true;
                }
                j = j + 1;
            }
        }
        let ghost t = s.take(i + 1);
        assert(t.drop_last() =~= s.take(i as int));
        assert(height_seen_before(t, i as int) == seen) by {
            if seen {
                let k = choose|k: int| 0 <= k < i && (#[trigger] s[k]).height == s[i as int].height;
                assert(t[k] == s[k]);
            }
            if height_seen_before(t, i as int) {
                let k = choose|k: int| 0 <= k < i && (#[trigger] t[k]).height == t[i as int].height;
                assert(t[k] == s[k]);
            }
        }
        if !seen {
            kept.push(options[i].duplicate());
        }
        i = i + 1;
    }
    assert(s.take(s.len() as int) =~= s);
    *options = kept;
}


proof fn lemma_first_by_id_from_input(s: Seq<MediaFormatOption>)
    ensures
        forall|k: int| 0 <= k < first_by_id(s).len() ==> exists|j: int| 0 <= j < s.len() && s[j] == #[trigger] first_by_id(s)[k],
        first_by_id(s).len() <= s.len(),
    decreases s.len(),
{
    if s.len() > 0 {
        let p = s.drop_last();
        lemma_first_by_id_from_input(p);
        let r = first_by_id(s);
        assert forall|k: int| 0 <= k < r.len() implies exists|j: int| 0 <= j < s.len() && s[j] == #[trigger] r[k] by {
            if k < first_by_id(p).len() {
                let j = choose|j: int| 0 <= j < p.len() && p[j] == first_by_id(p)[k];
                assert(s[j] == r[k]);
            } else {
                assert(s[s.len() - 1] == r[k]);
            }
        }
    }
}

proof fn lemma_first_by_id_unique(s: Seq<MediaFormatOption>)
    ensures
        forall|a: int, b: int| 0 <= a < b < first_by_id(s).len() ==>
            (#[trigger] first_by_id(s)[a]).id@ != (#[trigger] first_by_id(s)[b]).id@,
    decreases s.len(),
{
    if s.len() > 0 {
        let p = s.drop_last();
        lemma_first_by_id_unique(p);
        lemma_first_by_id_from_input(p);
        let r = first_by_id(s);
        let rp = first_by_id(p);
        let n = s.len() - 1;
        if !id_seen_before(s, n) {
            assert forall|a: int, b: int| 0 <= a < b < r.len() implies
                (#[trigger] r[a]).id@ != (#[trigger] r[b]).id@ by {
                if b == rp.len() {
                    let j = choose|j: int| 0 <= j < p.len() && p[j] == #[trigger] rp[a];
                    assert(s[j] == p[j]);
                    assert(r[a] == rp[a]);
                } else {
                    assert(r[a] == rp[a] && r[b] == rp[b]);
                }
            }
        }
    }
}

proof fn lemma_first_by_id_complete(s: Seq<MediaFormatOption>)
    ensures
        forall|i: int| 0 <= i < s.len() ==> exists|k: int| 0 <= k < first_by_id(s).len()
            && (#[trigger] first_by_id(s)[k]).id@ == (#[trigger] s[i]).id@,
    decreases s.len(),
{
    if s.len() > 0 {
        let p = s.drop_last();
        lemma_first_by_id_complete(p);
        let r = first_by_id(s);
        let rp = first_by_id(p);
        let n = s.len() - 1;
        assert forall|i: int| 0 <= i < s.len() implies exists|k: int| 0 <= k < r.len()
            && (#[trigger] r[k]).id@ == (#[trigger] s[i]).id@ by {
            if i < n {
                assert(s[i] == p[i]);
                let k = choose|k: int| 0 <= k < rp.len() && (#[trigger] rp[k]).id@ == (#[trigger] p[i]).id@;
                assert(r[k] == rp[k]);
            } else if id_seen_before(s, n) {
                let j = choose|j: int| 0 <= j < n && (#[trigger] s[j]).id@ == s[n].id@;
                assert(s[j] == p[j]);
                let k = choose|k: int| 0 <= k < rp.len() && (#[trigger] rp[k]).id@ == (#[trigger] p[j]).id@;
                assert(r[k] == rp[k]);
            } else {
                assert(r[rp.len() as int] == s[n]);
            }
        }
    }
}

/// Dropping repeated ids leaves each id once: no two remaining options share an id, every
/// id of the input is still offered, and every remaining option is one of the input's.
pub proof fn deduped_options_have_unique_ids(s: Seq<MediaFormatOption>)
    ensures
        forall|a: int, b: int| 0 <= a < b < first_by_id(s).len() ==>
            (#[trigger] first_by_id(s)[a]).id@ != (#[trigger] first_by_id(s)[b]).id@,
        forall|i: int| 0 <= i < s.len() ==> exists|k: int| 0 <= k < first_by_id(s).len()
            && (#[trigger] first_by_id(s)[k]).id@ == (#[trigger] s[i]).id@,
        forall|k: int| 0 <= k < first_by_id(s).len() ==> s.contains(#[trigger] first_by_id(s)[k]),
{
    lemma_first_by_id_unique(s);
    lemma_first_by_id_complete(s);
    lemma_first_by_id_from_input(s);
    assert forall|k: int| 0 <= k < first_by_id(s).len() implies s.contains(#[trigger] first_by_id(s)[k]) by {
        let j = choose|j: int| 0 <= j < s.len() && s[j] == first_by_id(s)[k];
    }
}


/// Error lines of yt-dlp that are kept: the last twenty.
pub const KEPT_ERROR_LINES: usize = 20;

/// Keeps an error line that yt-dlp printed: trimmed, and only where something is left;
/// past `KEPT_ERROR_LINES` lines the oldest is dropped.
pub fn keep_error_line(lines: &mut Vec<String>, line: &str)
    ensures
        trim(line@).len() == 0 ==> final(lines)@ == old(lines)@,
        trim(line@).len() > 0 ==> {
            let grown = old(lines)@.map_values(|s: String| s@).push(trim(line@));
            &&& final(lines)@.map_values(|s: String| s@) == if grown.len() > KEPT_ERROR_LINES {
                grown.drop_first()
            } else {
                grown
            }
        },
{
    let v = chars_of(line);
    let t = trim_vec(&v);
    if t.len() == 0 {
        return;
    }
    let ghost before = lines@.map_values(|s: String| s@);
    lines.push(string_from_chars(t.as_slice()));
    assert(lines@.map_values(|s: String| s@) =~= before.push(trim(line@)));
    if lines.len() > KEPT_ERROR_LINES {
        let ghost full = lines@;
        lines.remove(0);
        assert(lines@ =~= full.drop_first());
        assert(lines@.map_values(|s: String| s@) =~= before.push(trim(line@)).drop_first());
    }
}

/// Why a media download failed: the last error line yt-dlp printed, or else how it
/// exited; a format that is not available is explained in the user's words.
pub open spec fn media_failure(errors: Seq<Seq<char>>, exit_text: Seq<char>) -> Seq<char> {
    let detail = if errors.len() > 0 { errors.last() } else { "yt-dlp exited with "@ + exit_text };
    if contains_seq(lowercase(detail), "requested format is not available"@) {
        "Format unavailable, try a different quality"@
    } else {
        detail
    }
}

/// The error of a media download whose yt-dlp exited with a failure (see
/// `media_failure`); `exit_text` is how the exit status prints.
pub fn media_failure_message(errors: &Vec<String>, exit_text: &str) -> (r: String)
    ensures
        r@ == media_failure(errors@.map_values(|s: String| s@), exit_text@),
{
    let detail = if errors.len() > 0 {
        let last = errors[errors.len() - 1].clone();
        assert(errors@.map_values(|s: String| s@).last() == last@);
        last
    } else {
        let mut v: Vec<char> = Vec::new();
        push_str(&mut v, "yt-dlp exited with ");
        push_str(&mut v, exit_text);
        string_from_chars(v.as_slice())
    };
    let lower = to_lowercase(detail.as_str());
    if str_contains(lower.as_str(), "requested format is not available") {
        String::from_str("Format unavailable, try a different quality")
    } else {
        detail
    }
}

} // verus!
