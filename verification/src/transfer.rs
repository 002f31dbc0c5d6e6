//! What the download engine reads from HTTP responses and decides from them: the size,
//! range support and file name a probe finds, where a redirect leads, which bytes a
//! segment asks for, when a response or a transfer is refused, and when to retry.

use vstd::prelude::*;
use crate::media::{is_html_content_type, is_html_type};
use crate::models::{HttpContext, Segment, SegmentStatus, opt_view};
use crate::numbers::{decimal_text, opt_nat, parse_bounded, parse_unsigned, push_decimal};
use crate::tasks::range_ok;
use crate::text::{
    byte_prefix, byte_prefix_text, chars_of, is_char_boundary, last_index_of,
    lemma_last_index_of_bounds, lit, lowercase, pieces_view, push_str, rfind_char,
    split_char, split_vec, starts_with, starts_with_vec, string_from_chars, strip_prefix,
    strip_prefix_vec, sub_vec, to_lowercase, trim, trim_char, trim_char_vec, trim_vec,
};
use crate::urls::{parse_url, url_parts};

verus! {

/// Attempts after the first that a failed transfer gets.
pub const MAX_DOWNLOAD_RETRIES: u64 = 10;

/// Redirects followed for one request; a response that would lead to one more is given
/// up as too many redirects.
pub const MAX_REDIRECTS: usize = 10;

/// What `urlencoding::decode` gives for a text.
pub uninterp spec fn percent_decoded(s: Seq<char>) -> Option<Seq<char>>;

/// `urlencoding::decode`: percent-escapes replaced by the bytes they stand for, read back
/// as UTF-8. The contract names the result (`None` where the bytes are not UTF-8), and
/// states what the crate's source shows: a text without `%` comes back unchanged.
#[verifier::external_body]
fn decode_percent(s: &str) -> (r: Option<String>)
    ensures
        r matches Some(d) ==> percent_decoded(s@) == Some(d@),
        r is None ==> percent_decoded(s@) is None,
        !s@.contains('%') ==> opt_view(r) == Some(s@),
{
    urlencoding::decode(s).ok().map(|d| d.into_owned())
}

/// What `url::Url::parse` followed by `Url::set_path` gives, as text.
pub uninterp spec fn path_replaced(url: Seq<char>, path: Seq<char>) -> Option<Seq<char>>;

/// `url::Url::parse`, `Url::set_path` and the URL's text: `url` with its path replaced by
/// `path`. The contract names the result; it is `None` exactly where `url` does not
/// parse, which is the same parse that `parse_url` makes.
#[verifier::external_body]
fn replace_url_path(url: &str, path: &str) -> (r: Option<String>)
    ensures
        r matches Some(u) ==> path_replaced(url@, path@) == Some(u@),
        r is None ==> path_replaced(url@, path@) is None,
        r is None <==> url_parts(url@) is None,
{
    match url::Url::parse(url) {
        Ok(mut u) => {
            u.set_path(path);
            Some(u.to_string())
        },
        Err(_) => None,
    }
}

/// A status in `200..=299` (`StatusCode::is_success`).
pub open spec fn is_success(status: u16) -> bool {
    200 <= status <= 299
}

/// A status in `300..=399` (`StatusCode::is_redirection`).
pub open spec fn is_redirection(status: u16) -> bool {
    300 <= status <= 399
}

/// What the engine reads of the head of an HTTP response. A header is `None` where the
/// response lacks it or its value is not visible ASCII text.
#[derive(Debug)]
pub struct ResponseHead {
    pub status: u16,
    /// The status as its `Display` writes it, e.g. `404 Not Found`.
    pub status_text: String,
    /// The URL the response came from, after redirects.
    pub final_url: String,
    pub content_length: Option<String>,
    pub content_range: Option<String>,
    pub content_type: Option<String>,
    pub content_disposition: Option<String>,
    pub accept_ranges: Option<String>,
}

/// A header read as a `u64` (`str::parse::<u64>`).
pub open spec fn header_number(value: Option<Seq<char>>) -> Option<nat> {
    match value {
        Some(v) => parse_bounded(v, u64::MAX as nat),
        None => None,
    }
}

/// Reads a header as a `u64`.
pub fn header_u64(value: &Option<String>) -> (r: Option<u64>)
    ensures
        opt_nat(r) == header_number(opt_view(*value)),
{
    match value {
        Some(v) => {
            let c = chars_of(v.as_str());
            parse_unsigned(&c, u64::MAX)
        },
        None => None,
    }
}

/// The total size a `Content-Range` header gives, as in `bytes 0-0/12345`: the number
/// after the last `/`, unless it is `*`.
pub open spec fn range_total(value: Option<Seq<char>>) -> Option<nat> {
    match value {
        Some(v) => match last_index_of(v, '/') {
            Some(i) => {
                let rest = v.skip(i + 1);
                if rest == "*"@ {
                    None
                } else {
                    parse_bounded(trim(rest), u64::MAX as nat)
                }
            },
            None => None,
        },
        None => None,
    }
}

/// Reads the total file size from a `Content-Range` header.
pub fn content_range_total(value: &Option<String>) -> (r: Option<u64>)
    ensures
        opt_nat(r) == range_total(opt_view(*value)),
{
    match value {
        Some(v) => {
            let c = chars_of(v.as_str());
            let found = rfind_char(&c, '/');
            match found {
                Some(i) => {
                    let n = c.len();
                    assert(i < n);
                    let rest = sub_vec(&c, i + 1, n);
                    assert(rest@ =~= c@.skip(i + 1));
                    proof {
                        reveal_strlit("*");
                    }
                    if rest.len() == 1 && rest[0] == '*' {
                        assert(rest@ =~= "*"@);
                        return None;
                    }
                    assert(rest@ != "*"@) by {
                        if rest@ == "*"@ {
                            assert(rest@.len() == 1 && rest@[0] == '*');
                        }
                    }
                    let t = trim_vec(&rest);
                    parse_unsigned(&t, u64::MAX)
                },
                None => None,
            }
        },
        None => None,
    }
}

/// The file name that one `;`-separated part of a `Content-Disposition` header gives,
/// once trimmed: `filename*=` (its `UTF-8''` or `utf-8''` form percent-decoded, where
/// decoding succeeds) or `filename=`, without surrounding quotes.
pub open spec fn disposition_part_name(t: Seq<char>) -> Option<Seq<char>> {
    if starts_with(t, "filename*="@) {
        let name = t.skip(10);
        let encoded = match strip_prefix(name, "UTF-8''"@) {
            Some(r) => Some(r),
            None => strip_prefix(name, "utf-8''"@),
        };
        match encoded {
            Some(u) => Some(
                match percent_decoded(u) {
                    Some(d) => d,
                    None => u,
                },
            ),
            None => Some(trim_char(trim_char(name, '"'), '\'')),
        }
    } else if starts_with(t, "filename="@) {
        Some(trim_char(trim_char(t.skip(9), '"'), '\''))
    } else {
        None
    }
}

/// A trimmed part of a `Content-Disposition` header names a file the extended way
/// (`filename*=`, RFC 5987) where `extended`, else the plain way (`filename=`).
pub open spec fn names_file(t: Seq<char>, extended: bool) -> bool {
    if extended {
        starts_with(t, "filename*="@)
    } else {
        starts_with(t, "filename="@)
    }
}

/// The name that the first part naming a file the given way gives.
pub open spec fn first_part_name(parts: Seq<Seq<char>>, extended: bool) -> Option<Seq<char>>
    decreases parts.len(),
{
    if parts.len() == 0 {
        None
    } else if names_file(trim(parts[0]), extended) {
        disposition_part_name(trim(parts[0]))
    } else {
        first_part_name(parts.drop_first(), extended)
    }
}

/// The file name a `Content-Disposition` header gives: the RFC 5987 `filename*=` form
/// takes priority over a plain `filename=`, wherever the two stand in the header.
pub open spec fn disposition_filename(cd: Seq<char>) -> Option<Seq<char>> {
    let parts = split_char(cd, ';');
    match first_part_name(parts, true) {
        Some(n) => Some(n),
        None => first_part_name(parts, false),
    }
}

/// The last segment of a URL's path, percent-decoded where that succeeds; `None` where
/// the text is not a URL or its path does not start with `/` (`Url::path_segments`).
pub open spec fn url_file_segment(url: Seq<char>) -> Option<Seq<char>> {
    match url_parts(url) {
        Some((_, path)) => if path.len() > 0 && path[0] == '/' {
            let seg = match last_index_of(path, '/') {
                Some(i) => path.skip(i + 1),
                None => path,
            };
            Some(
                match percent_decoded(seg) {
                    Some(d) => d,
                    None => seg,
                },
            )
        } else {
            None
        },
        None => None,
    }
}

/// The name a download is saved under, from the response: the `Content-Disposition`
/// name where it gives a non-empty one, else the last segment of the final URL (or of
/// the requested URL where the final one is empty), else `download`.
pub open spec fn extracted_filename(cd: Option<Seq<char>>, final_url: Seq<char>, url: Seq<char>) -> Seq<char> {
    let from_header = match cd {
        Some(c) => disposition_filename(c),
        None => None,
    };
    if from_header is Some && from_header->0.len() > 0 {
        from_header->0
    } else {
        let target = if final_url.len() > 0 { final_url } else { url };
        match url_file_segment(target) {
            Some(s) => if s.len() > 0 && s != "/"@ { s } else { "download"@ },
            None => "download"@,
        }
    }
}

fn part_name(t: &Vec<char>) -> (r: Option<String>)
    ensures
        opt_view(r) == disposition_part_name(t@),
{
    let star = lit("filename*=");
    let plain = lit("filename=");
    proof {
        reveal_strlit("filename*=");
        reveal_strlit("filename=");
    }
    if starts_with_vec(t, &star) {
        let name = sub_vec(t, 10, t.len());
        assert(name@ =~= t@.skip(10));
        let encoded = match strip_prefix_vec(&name, "UTF-8''") {
            Some(r) => Some(r),
            None => strip_prefix_vec(&name, "utf-8''"),
        };
        match encoded {
            Some(u) => {
                let us = string_from_chars(u.as_slice());
                match decode_percent(us.as_str()) {
                    Some(d) => Some(d),
                    None => Some(us),
                }
            },
            None => {
                let a = trim_char_vec(&name, '"');
                let b = trim_char_vec(&a, '\'');
                Some(string_from_chars(b.as_slice()))
            },
        }
    } else if starts_with_vec(t, &plain) {
        let name = sub_vec(t, 9, t.len());
        assert(name@ =~= t@.skip(9));
        let a = trim_char_vec(&name, '"');
        let b = trim_char_vec(&a, '\'');
        Some(string_from_chars(b.as_slice()))
    } else {
        None
    }
}

/// The name the first part of `parts` that names a file the given way gives.
fn first_named_part(parts: &Vec<Vec<char>>, extended: bool) -> (r: Option<String>)
    ensures
        opt_view(r) == first_part_name(pieces_view(parts@), extended),
{
    let ghost ps = pieces_view(parts@);
    let star = lit("filename*=");
    let plain = lit("filename=");
    proof {
        reveal_strlit("filename*=");
        reveal_strlit("filename=");
    }
    let mut k: usize = 0;
    assert(ps.skip(0) =~= ps);
    while k < parts.len()
        invariant
            k <= parts@.len(),
            ps == pieces_view(parts@),
            star@ == "filename*="@,
            plain@ == "filename="@,
            first_part_name(ps, extended) == first_part_name(ps.skip(k as int), extended),
        decreases parts@.len() - k,
    {
        assert(ps.skip(k as int)[0] == parts@[k as int]@);
        assert(ps.skip(k as int).drop_first() =~= ps.skip(k + 1));
        let t = trim_vec(&parts[k]);
        let named = if extended { starts_with_vec(&t, &star) } else { starts_with_vec(&t, &plain) };
        if named {
            return part_name(&t);
        }
        k = k + 1;
    }
    None
}

/// The file name a `Content-Disposition` header gives, if any.
pub fn filename_from_disposition(cd: &str) -> (r: Option<String>)
    ensures
        opt_view(r) == disposition_filename(cd@),
{
    let c = chars_of(cd);
    let parts = split_vec(&c, ';');
    match first_named_part(&parts, true) {
        Some(n) => Some(n),
        None => first_named_part(&parts, false),
    }
}

fn url_filename(url: &str) -> (r: Option<String>)
    ensures
        opt_view(r) == url_file_segment(url@),
{
    match parse_url(url) {
        Some(parts) => {
            let path = chars_of(parts.path.as_str());
            if path.len() > 0 && path[0] == '/' {
                let seg = match rfind_char(&path, '/') {
                    Some(i) => {
                        proof {
                            lemma_last_index_of_bounds(path@, '/');
                        }
                        let s = sub_vec(&path, i + 1, path.len());
                        assert(s@ =~= path@.skip(i + 1));
                        s
                    },
                    None => path,
                };
                let ss = string_from_chars(seg.as_slice());
                match decode_percent(ss.as_str()) {
                    Some(d) => Some(d),
                    None => Some(ss),
                }
            } else {
                None
            }
        },
        None => None,
    }
}

/// The name a download is saved under, from the `Content-Disposition` header and the
/// final URL of the response, `url` standing in where the final URL is empty.
pub fn extract_filename(cd: &Option<String>, final_url: &str, url: &str) -> (r: String)
    ensures
        r@ == extracted_filename(opt_view(*cd), final_url@, url@),
{
    match cd {
        Some(c) => match filename_from_disposition(c.as_str()) {
            Some(n) => {
                if n.unicode_len() > 0 {
                    return n;
                }
            },
            None => {},
        },
        None => {},
    }
    proof {
        reveal_strlit("/");
    }
    let target = if final_url.unicode_len() > 0 { final_url } else { url };
    match url_filename(target) {
        Some(s) => {
            let v = chars_of(s.as_str());
            if v.len() > 0 && !(v.len() == 1 && v[0] == '/') {
                return s;
            }
            assert(v@.len() == 0 || v@ =~= "/"@);
            String::from_str("download")
        },
        None => String::from_str("download"),
    }
}


/// The file name a probe response gives.
pub open spec fn probe_filename(head: ResponseHead) -> Seq<char> {
    extracted_filename(opt_view(head.content_disposition), head.final_url@, head.final_url@)
}

/// `Content-Length` as a number, 0 where it is absent or unreadable.
pub open spec fn length_or_zero(head: ResponseHead) -> nat {
    match header_number(opt_view(head.content_length)) {
        Some(n) => n,
        None => 0,
    }
}

/// The size a ranged probe reads: `Content-Range`, else `Content-Length`, else 0.
pub open spec fn range_probe_total(head: ResponseHead) -> nat {
    match range_total(opt_view(head.content_range)) {
        Some(n) => n,
        None => length_or_zero(head),
    }
}

/// `Accept-Ranges` reads `bytes`, in any case.
pub open spec fn accepts_byte_ranges(head: ResponseHead) -> bool {
    match opt_view(head.accept_ranges) {
        Some(a) => lowercase(a) == "bytes"@,
        None => false,
    }
}

/// What a probe found: total size (0 where unknown), whether the server takes ranges,
/// the content type and the file name.
pub type ProbeResult = (u64, bool, Option<String>, String);

/// The message of a status that a probe cannot use.
pub open spec fn status_message(prefix: Seq<char>, text: Seq<char>) -> Seq<char> {
    prefix + text
}

/// Reads the response to `GET` with `Range: bytes=0-0`. `206` means the server takes
/// ranges: the size comes from `Content-Range`, else `Content-Length`; ranges count as
/// supported where that size is known. `200` means it ignored the range: the size is
/// `Content-Length`, and there is no range support. Any other status is refused.
pub fn range_probe_result(head: &ResponseHead) -> (r: Result<ProbeResult, String>)
    ensures
        head.status == 206 ==> (r matches Ok((total, ranges, ct, name)) && total == range_probe_total(*head)
            && ranges == (total > 0) && opt_view(ct) == opt_view(head.content_type) && name@
            == probe_filename(*head)),
        head.status == 200 ==> (r matches Ok((total, ranges, ct, name)) && total == length_or_zero(*head)
            && !ranges && opt_view(ct) == opt_view(head.content_type) && name@ == probe_filename(*head)),
        head.status != 206 && head.status != 200 ==> (r matches Err(e) && e@ == "Range GET returned status "@
            + decimal_text(head.status as nat)),
{
    if head.status == 206 {
        let total = match content_range_total(&head.content_range) {
            Some(n) => n,
            None => match header_u64(&head.content_length) {
                Some(n) => n,
                None => 0,
            },
        };
        let name = extract_filename(&head.content_disposition, head.final_url.as_str(), head.final_url.as_str());
        return Ok((total, total > 0, clone_text(&head.content_type), name));
    }
    if head.status == 200 {
        let total = match header_u64(&head.content_length) {
            Some(n) => n,
            None => 0,
        };
        let name = extract_filename(&head.content_disposition, head.final_url.as_str(), head.final_url.as_str());
        return Ok((total, false, clone_text(&head.content_type), name));
    }
    let mut msg: Vec<char> = Vec::new();
    push_str(&mut msg, "Range GET returned status ");
    push_decimal(&mut msg, head.status as u64);
    Err(string_from_chars(msg.as_slice()))
}

fn clone_text(o: &Option<String>) -> (r: Option<String>)
    ensures
        opt_view(r) == opt_view(*o),
{
    match o {
        Some(s) => Some(s.clone()),
        None => None,
    }
}

fn join_text(a: &str, b: &str) -> (r: String)
    ensures
        r@ == a@ + b@,
{
    let mut v: Vec<char> = Vec::new();
    push_str(&mut v, a);
    push_str(&mut v, b);
    string_from_chars(v.as_slice())
}

/// Reads the response to a `HEAD` request: a status outside `200..=299` is refused;
/// otherwise the size is `Content-Length`, and ranges are supported where
/// `Accept-Ranges` reads `bytes` in any case and the size is known.
pub fn head_probe_result(head: &ResponseHead) -> (r: Result<ProbeResult, String>)
    ensures
        !is_success(head.status) ==> (r matches Err(e) && e@ == "HEAD returned status: "@ + head.status_text@),
        is_success(head.status) ==> (r matches Ok((total, ranges, ct, name)) && total == length_or_zero(*head)
            && ranges == (accepts_byte_ranges(*head) && total > 0) && opt_view(ct)
            == opt_view(head.content_type) && name@ == probe_filename(*head)),
{
    if !(200 <= head.status && head.status <= 299) {
        return Err(join_text("HEAD returned status: ", head.status_text.as_str()));
    }
    let total = match header_u64(&head.content_length) {
        Some(n) => n,
        None => 0,
    };
    let bytes_ranges = match &head.accept_ranges {
        Some(a) => {
            let lower = to_lowercase(a.as_str());
            let lv = chars_of(lower.as_str());
            let b = lit("bytes");
            crate::naming::eq_chars(&lv, &b)
        },
        None => false,
    };
    let name = extract_filename(&head.content_disposition, head.final_url.as_str(), head.final_url.as_str());
    Ok((total, bytes_ranges && total > 0, clone_text(&head.content_type), name))
}

/// Reads the response to a plain `GET`, the last resort of a probe: a status outside
/// `200..=299` is refused; otherwise the size is `Content-Length`, without range support.
pub fn get_probe_result(head: &ResponseHead) -> (r: Result<ProbeResult, String>)
    ensures
        !is_success(head.status) ==> (r matches Err(e) && e@ == "GET returned status: "@ + head.status_text@),
        is_success(head.status) ==> (r matches Ok((total, ranges, ct, name)) && total == length_or_zero(*head)
            && !ranges && opt_view(ct) == opt_view(head.content_type) && name@ == probe_filename(*head)),
{
    if !(200 <= head.status && head.status <= 299) {
        return Err(join_text("GET returned status: ", head.status_text.as_str()));
    }
    let total = match header_u64(&head.content_length) {
        Some(n) => n,
        None => 0,
    };
    let name = extract_filename(&head.content_disposition, head.final_url.as_str(), head.final_url.as_str());
    Ok((total, false, clone_text(&head.content_type), name))
}

/// Where a response sends the request next.
#[derive(Debug)]
pub enum RedirectStep {
    /// Request this URL.
    Follow(String),
    /// Hand this response to the caller.
    Deliver,
    /// The response redirects again after `MAX_REDIRECTS` redirects were followed: give up.
    TooMany,
}

/// Where a redirect leads: a `Location` that starts with `http` is taken as it is; one
/// that starts with `/` replaces the path of the current URL; any other response,
/// including a redirect without a usable `Location`, is delivered.
pub open spec fn redirect_target(current: Seq<char>, status: u16, location: Option<Seq<char>>) -> Option<Seq<char>> {
    if is_redirection(status) {
        match location {
            Some(loc) => if starts_with(loc, "http"@) {
                Some(loc)
            } else if loc.len() > 0 && loc[0] == '/' {
                path_replaced(current, loc)
            } else {
                None
            },
            None => None,
        }
    } else {
        None
    }
}

/// Decides what to do with a response to a request for `current`, `followed` redirects
/// into the request: where it redirects, the target is requested while fewer than
/// `MAX_REDIRECTS` redirects were followed, and the request is given up after that. A
/// location that starts with `/` is resolved against `current`; the request loop has
/// parsed `current` before it sent the request, and a text that does not parse is
/// delivered.
pub fn redirect_step(current: &str, status: u16, location: &Option<String>, followed: usize) -> (r: RedirectStep)
    ensures
        r matches RedirectStep::Follow(u) ==> followed < MAX_REDIRECTS
            && redirect_target(current@, status, opt_view(*location)) == Some(u@),
        r is Deliver <==> redirect_target(current@, status, opt_view(*location)) is None,
        r is TooMany <==> (followed >= MAX_REDIRECTS && redirect_target(current@, status, opt_view(*location)) is Some),
{
    if !(300 <= status && status <= 399) {
        return RedirectStep::Deliver;
    }
    let target = match location {
        Some(loc) => {
            let lv = chars_of(loc.as_str());
            let http = lit("http");
            if starts_with_vec(&lv, &http) {
                Some(loc.clone())
            } else if lv.len() > 0 && lv[0] == '/' {
                replace_url_path(current, loc.as_str())
            } else {
                None
            }
        },
        None => None,
    };
    match target {
        Some(u) => if followed < MAX_REDIRECTS {
            RedirectStep::Follow(u)
        } else {
            RedirectStep::TooMany
        },
        None => RedirectStep::Deliver,
    }
}

/// The `Range` header asking for bytes `start..=end`: `bytes=<start>-<end>`.
pub open spec fn range_text(start: nat, end: nat) -> Seq<char> {
    "bytes="@ + decimal_text(start) + "-"@ + decimal_text(end)
}

/// Writes the `Range` header asking for bytes `start..=end`.
pub fn range_header(start: u64, end: u64) -> (r: String)
    ensures
        r@ == range_text(start as nat, end as nat),
{
    let mut v: Vec<char> = Vec::new();
    push_str(&mut v, "bytes=");
    push_decimal(&mut v, start);
    push_str(&mut v, "-");
    push_decimal(&mut v, end);
    string_from_chars(v.as_slice())
}

/// Gets a segment ready for its next request. A segment whose range is all downloaded is
/// marked complete and asks for nothing; any other is marked as downloading and asks
/// for the rest of its range, from the first byte it does not hold to its end.
pub fn begin_segment(seg: &mut Segment) -> (r: Option<(u64, u64)>)
    requires
        range_ok(*old(seg)),
        old(seg).start_byte + old(seg).downloaded <= u64::MAX,
    ensures
        old(seg).downloaded >= old(seg).size() ==> r is None && final(seg).status == SegmentStatus::Completed,
        old(seg).downloaded < old(seg).size() ==> r == Some(((old(seg).start_byte + old(seg).downloaded) as u64, old(seg).end_byte))
            && final(seg).status == SegmentStatus::Downloading,
        final(seg).id == old(seg).id,
        final(seg).start_byte == old(seg).start_byte,
        final(seg).end_byte == old(seg).end_byte,
        final(seg).downloaded == old(seg).downloaded,
        final(seg).temp_file == old(seg).temp_file,
{
    let start = seg.start_byte + seg.downloaded;
    let expected_total = seg.end_byte - seg.start_byte + 1;
    if seg.downloaded >= expected_total {
        seg.status = SegmentStatus::Completed;
        return None;
    }
    seg.status = SegmentStatus::Downloading;
    Some((start, seg.end_byte))
}

/// The words of a refusal because the server sent a web page in place of the file.
pub open spec fn html_refusal() -> Seq<char> {
    "Failed: got HTML page instead of file, possible session or cookie issue"@
}

/// The words of a refusal because the server ignored the range of a segment.
pub open spec fn no_range_refusal() -> Seq<char> {
    "Server does not support Range requests (returned 200 instead of 206). Cannot do multi-segment download."@
}

/// Whether the response to a segment's request can be streamed into its file: `206` can,
/// `200` cannot (the server ignored the range), nor can another status outside
/// `200..=299`, whose message quotes the first 200 bytes of the body; nor can a web page.
pub open spec fn segment_verdict(id: nat, status: u16, content_type: Option<Seq<char>>, body: Seq<char>) -> Result<(), Seq<char>> {
    if status == 200 {
        Err(no_range_refusal())
    } else if status != 206 && !is_success(status) {
        Err("Segment "@ + decimal_text(id) + " server returned status "@ + decimal_text(status as nat) + ": "@
            + byte_prefix_text(body, 200))
    } else if is_html_type(content_type) {
        Err(html_refusal())
    } else {
        Ok(())
    }
}

/// The error text of a result, as text.
pub open spec fn error_view(r: Result<(), String>) -> Result<(), Seq<char>> {
    match r {
        Ok(()) => Ok(()),
        Err(e) => Err(e@),
    }
}

/// Checks the response to a segment's request (see `segment_verdict`); a refused segment
/// is marked failed. `body` is the body of a response whose status is outside
/// `200..=299`, read as text (empty where it could not be read).
pub fn check_segment_response(seg: &mut Segment, status: u16, content_type: &Option<String>, body: &str) -> (r: Result<(), String>)
    requires
        is_char_boundary(body@, 200),
    ensures
        error_view(r) == segment_verdict(old(seg).id as nat, status, opt_view(*content_type), body@),
        r is Err ==> final(seg).status == SegmentStatus::Failed,
        r is Ok ==> final(seg).status == old(seg).status,
        final(seg).id == old(seg).id,
        final(seg).start_byte == old(seg).start_byte,
        final(seg).end_byte == old(seg).end_byte,
        final(seg).downloaded == old(seg).downloaded,
        final(seg).temp_file == old(seg).temp_file,
{
    let r = if status == 200 {
        Err(String::from_str(
            "Server does not support Range requests (returned 200 instead of 206). Cannot do multi-segment download.",
        ))
    } else if status != 206 && !(200 <= status && status <= 299) {
        let mut msg: Vec<char> = Vec::new();
        push_str(&mut msg, "Segment ");
        push_decimal(&mut msg, seg.id as u64);
        push_str(&mut msg, " server returned status ");
        push_decimal(&mut msg, status as u64);
        push_str(&mut msg, ": ");
        let preview = byte_prefix(body, 200);
        push_str(&mut msg, preview.as_str());
        Err(string_from_chars(msg.as_slice()))
    } else if is_html_content_type(content_type) {
        Err(String::from_str("Failed: got HTML page instead of file, possible session or cookie issue"))
    } else {
        Ok(())
    };
    if r.is_err() {
        seg.status = SegmentStatus::Failed;
    }
    r
}

/// Whether the response to a single-stream request can be saved: a status outside
/// `200..=299` cannot (its message quotes the first 500 bytes of the body), nor can a
/// web page.
pub open spec fn single_verdict(status: u16, status_text: Seq<char>, content_type: Option<Seq<char>>, body: Seq<char>) -> Result<(), Seq<char>> {
    if !is_success(status) {
        Err("Server returned status "@ + status_text + ": "@ + byte_prefix_text(body, 500))
    } else if is_html_type(content_type) {
        Err(html_refusal())
    } else {
        Ok(())
    }
}

/// Checks the response to a single-stream request (see `single_verdict`).
pub fn check_single_response(status: u16, status_text: &str, content_type: &Option<String>, body: &str) -> (r: Result<(), String>)
    requires
        is_char_boundary(body@, 500),
    ensures
        error_view(r) == single_verdict(status, status_text@, opt_view(*content_type), body@),
{
    if !(200 <= status && status <= 299) {
        let mut msg: Vec<char> = Vec::new();
        push_str(&mut msg, "Server returned status ");
        push_str(&mut msg, status_text);
        push_str(&mut msg, ": ");
        let preview = byte_prefix(body, 500);
        push_str(&mut msg, preview.as_str());
        return Err(string_from_chars(msg.as_slice()));
    }
    if is_html_content_type(content_type) {
        return Err(String::from_str("Failed: got HTML page instead of file, possible session or cookie issue"));
    }
    Ok(())
}

/// The words of a transfer that ended before all its bytes came.
pub open spec fn premature_eof(received: nat, expected: nat) -> Seq<char> {
    "Premature EOF ("@ + decimal_text(received) + " of "@ + decimal_text(expected) + " bytes)"@
}

fn premature_eof_message(received: u64, expected: u64) -> (r: String)
    ensures
        r@ == premature_eof(received as nat, expected as nat),
{
    let mut msg: Vec<char> = Vec::new();
    push_str(&mut msg, "Premature EOF (");
    push_decimal(&mut msg, received);
    push_str(&mut msg, " of ");
    push_decimal(&mut msg, expected);
    push_str(&mut msg, " bytes)");
    string_from_chars(msg.as_slice())
}

/// Closes a segment's transfer after its stream ended: fewer bytes than the range asked
/// for fail the segment, otherwise it is complete.
pub fn finish_segment(seg: &mut Segment, received: u64, expected: u64) -> (r: Result<(), String>)
    ensures
        received < expected ==> (r matches Err(e) && e@ == premature_eof(received as nat, expected as nat)
            && final(seg).status == SegmentStatus::Failed),
        received >= expected ==> r is Ok && final(seg).status == SegmentStatus::Completed,
        final(seg).id == old(seg).id,
        final(seg).start_byte == old(seg).start_byte,
        final(seg).end_byte == old(seg).end_byte,
        final(seg).downloaded == old(seg).downloaded,
        final(seg).temp_file == old(seg).temp_file,
{
    if received < expected {
        seg.status = SegmentStatus::Failed;
        return Err(premature_eof_message(received, expected));
    }
    seg.status = SegmentStatus::Completed;
    Ok(())
}

/// Closes a single-stream transfer after its stream ended: where the size is known,
/// fewer bytes fail it.
pub fn finish_single(downloaded: u64, actual_size: u64) -> (r: Result<(), String>)
    ensures
        actual_size > 0 && downloaded < actual_size ==> (r matches Err(e) && e@ == premature_eof(
            downloaded as nat,
            actual_size as nat,
        )),
        !(actual_size > 0 && downloaded < actual_size) ==> r is Ok,
{
    if actual_size > 0 && downloaded < actual_size {
        return Err(premature_eof_message(downloaded, actual_size));
    }
    Ok(())
}

/// Whether a failed transfer is tried again: not after success, not once the download
/// is cancelled or out of retries, and not after a refusal that another try would only
/// repeat (a web page in place of the file, or a server that ignores ranges).
pub open spec fn retry_allowed(succeeded: bool, cancelled: bool, retries: u64, error: Seq<char>) -> bool {
    !succeeded && !cancelled && retries < MAX_DOWNLOAD_RETRIES && !crate::text::contains_seq(
        error,
        "got HTML page instead of file"@,
    ) && !crate::text::contains_seq(error, "returned 200 instead of 206"@)
}

/// A failed transfer that is not cancelled and has retries left is always tried again,
/// whatever went wrong (a timeout, a dropped connection, a server error), except after a
/// web page in place of the file or a server that ignores ranges; a transfer that
/// succeeded, was cancelled or is out of retries is never tried again.
pub proof fn only_hard_refusals_stop_retries(succeeded: bool, cancelled: bool, retries: u64, error: Seq<char>)
    ensures
        retry_allowed(succeeded, cancelled, retries, error) <==> (!succeeded && !cancelled && retries
            < 10 && !(exists|i: int| 0 <= i && i + 29 <= error.len() && #[trigger] error.subrange(i, i + 29)
            == "got HTML page instead of file"@) && !(exists|i: int| 0 <= i && i + 27 <= error.len()
            && #[trigger] error.subrange(i, i + 27) == "returned 200 instead of 206"@)),
{
    reveal_strlit("got HTML page instead of file");
    reveal_strlit("returned 200 instead of 206");
    let html = "got HTML page instead of file"@;
    let range = "returned 200 instead of 206"@;
    assert(html.len() == 29 && range.len() == 27);
    if crate::text::contains_seq(error, html) {
        let i = choose|i: int| crate::text::occurs_at(error, html, i);
        assert(error.subrange(i, i + 29) == html);
    }
    if crate::text::contains_seq(error, range) {
        let i = choose|i: int| crate::text::occurs_at(error, range, i);
        assert(error.subrange(i, i + 27) == range);
    }
    if exists|i: int| 0 <= i && i + 29 <= error.len() && #[trigger] error.subrange(i, i + 29) == html {
        let i = choose|i: int| 0 <= i && i + 29 <= error.len() && #[trigger] error.subrange(i, i + 29) == html;
        assert(crate::text::occurs_at(error, html, i));
    }
    if exists|i: int| 0 <= i && i + 27 <= error.len() && #[trigger] error.subrange(i, i + 27) == range {
        let i = choose|i: int| 0 <= i && i + 27 <= error.len() && #[trigger] error.subrange(i, i + 27) == range;
        assert(crate::text::occurs_at(error, range, i));
    }
}

/// Decides whether to try a transfer again (see `retry_allowed`); `error` is the
/// message of the failed attempt, unused after a success.
pub fn should_retry(succeeded: bool, cancelled: bool, retries: u64, error: &str) -> (r: bool)
    ensures
        r == retry_allowed(succeeded, cancelled, retries, error@),
{
    if succeeded || cancelled || retries >= MAX_DOWNLOAD_RETRIES {
        return false;
    }
    !crate::text::str_contains(error, "got HTML page instead of file") && !crate::text::str_contains(
        error,
        "returned 200 instead of 206",
    )
}

/// `2` to the power `e`.
pub open spec fn pow2(e: nat) -> nat
    decreases e,
{
    if e == 0 {
        1
    } else {
        2 * pow2((e - 1) as nat)
    }
}

/// Seconds to wait before retry number `retries` (counted from 1): 1, 2, 4, 8, 16, then
/// 20 from then on (`min(20, 2^(retries - 1))`); before a zeroth retry, as before the
/// first.
pub open spec fn retry_delay(retries: nat) -> nat {
    let e: nat = if retries <= 1 { 0 } else if retries - 1 < 6 { (retries - 1) as nat } else { 6 };
    if pow2(e) < 20 { pow2(e) } else { 20 }
}

/// Seconds to wait before retry number `retries`.
pub fn retry_delay_secs(retries: u64) -> (s: u64)
    ensures
        s == retry_delay(retries as nat),
{
    let e: u64 = if retries <= 1 { 0 } else if retries - 1 < 6 { retries - 1 } else { 6 };
    let mut p: u64 = 1;
    let mut k: u64 = 0;
    while k < e
        invariant
            k <= e <= 6,
            p == pow2(k as nat),
            p <= 64,
        decreases e - k,
    {
        proof {
            reveal_with_fuel(pow2, 7);
        }
        p = p * 2;
        k = k + 1;
    }
    if p < 20 { p } else { 20 }
}

/// Waits between retries never shrink as retries go on, and never pass 20 seconds.
pub proof fn retry_delays_grow_to_cap(a: nat, b: nat)
    requires
        a <= b,
    ensures
        1 <= retry_delay(a) <= retry_delay(b) <= 20,
{
    reveal_with_fuel(pow2, 7);
    assert(pow2(0) == 1 && pow2(1) == 2 && pow2(2) == 4 && pow2(3) == 8 && pow2(4) == 16 && pow2(5) == 32 && pow2(6) == 64);
}


/// The headers a request carries from the browser context: `Cookie`, `Referer` and
/// `User-Agent`, each where it is given and not empty.
pub open spec fn context_headers_of(ctx: HttpContext) -> Seq<(Seq<char>, Seq<char>)> {
    let c = match opt_view(ctx.cookies) {
        Some(v) => if v.len() > 0 { seq![("Cookie"@, v)] } else { Seq::empty() },
        None => Seq::empty(),
    };
    let r = match opt_view(ctx.referer) {
        Some(v) => if v.len() > 0 { seq![("Referer"@, v)] } else { Seq::empty() },
        None => Seq::empty(),
    };
    let u = match opt_view(ctx.user_agent) {
        Some(v) => if v.len() > 0 { seq![("User-Agent"@, v)] } else { Seq::empty() },
        None => Seq::empty(),
    };
    c + r + u
}

/// The headers a request carries from the browser context, in order (see
/// `context_headers_of`).
pub fn context_headers(ctx: &HttpContext) -> (r: Vec<(String, String)>)
    ensures
        r@.map_values(|h: (String, String)| (h.0@, h.1@)) == context_headers_of(*ctx),
{
    let mut out: Vec<(String, String)> = Vec::new();
    let ghost v0 = out@.map_values(|h: (String, String)| (h.0@, h.1@));
    match &ctx.cookies {
        Some(v) => {
            if v.unicode_len() > 0 {
                out.push((String::from_str("Cookie"), v.clone()));
            }
        },
        None => {},
    }
    let ghost v1 = out@.map_values(|h: (String, String)| (h.0@, h.1@));
    match &ctx.referer {
        Some(v) => {
            if v.unicode_len() > 0 {
                out.push((String::from_str("Referer"), v.clone()));
            }
        },
        None => {},
    }
    let ghost v2 = out@.map_values(|h: (String, String)| (h.0@, h.1@));
    match &ctx.user_agent {
        Some(v) => {
            if v.unicode_len() > 0 {
                out.push((String::from_str("User-Agent"), v.clone()));
            }
        },
        None => {},
    }
    proof {
        let spec_c = match opt_view(ctx.cookies) {
            Some(v) => if v.len() > 0 { seq![("Cookie"@, v)] } else { Seq::empty() },
            None => Seq::empty(),
        };
        assert(v1 =~= spec_c);
    }
    assert(out@.map_values(|h: (String, String)| (h.0@, h.1@)) =~= context_headers_of(*ctx));
    out
}

} // verus!
