//! Messages shown to the user for download errors.

use vstd::prelude::*;
use crate::text::{chars_of, contains_seq, lit, lowercase, contains_vec, to_lowercase};

verus! {

/// The message shown for a download that failed with `error`: a known kind of failure,
/// recognised in the lowercased text, gets an explanation; any other error is shown as is.
pub open spec fn friendly_error_text(error: Seq<char>) -> Seq<char> {
    let lower = lowercase(error);
    if contains_seq(lower, "got html page instead of file"@) || contains_seq(lower, "text/html"@) {
        "The server returned a web page instead of the file. The link may require a fresh login, cookies, or a refreshed URL."@
    } else if contains_seq(lower, "returned 200 instead of 206"@) || contains_seq(lower, "does not support range"@) {
        "This server does not support multi-part resume downloads. Try again as a single connection or refresh the link."@
    } else if contains_seq(lower, "no space"@) || contains_seq(lower, "disk full"@) {
        "Not enough disk space for this download."@
    } else if contains_seq(lower, "permission denied"@) || contains_seq(lower, "access is denied"@) {
        "Velocity cannot write to the selected folder. Choose another save location or check folder permissions."@
    } else if contains_seq(lower, "timed out"@) || contains_seq(lower, "timeout"@) || contains_seq(lower, "stalled"@) {
        "The connection stalled or timed out. Use Retry to continue from the saved progress."@
    } else if contains_seq(lower, "too many redirects"@) {
        "The link redirected too many times. The URL may be expired or protected."@
    } else if contains_seq(lower, "requested format is not available"@) || contains_seq(lower, "format unavailable"@) {
        "Format unavailable, try a different quality"@
    } else if contains_seq(lower, "ffmpeg"@) {
        "yt-dlp needs FFmpeg to merge this media. Install FFmpeg or place ffmpeg.exe next to Velocity Downloader, then retry."@
    } else if contains_seq(lower, "yt-dlp was not found"@) || contains_seq(lower, "no module named yt_dlp"@) {
        "Media downloads need yt-dlp. Install yt-dlp, place yt-dlp.exe next to Velocity Downloader, or set VELOCITY_YTDLP."@
    } else {
        error
    }
}

fn has(lower: &Vec<char>, pat: &str) -> (r: bool)
    ensures
        r == contains_seq(lower@, pat@),
{
    let p = lit(pat);
    contains_vec(lower, &p)
}

/// Turns a download error into the message shown to the user.
pub fn friendly_error(error: &str) -> (r: String)
    ensures
        r@ == friendly_error_text(error@),
{
    let lower_text = to_lowercase(error);
    let lower = chars_of(lower_text.as_str());
    if has(&lower, "got html page instead of file") || has(&lower, "text/html") {
        String::from_str("The server returned a web page instead of the file. The link may require a fresh login, cookies, or a refreshed URL.")
    } else if has(&lower, "returned 200 instead of 206") || has(&lower, "does not support range") {
        String::from_str("This server does not support multi-part resume downloads. Try again as a single connection or refresh the link.")
    } else if has(&lower, "no space") || has(&lower, "disk full") {
        String::from_str("Not enough disk space for this download.")
    } else if has(&lower, "permission denied") || has(&lower, "access is denied") {
        String::from_str("Velocity cannot write to the selected folder. Choose another save location or check folder permissions.")
    } else if has(&lower, "timed out") || has(&lower, "timeout") || has(&lower, "stalled") {
        String::from_str("The connection stalled or timed out. Use Retry to continue from the saved progress.")
    } else if has(&lower, "too many redirects") {
        String::from_str("The link redirected too many times. The URL may be expired or protected.")
    } else if has(&lower, "requested format is not available") || has(&lower, "format unavailable") {
        String::from_str("Format unavailable, try a different quality")
    } else if has(&lower, "ffmpeg") {
        String::from_str("yt-dlp needs FFmpeg to merge this media. Install FFmpeg or place ffmpeg.exe next to Velocity Downloader, then retry.")
    } else if has(&lower, "yt-dlp was not found") || has(&lower, "no module named yt_dlp") {
        String::from_str("Media downloads need yt-dlp. Install yt-dlp, place yt-dlp.exe next to Velocity Downloader, or set VELOCITY_YTDLP.")
    } else {
        String::from_str(error)
    }
}

} // verus!
