//! Messages from the browser extension: the native-messaging protocol (length-prefixed
//! frames and their answers), requests to the local API, and the browsers' extension
//! pages.

use vstd::prelude::*;
use crate::models::{HttpContext, new_uuid, opt_view};
use crate::naming::is_text;
use crate::media::{is_likely_media_page_url, is_media_page};
use crate::text::{chars_of, push_str, string_from_chars, trim, trim_vec};

verus! {

/// Message received from the browser extension.
#[derive(Debug)]
pub struct NativeMessage {
    /// Action type: `intercept_download`, `get_status` or `ping`.
    pub action: String,
    /// URL to download (for `intercept_download`).
    pub url: Option<String>,
    /// Suggested filename.
    pub filename: Option<String>,
    /// Referrer URL.
    pub referrer: Option<String>,
    /// File size, where known.
    pub file_size: Option<u64>,
    /// MIME type, where known.
    pub mime_type: Option<String>,
}

/// Response sent back to the browser extension.
#[derive(Debug)]
pub struct NativeResponse {
    pub success: bool,
    pub message: String,
    pub download_id: Option<String>,
}

/// The answer to a message, apart from the id of an intercepted download:
/// `ping` gets `pong`; `get_status` gets `running`; `intercept_download` is taken with
/// `Download intercepted: <url>` where it names a URL, and refused with
/// `No URL provided` where it does not; any other action is refused as unknown.
pub open spec fn answer(action: Seq<char>, url: Option<Seq<char>>) -> (bool, Seq<char>) {
    if action == "ping"@ {
        (true, "pong"@)
    } else if action == "intercept_download"@ {
        match url {
            Some(u) => (true, "Download intercepted: "@ + u),
            None => (false, "No URL provided"@),
        }
    } else if action == "get_status"@ {
        (true, "running"@)
    } else {
        (false, "Unknown action: "@ + action)
    }
}

/// An intercepted download is the one answer that carries an id.
pub open spec fn gets_download_id(action: Seq<char>, url: Option<Seq<char>>) -> bool {
    action == "intercept_download"@ && url is Some
}

fn joined(a: &str, b: &str) -> (r: String)
    ensures
        r@ == a@ + b@,
{
    let mut v: Vec<char> = Vec::new();
    push_str(&mut v, a);
    push_str(&mut v, b);
    string_from_chars(v.as_slice())
}

/// Answers a message from the browser extension (see `answer`); an intercepted download
/// gets a fresh random id.
pub fn process_message(msg: NativeMessage) -> (r: NativeResponse)
    ensures
        (r.success, r.message@) == answer(msg.action@, opt_view(msg.url)),
        r.download_id is Some <==> gets_download_id(msg.action@, opt_view(msg.url)),
        r.download_id matches Some(id) ==> id@.len() == 36,
{
    let action = chars_of(msg.action.as_str());
    proof {
        reveal_strlit("ping");
        reveal_strlit("intercept_download");
        reveal_strlit("get_status");
        assert("ping"@.len() != "intercept_download"@.len());
    }
    if is_text(&action, "ping") {
        return NativeResponse { success: true, message: String::from_str("pong"), download_id: None };
    }
    if is_text(&action, "intercept_download") {
        return match msg.url {
            Some(url) => NativeResponse {
                success: true,
                message: joined("Download intercepted: ", url.as_str()),
                download_id: Some(new_uuid()),
            },
            None => NativeResponse {
                success: false,
                message: String::from_str("No URL provided"),
                download_id: None,
            },
        };
    }
    if is_text(&action, "get_status") {
        return NativeResponse { success: true, message: String::from_str("running"), download_id: None };
    }
    NativeResponse {
        success: false,
        message: joined("Unknown action: ", msg.action.as_str()),
        download_id: None,
    }
}

/// Largest message the host accepts: 1 MiB.
pub const MAX_MESSAGE_LEN: u32 = 1048576;

/// The number a 4-byte little-endian length prefix holds.
pub open spec fn le_value(b: Seq<u8>) -> nat {
    b[0] as nat + 256 * (b[1] as nat) + 65536 * (b[2] as nat) + 16777216 * (b[3] as nat)
}

/// Reads the length prefix of an incoming message: the length it gives, or `None`
/// where that is more than `MAX_MESSAGE_LEN` ("Message too large").
pub fn frame_length(prefix: [u8; 4]) -> (r: Option<usize>)
    ensures
        le_value(prefix@) <= MAX_MESSAGE_LEN ==> r == Some(le_value(prefix@) as usize),
        le_value(prefix@) > MAX_MESSAGE_LEN ==> r is None,
{
    let n: u32 = (prefix[0] as u32) + 256 * (prefix[1] as u32) + 65536 * (prefix[2] as u32)
        + 16777216 * (prefix[3] as u32);
    if n > MAX_MESSAGE_LEN {
        None
    } else {
        Some(n as usize)
    }
}

/// The 4-byte little-endian form of `n`.
pub open spec fn le_bytes(n: nat) -> Seq<u8> {
    seq![(n % 256) as u8, ((n / 256) % 256) as u8, ((n / 65536) % 256) as u8, ((n / 16777216) % 256) as u8]
}

/// Frames an outgoing message: its length as a 4-byte little-endian `u32`, then the
/// message. The length is taken modulo 2^32, as a cast to `u32` does.
pub fn frame_message(payload: &Vec<u8>) -> (r: Vec<u8>)
    ensures
        r@ == le_bytes(payload@.len() % 4294967296) + payload@,
{
    let len = payload.len();
    let n: u64 = (len as u64) % 4294967296;
    let mut out: Vec<u8> = Vec::new();
    out.push((n % 256) as u8);
    out.push(((n / 256) % 256) as u8);
    out.push(((n / 65536) % 256) as u8);
    out.push(((n / 16777216) % 256) as u8);
    let mut i: usize = 0;
    while i < payload.len()
        invariant
            i <= payload@.len(),
            out@ == le_bytes(payload@.len() % 4294967296) + payload@.take(i as int),
        decreases payload@.len() - i,
    {
        out.push(payload[i]);
        i = i + 1;
        assert(out@ =~= le_bytes(payload@.len() % 4294967296) + payload@.take(i as int));
    }
    assert(payload@.take(i as int) =~= payload@);
    out
}

/// A framed message of at most `MAX_MESSAGE_LEN` bytes reads back whole: its prefix
/// gives its length, and the bytes after the prefix are the message.
pub proof fn framed_message_reads_back(payload: Seq<u8>)
    requires
        payload.len() <= MAX_MESSAGE_LEN,
    ensures
        le_value((le_bytes(payload.len() % 4294967296) + payload).take(4)) == payload.len(),
        (le_bytes(payload.len() % 4294967296) + payload).skip(4) == payload,
{
    let n = payload.len();
    assert(n % 4294967296 == n);
    let b = le_bytes(n);
    let f = b + payload;
    assert(f.take(4) =~= b);
    assert(f.skip(4) =~= payload);
    assert((n % 256) + 256 * ((n / 256) % 256) + 65536 * ((n / 65536) % 256) + 16777216 * ((n / 16777216) % 256) == n) by (nonlinear_arith)
        requires n <= 1048576;
}

/// Request body sent by the browser extension to the local API. The context fields are
/// absent when the extension is an older build or the download was started by hand.
#[derive(Debug)]
pub struct DownloadRequest {
    pub url: String,
    pub cookies: Option<String>,
    pub referer: Option<String>,
    pub user_agent: Option<String>,
}

impl DownloadRequest {
    /// The browser context the request carries.
    pub fn http_context(&self) -> (c: HttpContext)
        ensures
            opt_view(c.cookies) == opt_view(self.cookies),
            opt_view(c.referer) == opt_view(self.referer),
            opt_view(c.user_agent) == opt_view(self.user_agent),
    {
        HttpContext {
            cookies: crate::models::clone_opt_string(&self.cookies),
            referer: crate::models::clone_opt_string(&self.referer),
            user_agent: crate::models::clone_opt_string(&self.user_agent),
        }
    }
}

/// Answer of the local API to a download request.
#[derive(Debug)]
pub struct DownloadResponse {
    pub success: bool,
    pub message: String,
}

impl DownloadResponse {
    /// The answer once the request was handed to the window (`Ok`) or could not be
    /// (`Err` with the reason).
    pub fn delivered(outcome: Result<(), String>) -> (r: DownloadResponse)
        ensures
            outcome is Ok ==> r.success && r.message@ == "Download triggered in UI"@,
            outcome matches Err(e) ==> !r.success && r.message@ == e@,
    {
        match outcome {
            Ok(()) => DownloadResponse { success: true, message: String::from_str("Download triggered in UI") },
            Err(e) => DownloadResponse { success: false, message: e },
        }
    }
}

/// The extensions page of a browser known to the setup guide, or empty text.
pub open spec fn browser_ext_url(browser: Seq<char>) -> Seq<char> {
    if browser == "chrome"@ {
        "chrome://extensions"@
    } else if browser == "edge"@ {
        "edge://extensions"@
    } else if browser == "brave"@ {
        "brave://extensions"@
    } else if browser == "opera"@ {
        "opera://extensions"@
    } else if browser == "vivaldi"@ {
        "vivaldi://extensions"@
    } else {
        ""@
    }
}

/// The extensions page of a browser, for the extension setup guide.
pub fn get_browser_ext_url(browser: &str) -> (r: &'static str)
    ensures
        r@ == browser_ext_url(browser@),
{
    let b = chars_of(browser);
    if is_text(&b, "chrome") {
        "chrome://extensions"
    } else if is_text(&b, "edge") {
        "edge://extensions"
    } else if is_text(&b, "brave") {
        "brave://extensions"
    } else if is_text(&b, "opera") {
        "opera://extensions"
    } else if is_text(&b, "vivaldi") {
        "vivaldi://extensions"
    } else {
        ""
    }
}

/// The extensions page the main window opens: Edge's, Brave's, or else Chrome's.
pub fn browser_extensions_page(browser: &str) -> (r: &'static str)
    ensures
        r@ == (if browser@ == "edge"@ {
            "edge://extensions"@
        } else if browser@ == "brave"@ {
            "brave://extensions"@
        } else {
            "chrome://extensions"@
        }),
{
    let b = chars_of(browser);
    if is_text(&b, "edge") {
        "edge://extensions"
    } else if is_text(&b, "brave") {
        "brave://extensions"
    } else {
        "chrome://extensions"
    }
}

/// The name of a browser as the main window shows it: Microsoft Edge, Brave, or else
/// Chrome.
pub fn browser_display_name(browser: &str) -> (r: &'static str)
    ensures
        r@ == (if browser@ == "edge"@ {
            "Microsoft Edge"@
        } else if browser@ == "brave"@ {
            "Brave"@
        } else {
            "Chrome"@
        }),
{
    let b = chars_of(browser);
    if is_text(&b, "edge") {
        "Microsoft Edge"
    } else if is_text(&b, "brave") {
        "Brave"
    } else {
        "Chrome"
    }
}


/// What the local API does with a download the browser extension sends.
#[derive(Debug)]
pub enum ExtensionPlan {
    /// Refuse it, with this answer.
    Refuse(DownloadResponse),
    /// Open the add-download window for this URL.
    OpenDialog(String),
    /// Add and start the download of this URL at once.
    StartNow(String),
}

/// Decides what the local API does with a download from the browser: an empty URL
/// (once trimmed) is refused with `URL is empty`; the add-download window opens where
/// the settings ask for it or the URL is a media page; otherwise the download starts
/// at once. The URL handed on is trimmed.
pub fn extension_plan(url: &str, show_dialog: bool) -> (r: ExtensionPlan)
    ensures
        trim(url@).len() == 0 ==> (r matches ExtensionPlan::Refuse(resp) && !resp.success && resp.message@ == "URL is empty"@),
        trim(url@).len() > 0 && (show_dialog || is_media_page(trim(url@))) ==> (r matches ExtensionPlan::OpenDialog(u) && u@ == trim(url@)),
        trim(url@).len() > 0 && !(show_dialog || is_media_page(trim(url@))) ==> (r matches ExtensionPlan::StartNow(u) && u@ == trim(url@)),
{
    let v = chars_of(url);
    let t = trim_vec(&v);
    if t.len() == 0 {
        return ExtensionPlan::Refuse(DownloadResponse { success: false, message: String::from_str("URL is empty") });
    }
    let u = string_from_chars(t.as_slice());
    if show_dialog || is_likely_media_page_url(u.as_str()) {
        ExtensionPlan::OpenDialog(u)
    } else {
        ExtensionPlan::StartNow(u)
    }
}

/// The answer once the download the browser sent was started (`Ok`) or could not be
/// (`Err` with the reason); or, with `opened`, once the add-download window was opened
/// for it.
pub fn extension_outcome(opened: bool, started: Result<(), String>) -> (r: DownloadResponse)
    ensures
        opened ==> r.success && r.message@ == "Download opened in Velocity Download Manager"@,
        !opened && started is Ok ==> r.success && r.message@ == "Download started in Velocity Download Manager"@,
        !opened ==> (started matches Err(e) ==> !r.success && r.message@ == e@),
{
    if opened {
        return DownloadResponse { success: true, message: String::from_str("Download opened in Velocity Download Manager") };
    }
    match started {
        Ok(()) => DownloadResponse { success: true, message: String::from_str("Download started in Velocity Download Manager") },
        Err(e) => DownloadResponse { success: false, message: e },
    }
}

} // verus!
