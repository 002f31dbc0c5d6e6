//! The download records: statuses, segments, browser context and settings.

use vstd::prelude::*;
use crate::numbers::{decimal_text, push_decimal};
use crate::paths::{joined_path, path_join};
use crate::text::{push_str, string_from_chars};

verus! {

/// Status of a download.
#[derive(Clone, Copy, Debug, PartialEq, Eq, Structural)]
pub enum DownloadStatus {
    Queued,
    Downloading,
    Paused,
    Completed,
    Failed,
    Assembling,
}

/// Status of an individual segment.
#[derive(Clone, Copy, Debug, PartialEq, Eq, Structural)]
pub enum SegmentStatus {
    Pending,
    Downloading,
    Paused,
    Completed,
    Failed,
}

/// Download engine used for the task.
#[derive(Clone, Copy, Debug, PartialEq, Eq, Structural)]
pub enum DownloadKind {
    Direct,
    Media,
}

/// The engine a task uses when a stored record names none.
pub fn default_download_kind() -> (k: DownloadKind)
    ensures
        k == DownloadKind::Direct,
{
    DownloadKind::Direct
}

/// A fresh random id: `Uuid::new_v4`, in the hyphenated form that its `Display` writes.
/// Only the length of that form is stated; the value is random.
#[verifier::external_body]
pub(crate) fn new_uuid() -> (r: String)
    ensures
        r@.len() == 36,
{
    uuid::Uuid::new_v4().to_string()
}

/// Name of the temporary file of segment `id`: `segment_<id>.part`.
pub open spec fn segment_file_name(id: nat) -> Seq<char> {
    "segment_"@ + decimal_text(id) + ".part"@
}

/// One byte range of a download, stored in its own temporary file.
/// The range is inclusive: `start_byte..=end_byte`.
#[derive(Debug)]
pub struct Segment {
    pub id: usize,
    pub start_byte: u64,
    pub end_byte: u64,
    pub downloaded: u64,
    pub status: SegmentStatus,
    pub temp_file: String,
}

impl Segment {
    /// Number of bytes in the range.
    pub open spec fn size(&self) -> int {
        self.end_byte - self.start_byte + 1
    }

    /// A pending segment for `start_byte..=end_byte` whose file is
    /// `<temp_dir>/segment_<id>.part`.
    pub fn new(id: usize, start_byte: u64, end_byte: u64, temp_dir: &str) -> (s: Segment)
        ensures
            s.id == id,
            s.start_byte == start_byte,
            s.end_byte == end_byte,
            s.downloaded == 0,
            s.status == SegmentStatus::Pending,
            s.temp_file@ == joined_path(temp_dir@, segment_file_name(id as nat)),
    {
        let mut name: Vec<char> = Vec::new();
        push_str(&mut name, "segment_");
        push_decimal(&mut name, id as u64);
        push_str(&mut name, ".part");
        let name = string_from_chars(name.as_slice());
        let temp_file = path_join(temp_dir, name.as_str());
        Segment {
            id,
            start_byte,
            end_byte,
            downloaded: 0,
            status: SegmentStatus::Pending,
            temp_file,
        }
    }

    /// Number of bytes in the range `start_byte..=end_byte`.
    pub fn total_size(&self) -> (n: u64)
        requires
            self.start_byte <= self.end_byte,
            self.end_byte - self.start_byte < u64::MAX,
        ensures
            n == self.size(),
    {
        self.end_byte - self.start_byte + 1
    }

    /// A copy of this segment.
    pub fn duplicate(&self) -> (s: Segment)
        ensures
            s == *self,
    {
        Segment {
            id: self.id,
            start_byte: self.start_byte,
            end_byte: self.end_byte,
            downloaded: self.downloaded,
            status: self.status,
            temp_file: self.temp_file.clone(),
        }
    }
}

/// HTTP context forwarded from the browser extension.
/// All fields are optional: manual downloads have none of them.
#[derive(Debug)]
pub struct HttpContext {
    /// Cookie header value, e.g. "session=abc; token=xyz".
    pub cookies: Option<String>,
    /// Referer URL of the page that triggered the download.
    pub referer: Option<String>,
    /// Browser User-Agent string.
    pub user_agent: Option<String>,
}

pub open spec fn opt_view(o: Option<String>) -> Option<Seq<char>> {
    match o {
        Some(s) => Some(s@),
        None => None,
    }
}

pub fn clone_opt_string(o: &Option<String>) -> (r: Option<String>)
    ensures
        r == *o,
{
    match o {
        Some(s) => Some(s.clone()),
        None => None,
    }
}

impl HttpContext {
    /// The context with no fields.
    pub fn empty() -> (c: HttpContext)
        ensures
            c.cookies is None,
            c.referer is None,
            c.user_agent is None,
    {
        HttpContext { cookies: None, referer: None, user_agent: None }
    }

    /// A copy of this context.
    pub fn duplicate(&self) -> (c: HttpContext)
        ensures
            c == *self,
    {
        HttpContext {
            cookies: clone_opt_string(&self.cookies),
            referer: clone_opt_string(&self.referer),
            user_agent: clone_opt_string(&self.user_agent),
        }
    }
}

impl Default for HttpContext {
    fn default() -> (c: HttpContext)
        ensures
            c.cookies is None,
            c.referer is None,
            c.user_agent is None,
    {
        HttpContext::empty()
    }
}

} // verus!
