//! A download task and the changes of state that the manager makes to it.

use vstd::prelude::*;
use crate::engine::{calculate_segments, calculated_segments_fit, create_segments, planned_end, planned_start, segment_count};
use crate::messages::{friendly_error, friendly_error_text};
use crate::models::{DownloadKind, DownloadStatus, HttpContext, Segment, SegmentStatus, new_uuid, opt_view, segment_file_name};
use crate::naming::{meta_file_name, meta_file_name_text};
use crate::paths::{file_name_of, joined_path, parent_of, path_file_name, path_join, path_parent};
use crate::text::{push_str, string_from_chars};

verus! {

/// The current time as milliseconds since the Unix epoch (`chrono::Utc::now`).
/// Nothing is stated of the value: it is read from the clock.
#[verifier::external_body]
pub(crate) fn now_millis() -> (r: i64) {
    chrono::Utc::now().timestamp_millis()
}

/// Core download task record. Times are milliseconds since the Unix epoch.
#[derive(Debug)]
pub struct DownloadTask {
    pub id: String,
    pub url: String,
    pub filename: String,
    pub save_path: String,
    pub total_size: u64,
    pub downloaded: u64,
    pub status: DownloadStatus,
    pub segments: Vec<Segment>,
    pub supports_range: bool,
    pub num_segments: usize,
    pub created_at: i64,
    pub updated_at: i64,
    pub error: Option<String>,
    pub content_type: Option<String>,
    pub download_kind: DownloadKind,
    pub media_format: Option<String>,
    /// Browser context forwarded by the extension (cookies, referer, user-agent).
    pub http_context: HttpContext,
    /// Per-download speed limit in bytes per second.
    pub speed_limit_bps: Option<u64>,
    /// Temporary directory override.
    pub temp_dir_override: Option<String>,
    pub scheduled_queue: bool,
    pub batch_group_id: Option<String>,
    pub batch_sequential: bool,
    pub batch_queue_index: usize,
}

/// The directory a path lies in: `Path::parent`, or `.` where there is none.
pub open spec fn parent_or_dot(path: Seq<char>) -> Seq<char> {
    match parent_of(path) {
        Some(p) => p,
        None => "."@,
    }
}

/// Where the segment files of `task` are kept: `.myidm_temp_<id>` in the temporary
/// directory override, or else beside the saved file.
pub open spec fn task_temp_dir(task: DownloadTask) -> Seq<char> {
    let parent = match task.temp_dir_override {
        Some(d) => d@,
        None => parent_or_dot(task.save_path@),
    };
    joined_path(parent, ".myidm_temp_"@ + task.id@)
}

/// Where the state of `task` is kept: `.<filename>.meta` beside the saved file.
pub open spec fn task_meta_path(task: DownloadTask) -> Seq<char> {
    joined_path(parent_or_dot(task.save_path@), meta_file_name_text(task.filename@))
}

/// `same_identity`, except for the number of segments.
pub open spec fn same_identity_but_segments(a: DownloadTask, b: DownloadTask) -> bool {
    &&& a.id@ == b.id@
    &&& a.url@ == b.url@
    &&& a.filename@ == b.filename@
    &&& a.save_path@ == b.save_path@
    &&& a.supports_range == b.supports_range
    &&& a.created_at == b.created_at
    &&& opt_view(a.content_type) == opt_view(b.content_type)
    &&& a.download_kind == b.download_kind
    &&& opt_view(a.media_format) == opt_view(b.media_format)
    &&& a.http_context == b.http_context
    &&& a.speed_limit_bps == b.speed_limit_bps
    &&& opt_view(a.temp_dir_override) == opt_view(b.temp_dir_override)
    &&& opt_view(a.batch_group_id) == opt_view(b.batch_group_id)
    &&& a.batch_sequential == b.batch_sequential
    &&& a.batch_queue_index == b.batch_queue_index
}

/// The fields that describe what is downloaded and where, and that no change of state
/// touches.
pub open spec fn same_identity(a: DownloadTask, b: DownloadTask) -> bool {
    same_identity_but_segments(a, b) && a.num_segments == b.num_segments
}

/// The segments a new task starts with, for a download of `total` bytes of kind `kind`
/// whose part files are kept in `dir`: a direct download from a server that takes ranges,
/// of known size, gets `segment_count(total, default_segments)` segments laid out by
/// `planned_start` / `planned_end`; any other gets one segment over the whole file
/// (`[0, total - 1]`, or `[0, 0]` where the size is unknown). Every segment is numbered by
/// its place, has nothing downloaded, waits, and has its part file in `dir`.
pub open spec fn has_initial_segments(
    t: DownloadTask,
    total: u64,
    kind: DownloadKind,
    supports_range: bool,
    dir: Seq<char>,
    default_segments: usize,
) -> bool {
    if kind != DownloadKind::Media && supports_range && total > 0 {
        let n = segment_count(total, default_segments);
        &&& t.num_segments == n
        &&& t.segments@.len() == n
        &&& forall|i: int| 0 <= i < n ==> {
            &&& (#[trigger] t.segments@[i]).id == i
            &&& t.segments@[i].start_byte == planned_start(total, n, i)
            &&& t.segments@[i].end_byte == planned_end(total, n, i)
            &&& t.segments@[i].downloaded == 0
            &&& t.segments@[i].status == SegmentStatus::Pending
            &&& t.segments@[i].temp_file@ == joined_path(dir, segment_file_name(i as nat))
        }
    } else {
        &&& t.num_segments == 1
        &&& t.segments@.len() == 1
        &&& t.segments@[0].id == 0
        &&& t.segments@[0].start_byte == 0
        &&& t.segments@[0].end_byte == (if total > 0 { total - 1 } else { 0 })
        &&& t.segments@[0].downloaded == 0
        &&& t.segments@[0].status == SegmentStatus::Pending
        &&& t.segments@[0].temp_file@ == joined_path(dir, segment_file_name(0))
    }
}

/// A download that stopped while it was paused restarts from byte 0 when it is one
/// stream the engine cannot resume: a media download, a server without ranges, or a
/// single segment.
pub open spec fn restarts_fresh(task: DownloadTask) -> bool {
    task.status == DownloadStatus::Paused && (task.download_kind == DownloadKind::Media
        || !task.supports_range || task.segments@.len() <= 1)
}

/// A segment put back to its start: nothing downloaded, waiting.
pub open spec fn reset_segment(s: Segment) -> Segment {
    Segment {
        id: s.id,
        start_byte: s.start_byte,
        end_byte: s.end_byte,
        downloaded: 0,
        status: SegmentStatus::Pending,
        temp_file: s.temp_file,
    }
}

/// A segment's range is well formed: it holds at least one byte, and its size fits in
/// a `u64`.
pub open spec fn range_ok(s: Segment) -> bool {
    s.start_byte <= s.end_byte && s.end_byte - s.start_byte < u64::MAX
}

pub open spec fn ranges_valid(segs: Seq<Segment>) -> bool {
    forall|i: int| 0 <= i < segs.len() ==> range_ok(#[trigger] segs[i])
}

/// Bytes downloaded over all the segments.
pub open spec fn downloaded_sum(segs: Seq<Segment>) -> int
    decreases segs.len(),
{
    if segs.len() == 0 {
        0
    } else {
        downloaded_sum(segs.drop_last()) + segs.last().downloaded
    }
}

/// Bytes covered by all the segments.
pub open spec fn size_sum(segs: Seq<Segment>) -> int
    decreases segs.len(),
{
    if segs.len() == 0 {
        0
    } else {
        size_sum(segs.drop_last()) + segs.last().size()
    }
}

proof fn lemma_size_sum_prefix(segs: Seq<Segment>, i: int)
    requires
        ranges_valid(segs),
        0 <= i <= segs.len(),
    ensures
        size_sum(segs.take(i)) <= size_sum(segs),
    decreases segs.len(),
{
    if i == segs.len() {
        assert(segs.take(i) =~= segs);
    } else {
        let d = segs.drop_last();
        assert(range_ok(segs[segs.len() - 1]));
        assert forall|k: int| 0 <= k < d.len() implies range_ok(#[trigger] d[k]) by {
            assert(d[k] == segs[k]);
        }
        lemma_size_sum_prefix(d, i);
        assert(d.take(i) =~= segs.take(i));
    }
}

proof fn lemma_downloaded_sum_prefix(segs: Seq<Segment>, i: int)
    requires
        0 <= i <= segs.len(),
    ensures
        downloaded_sum(segs.take(i)) <= downloaded_sum(segs),
    decreases segs.len(),
{
    if i == segs.len() {
        assert(segs.take(i) =~= segs);
    } else {
        let d = segs.drop_last();
        lemma_downloaded_sum_prefix(d, i);
        assert(d.take(i) =~= segs.take(i));
    }
}

/// A segment of a finished download: marked complete, with no less than its whole
/// range counted.
pub open spec fn completed_segment(s: Segment) -> Segment {
    Segment {
        id: s.id,
        start_byte: s.start_byte,
        end_byte: s.end_byte,
        downloaded: if s.downloaded < s.size() { s.size() as u64 } else { s.downloaded },
        status: SegmentStatus::Completed,
        temp_file: s.temp_file,
    }
}

/// Total size and byte count of a finished download read back from history, given the
/// length of the saved file where it could be read: a non-empty file gives both; with
/// no file, the known total counts as downloaded, or else the byte count as the total.
pub open spec fn restored_totals(total: u64, downloaded: u64, file_len: Option<u64>) -> (u64, u64) {
    match file_len {
        Some(len) => if len > 0 { (len, len) } else { (total, downloaded) },
        None => if total > 0 {
            (total, total)
        } else if downloaded > 0 {
            (downloaded, downloaded)
        } else {
            (total, downloaded)
        },
    }
}

/// Bytes of a segment found on disk: the length of its part file, at most its size, or
/// none where the file could not be read.
pub open spec fn restored_length(len: Option<u64>, size: int) -> int {
    match len {
        Some(l) => if l < size { l as int } else { size },
        None => 0,
    }
}

/// A segment of an unfinished download read back from disk.
pub open spec fn restored_segment(s: Segment, len: Option<u64>) -> Segment {
    let d = restored_length(len, s.size());
    Segment {
        id: s.id,
        start_byte: s.start_byte,
        end_byte: s.end_byte,
        downloaded: d as u64,
        status: if d >= s.size() {
            SegmentStatus::Completed
        } else if d > 0 {
            SegmentStatus::Paused
        } else {
            SegmentStatus::Pending
        },
        temp_file: s.temp_file,
    }
}

/// The status an unfinished download is restored with: one that was running or waiting
/// when the program stopped is paused.
pub open spec fn settled_status(status: DownloadStatus) -> DownloadStatus {
    match status {
        DownloadStatus::Downloading | DownloadStatus::Assembling | DownloadStatus::Queued => DownloadStatus::Paused,
        other => other,
    }
}

/// A download read back after a restart is never running, being assembled or waiting in
/// the queue: each of those becomes paused, so nothing starts on its own; a paused,
/// finished or failed download keeps its status.
pub proof fn restored_downloads_do_not_resume_by_themselves(status: DownloadStatus)
    ensures
        settled_status(status) != DownloadStatus::Downloading,
        settled_status(status) != DownloadStatus::Assembling,
        settled_status(status) != DownloadStatus::Queued,
        (status == DownloadStatus::Downloading || status == DownloadStatus::Assembling || status
            == DownloadStatus::Queued) ==> settled_status(status) == DownloadStatus::Paused,
        (status == DownloadStatus::Paused || status == DownloadStatus::Completed || status
            == DownloadStatus::Failed) ==> settled_status(status) == status,
{
}

/// A segment of a paused media download: paused unless it is complete.
pub open spec fn paused_segment(s: Segment) -> Segment {
    Segment {
        id: s.id,
        start_byte: s.start_byte,
        end_byte: s.end_byte,
        downloaded: s.downloaded,
        status: if s.status == SegmentStatus::Completed { SegmentStatus::Completed } else { SegmentStatus::Paused },
        temp_file: s.temp_file,
    }
}

/// A restored download never counts more than its segments cover: each restored segment
/// holds at most its own range, and their sum is at most the sum of the ranges.
pub proof fn restored_progress_within_file(segs: Seq<Segment>, lens: Seq<Option<u64>>)
    requires
        ranges_valid(segs),
        lens.len() == segs.len(),
    ensures
        forall|i: int| 0 <= i < segs.len() ==> (#[trigger] restored_segment(segs[i], lens[i])).downloaded
            <= segs[i].size(),
        downloaded_sum(Seq::new(segs.len(), |i: int| restored_segment(segs[i], lens[i]))) <= size_sum(segs),
    decreases segs.len(),
{
    assert forall|i: int| 0 <= i < segs.len() implies (#[trigger] restored_segment(segs[i], lens[i])).downloaded
        <= segs[i].size() by {
        assert(range_ok(segs[i]));
    }
    if segs.len() > 0 {
        let n = segs.len() - 1;
        let ds = segs.drop_last();
        let dl = lens.drop_last();
        assert forall|k: int| 0 <= k < ds.len() implies range_ok(#[trigger] ds[k]) by {
            assert(ds[k] == segs[k]);
        }
        restored_progress_within_file(ds, dl);
        let all = Seq::new(segs.len(), |i: int| restored_segment(segs[i], lens[i]));
        let prefix = Seq::new(ds.len(), |i: int| restored_segment(ds[i], dl[i]));
        assert(all.drop_last() =~= prefix);
        assert(range_ok(segs[n]));
        assert(all.last() == restored_segment(segs[n], lens[n]));
    }
}

impl DownloadTask {
    /// A queued task for `url`, saved as `filename` at `save_path`, with a fresh id, no
    /// size known yet, no segments and one connection.
    pub fn new(url: String, filename: String, save_path: String) -> (t: DownloadTask)
        ensures
            t.id@.len() == 36,
            t.url@ == url@,
            t.filename@ == filename@,
            t.save_path@ == save_path@,
            t.total_size == 0,
            t.downloaded == 0,
            t.status == DownloadStatus::Queued,
            t.segments@.len() == 0,
            !t.supports_range,
            t.num_segments == 1,
            t.created_at == t.updated_at,
            t.error is None,
            t.content_type is None,
            t.download_kind == DownloadKind::Direct,
            t.media_format is None,
            t.http_context.cookies is None,
            t.http_context.referer is None,
            t.http_context.user_agent is None,
            t.speed_limit_bps is None,
            t.temp_dir_override is None,
            !t.scheduled_queue,
            t.batch_group_id is None,
            !t.batch_sequential,
            t.batch_queue_index == 0,
    {
        let now = now_millis();
        DownloadTask {
            id: new_uuid(),
            url,
            filename,
            save_path,
            total_size: 0,
            downloaded: 0,
            status: DownloadStatus::Queued,
            segments: Vec::new(),
            supports_range: false,
            num_segments: 1,
            created_at: now,
            updated_at: now,
            error: None,
            content_type: None,
            download_kind: DownloadKind::Direct,
            media_format: None,
            http_context: HttpContext::empty(),
            speed_limit_bps: None,
            temp_dir_override: None,
            scheduled_queue: false,
            batch_group_id: None,
            batch_sequential: false,
            batch_queue_index: 0,
        }
    }

    fn parent_dir(path: &str) -> (r: String)
        ensures
            r@ == parent_or_dot(path@),
    {
        match path_parent(path) {
            Some(p) => p,
            None => String::from_str("."),
        }
    }

    /// The directory that holds the segment files of the task.
    pub fn temp_dir(&self) -> (r: String)
        ensures
            r@ == task_temp_dir(*self),
    {
        let parent = match &self.temp_dir_override {
            Some(d) => d.clone(),
            None => Self::parent_dir(self.save_path.as_str()),
        };
        let mut name: Vec<char> = Vec::new();
        push_str(&mut name, ".myidm_temp_");
        push_str(&mut name, self.id.as_str());
        let name = string_from_chars(name.as_slice());
        path_join(parent.as_str(), name.as_str())
    }

    /// The path of the state file of the task.
    pub fn meta_file_path(&self) -> (r: String)
        ensures
            r@ == task_meta_path(*self),
    {
        let parent = Self::parent_dir(self.save_path.as_str());
        let name = meta_file_name(self.filename.as_str());
        path_join(parent.as_str(), name.as_str())
    }

    /// Where a media download is written while it runs: in the task's temporary folder,
    /// under the name it is saved under. The file is moved beside `save_path` only once
    /// it is finished and no longer a hidden pre-download (see `assembly_step`).
    pub fn staged_media_path(&self) -> (r: String)
        ensures
            r@ == joined_path(task_temp_dir(*self), self.filename@),
    {
        let dir = self.temp_dir();
        path_join(dir.as_str(), self.filename.as_str())
    }

    /// Where a finished media file written at `staged_file` is moved: beside `save_path`,
    /// under the staged file's name (yt-dlp picks its extension); `save_path` itself
    /// where that path names no file.
    pub fn final_media_path(&self, staged_file: &str) -> (r: String)
        ensures
            r@ == match file_name_of(staged_file@) {
                Some(n) => joined_path(parent_or_dot(self.save_path@), n),
                None => self.save_path@,
            },
    {
        match path_file_name(staged_file) {
            Some(n) => {
                let dir = Self::parent_dir(self.save_path.as_str());
                path_join(dir.as_str(), n.as_str())
            },
            None => self.save_path.clone(),
        }
    }

    /// Marks the task as downloading. A paused task that restarts fresh (see
    /// `restarts_fresh`) loses its byte counters, and its segments are set back to their
    /// start, so that stale counts from the cancelled attempt do not hold up progress.
    pub fn prepare_start(&mut self)
        ensures
            final(self).status == DownloadStatus::Downloading,
            same_identity(*final(self), *old(self)),
            final(self).total_size == old(self).total_size,
            opt_view(final(self).error) == opt_view(old(self).error),
            final(self).scheduled_queue == old(self).scheduled_queue,
            restarts_fresh(*old(self)) ==> final(self).downloaded == 0 && final(self).segments@
                == old(self).segments@.map_values(|s: Segment| reset_segment(s)),
            !restarts_fresh(*old(self)) ==> final(self).downloaded == old(self).downloaded
                && final(self).segments@ == old(self).segments@,
    {
        let fresh = self.status == DownloadStatus::Paused && (self.download_kind
            == DownloadKind::Media || !self.supports_range || self.segments.len() <= 1);
        if fresh {
            let mut segs: Vec<Segment> = Vec::new();
            let mut i: usize = 0;
            while i < self.segments.len()
                invariant
                    i <= self.segments@.len(),
                    segs@ == self.segments@.take(i as int).map_values(|s: Segment| reset_segment(s)),
                decreases self.segments@.len() - i,
            {
                let s = &self.segments[i];
                let r = Segment {
                    id: s.id,
                    start_byte: s.start_byte,
                    end_byte: s.end_byte,
                    downloaded: 0,
                    status: SegmentStatus::Pending,
                    temp_file: s.temp_file.clone(),
                };
                segs.push(r);
                proof {
                    assert(self.segments@.take(i + 1) =~= self.segments@.take(i as int).push(*s));
                }
                i = i + 1;
                assert(segs@ =~= self.segments@.take(i as int).map_values(|s: Segment| reset_segment(s)));
            }
            assert(self.segments@.take(i as int) =~= self.segments@);
            self.downloaded = 0;
            self.segments = segs;
        }
        self.status = DownloadStatus::Downloading;
        self.updated_at = now_millis();
    }

    /// Records how a download attempt ended and says whether the task is now complete
    /// (its temporary files and state can then be removed and its history written).
    /// A task that was paused meanwhile stays paused. On success the byte count is set
    /// to the total size where that is known; on failure the error is kept in the words
    /// shown to the user.
    pub fn finish(&mut self, outcome: &Result<(), String>) -> (completed: bool)
        ensures
            completed <==> (outcome is Ok && old(self).status != DownloadStatus::Paused),
            old(self).status == DownloadStatus::Paused ==> final(self).status
                == DownloadStatus::Paused && final(self).downloaded == old(self).downloaded
                && opt_view(final(self).error) == opt_view(old(self).error),
            outcome is Ok && old(self).status != DownloadStatus::Paused ==> {
                &&& final(self).status == DownloadStatus::Completed
                &&& final(self).downloaded == (if old(self).total_size > 0 {
                    old(self).total_size
                } else {
                    old(self).downloaded
                })
                &&& opt_view(final(self).error) == opt_view(old(self).error)
            },
            outcome matches Err(e) ==> (old(self).status != DownloadStatus::Paused ==> (final(self).status == DownloadStatus::Failed && final(self).downloaded == old(self).downloaded
                && opt_view(final(self).error) == Some(friendly_error_text(e@)))),
            same_identity(*final(self), *old(self)),
            final(self).segments@ == old(self).segments@,
            final(self).total_size == old(self).total_size,
            final(self).scheduled_queue == old(self).scheduled_queue,
    {
        let mut completed = false;
        match outcome {
            Ok(()) => {
                if self.status != DownloadStatus::Paused {
                    self.status = DownloadStatus::Completed;
                    if self.total_size > 0 {
                        self.downloaded = self.total_size;
                    }
                    completed = true;
                }
            },
            Err(e) => {
                if self.status != DownloadStatus::Paused {
                    self.status = DownloadStatus::Failed;
                    self.error = Some(friendly_error(e.as_str()));
                }
            },
        }
        self.updated_at = now_millis();
        completed
    }

    /// Brings a finished download read back from history into its completed form.
    /// `file_len` is the length of the saved file, where it could be read.
    pub fn normalize_completed_history_task(&mut self, file_len: Option<u64>)
        requires
            ranges_valid(old(self).segments@),
        ensures
            final(self).status == DownloadStatus::Completed,
            final(self).error is None,
            !final(self).scheduled_queue,
            (final(self).total_size, final(self).downloaded) == restored_totals(
                old(self).total_size,
                old(self).downloaded,
                file_len,
            ),
            same_identity(*final(self), *old(self)),
            final(self).updated_at == old(self).updated_at,
            old(self).segments@.len() == 0 && final(self).total_size > 0 ==> {
                &&& final(self).segments@.len() == 1
                &&& final(self).segments@[0].id == 0
                &&& final(self).segments@[0].start_byte == 0
                &&& final(self).segments@[0].end_byte == final(self).total_size - 1
                &&& final(self).segments@[0].downloaded == final(self).total_size
                &&& final(self).segments@[0].status == SegmentStatus::Completed
                &&& final(self).segments@[0].temp_file@ == joined_path(
                    task_temp_dir(*old(self)),
                    segment_file_name(0),
                )
            },
            !(old(self).segments@.len() == 0 && final(self).total_size > 0) ==> final(self).segments@
                == old(self).segments@.map_values(|s: Segment| completed_segment(s)),
    {
        self.status = DownloadStatus::Completed;
        self.error = None;
        self.scheduled_queue = false;
        match file_len {
            Some(len) => {
                if len > 0 {
                    self.total_size = len;
                    self.downloaded = len;
                }
            },
            None => {
                if self.total_size > 0 {
                    self.downloaded = self.total_size;
                } else if self.downloaded > 0 {
                    self.total_size = self.downloaded;
                }
            },
        }
        if self.segments.len() == 0 && self.total_size > 0 {
            let temp_dir = self.temp_dir();
            let mut segment = Segment::new(0, 0, self.total_size - 1, temp_dir.as_str());
            segment.downloaded = self.total_size;
            segment.status = SegmentStatus::Completed;
            self.segments = vec![segment];
            return;
        }
        let mut segs: Vec<Segment> = Vec::new();
        let mut i: usize = 0;
        while i < self.segments.len()
            invariant
                i <= self.segments@.len(),
                ranges_valid(self.segments@),
                segs@ == self.segments@.take(i as int).map_values(|s: Segment| completed_segment(s)),
            decreases self.segments@.len() - i,
        {
            let s = &self.segments[i];
            assert(range_ok(self.segments@[i as int]));
            let size = s.total_size();
            let d = if s.downloaded < size { size } else { s.downloaded };
            let r = Segment {
                id: s.id,
                start_byte: s.start_byte,
                end_byte: s.end_byte,
                downloaded: d,
                status: SegmentStatus::Completed,
                temp_file: s.temp_file.clone(),
            };
            segs.push(r);
            proof {
                assert(self.segments@.take(i + 1) =~= self.segments@.take(i as int).push(*s));
            }
            i = i + 1;
            assert(segs@ =~= self.segments@.take(i as int).map_values(|s: Segment| completed_segment(s)));
        }
        assert(self.segments@.take(i as int) =~= self.segments@);
        self.segments = segs;
    }

    /// Checks an unfinished download read back from disk against its part files.
    /// `part_lens` holds, for each segment in turn, the length of its part file where it
    /// could be read. A task that was running or waiting is paused; where the server
    /// takes ranges, each segment counts what its file holds, and the task counts the
    /// sum over its segments.
    pub fn verify_restored_segments(&mut self, part_lens: &Vec<Option<u64>>)
        requires
            part_lens@.len() == old(self).segments@.len(),
            ranges_valid(old(self).segments@),
            size_sum(old(self).segments@) <= u64::MAX,
        ensures
            final(self).status == settled_status(old(self).status),
            same_identity(*final(self), *old(self)),
            final(self).total_size == old(self).total_size,
            opt_view(final(self).error) == opt_view(old(self).error),
            final(self).scheduled_queue == old(self).scheduled_queue,
            old(self).supports_range && old(self).segments@.len() > 0 ==> {
                &&& final(self).segments@.len() == old(self).segments@.len()
                &&& forall|i: int| 0 <= i < old(self).segments@.len() ==> #[trigger] final(self).segments@[i]
                    == restored_segment(old(self).segments@[i], part_lens@[i])
                &&& final(self).downloaded == downloaded_sum(final(self).segments@)
            },
            !(old(self).supports_range && old(self).segments@.len() > 0) ==> final(self).segments@
                == old(self).segments@ && final(self).downloaded == old(self).downloaded,
    {
        match self.status {
            DownloadStatus::Downloading | DownloadStatus::Assembling | DownloadStatus::Queued => {
                self.status = DownloadStatus::Paused;
            },
            _ => {},
        }
        if self.supports_range && self.segments.len() > 0 {
            let mut segs: Vec<Segment> = Vec::new();
            let mut total: u64 = 0;
            let mut i: usize = 0;
            while i < self.segments.len()
                invariant
                    i <= self.segments@.len(),
                    part_lens@.len() == self.segments@.len(),
                    ranges_valid(self.segments@),
                    size_sum(self.segments@) <= u64::MAX,
                    segs@.len() == i,
                    forall|k: int| 0 <= k < i ==> #[trigger] segs@[k] == restored_segment(
                        self.segments@[k],
                        part_lens@[k],
                    ),
                    total == downloaded_sum(segs@),
                    total <= size_sum(self.segments@.take(i as int)),
                decreases self.segments@.len() - i,
            {
                let s = &self.segments[i];
                assert(range_ok(self.segments@[i as int]));
                let size = s.total_size();
                let actual: u64 = match part_lens[i] {
                    Some(l) => if l < size { l } else { size },
                    None => 0,
                };
                let status = if actual >= size {
                    SegmentStatus::Completed
                } else if actual > 0 {
                    SegmentStatus::Paused
                } else {
                    SegmentStatus::Pending
                };
                let r = Segment {
                    id: s.id,
                    start_byte: s.start_byte,
                    end_byte: s.end_byte,
                    downloaded: actual,
                    status,
                    temp_file: s.temp_file.clone(),
                };
                let ghost before = segs@;
                segs.push(r);
                proof {
                    assert(self.segments@.take(i + 1).drop_last() =~= self.segments@.take(i as int));
                    assert(segs@.drop_last() =~= before);
                    lemma_size_sum_prefix(self.segments@, i + 1);
                }
                total = total + actual;
                i = i + 1;
            }
            self.segments = segs;
            self.downloaded = total;
        }
        self.updated_at = now_millis();
    }

    /// Takes in the progress of the running segments: each segment of the task is
    /// replaced by the one at the same place in `segs`, and the task counts the sum of
    /// their bytes, so that its count cannot drift from theirs across resumes.
    pub fn absorb_segments(&mut self, segs: &Vec<Segment>)
        requires
            downloaded_sum(segs@) <= u64::MAX,
        ensures
            final(self).segments@.len() == old(self).segments@.len(),
            forall|i: int| 0 <= i < old(self).segments@.len() ==> #[trigger] final(self).segments@[i]
                == if i < segs@.len() { segs@[i] } else { old(self).segments@[i] },
            final(self).downloaded == downloaded_sum(segs@),
            final(self).status == old(self).status,
            same_identity(*final(self), *old(self)),
            final(self).total_size == old(self).total_size,
            opt_view(final(self).error) == opt_view(old(self).error),
            final(self).scheduled_queue == old(self).scheduled_queue,
    {
        self.copy_segments(segs);
        let total = Self::sum_downloaded(segs);
        self.downloaded = total;
    }

    fn sum_downloaded(segs: &Vec<Segment>) -> (total: u64)
        requires
            downloaded_sum(segs@) <= u64::MAX,
        ensures
            total == downloaded_sum(segs@),
    {
        let mut total: u64 = 0;
        let mut i: usize = 0;
        while i < segs.len()
            invariant
                i <= segs@.len(),
                downloaded_sum(segs@) <= u64::MAX,
                total == downloaded_sum(segs@.take(i as int)),
            decreases segs@.len() - i,
        {
            proof {
                assert(segs@.take(i + 1).drop_last() =~= segs@.take(i as int));
                lemma_downloaded_sum_prefix(segs@, i + 1);
            }
            total = total + segs[i].downloaded;
            i = i + 1;
        }
        assert(segs@.take(i as int) =~= segs@);
        total
    }

    fn copy_segments(&mut self, segs: &Vec<Segment>)
        ensures
            final(self).segments@.len() == old(self).segments@.len(),
            forall|i: int| 0 <= i < old(self).segments@.len() ==> #[trigger] final(self).segments@[i]
                == if i < segs@.len() { segs@[i] } else { old(self).segments@[i] },
            final(self).downloaded == old(self).downloaded,
            final(self).status == old(self).status,
            final(self).updated_at == old(self).updated_at,
            same_identity(*final(self), *old(self)),
            final(self).total_size == old(self).total_size,
            opt_view(final(self).error) == opt_view(old(self).error),
            final(self).scheduled_queue == old(self).scheduled_queue,
    {
        let mut out: Vec<Segment> = Vec::new();
        let mut i: usize = 0;
        while i < self.segments.len()
            invariant
                i <= self.segments@.len(),
                out@.len() == i,
                forall|k: int| 0 <= k < i ==> #[trigger] out@[k] == if k < segs@.len() {
                    segs@[k]
                } else {
                    self.segments@[k]
                },
            decreases self.segments@.len() - i,
        {
            let s = if i < segs.len() { segs[i].duplicate() } else { self.segments[i].duplicate() };
            out.push(s);
            i = i + 1;
        }
        self.segments = out;
    }

    /// A multi-segment download failed: the segments' progress is taken in (see
    /// `absorb_segments`) and the task is marked failed, so that it can be resumed.
    pub fn fail_with_segments(&mut self, segs: &Vec<Segment>)
        requires
            downloaded_sum(segs@) <= u64::MAX,
        ensures
            final(self).status == DownloadStatus::Failed,
            final(self).segments@.len() == old(self).segments@.len(),
            forall|i: int| 0 <= i < old(self).segments@.len() ==> #[trigger] final(self).segments@[i]
                == if i < segs@.len() { segs@[i] } else { old(self).segments@[i] },
            final(self).downloaded == downloaded_sum(segs@),
            same_identity(*final(self), *old(self)),
            final(self).total_size == old(self).total_size,
    {
        self.absorb_segments(segs);
        self.status = DownloadStatus::Failed;
    }

    /// A multi-segment download was cancelled: the segments are kept as they stand for a
    /// later resume and the task is paused; its byte count is left as it was.
    pub fn pause_with_segments(&mut self, segs: &Vec<Segment>)
        ensures
            final(self).status == DownloadStatus::Paused,
            final(self).segments@.len() == old(self).segments@.len(),
            forall|i: int| 0 <= i < old(self).segments@.len() ==> #[trigger] final(self).segments@[i]
                == if i < segs@.len() { segs@[i] } else { old(self).segments@[i] },
            final(self).downloaded == old(self).downloaded,
            same_identity(*final(self), *old(self)),
            final(self).total_size == old(self).total_size,
    {
        self.copy_segments(segs);
        self.status = DownloadStatus::Paused;
    }

    /// Takes in a progress report of a single-stream download: `bytes` more were
    /// received, and the response gives `actual_total` bytes in all (0 where unknown).
    /// A known total that differs from the task's replaces it, and the end of the single
    /// segment with it; the first segment then counts the task's bytes and is marked as
    /// downloading.
    pub fn record_single_progress(&mut self, bytes: u64, actual_total: u64)
        requires
            old(self).downloaded + bytes <= u64::MAX,
        ensures
            final(self).downloaded == old(self).downloaded + bytes,
            final(self).total_size == (if actual_total > 0 { actual_total } else { old(self).total_size }),
            final(self).segments@.len() == old(self).segments@.len(),
            old(self).segments@.len() > 0 ==> {
                let s = old(self).segments@[0];
                let f = final(self).segments@[0];
                &&& f.id == s.id
                &&& f.start_byte == s.start_byte
                &&& f.end_byte == (if actual_total > 0 && actual_total != old(self).total_size {
                    (actual_total - 1) as u64
                } else {
                    s.end_byte
                })
                &&& f.downloaded == final(self).downloaded
                &&& f.status == SegmentStatus::Downloading
                &&& f.temp_file@ == s.temp_file@
            },
            forall|i: int| 1 <= i < old(self).segments@.len() ==> #[trigger] final(self).segments@[i]
                == old(self).segments@[i],
            final(self).status == old(self).status,
            same_identity(*final(self), *old(self)),
            opt_view(final(self).error) == opt_view(old(self).error),
            final(self).scheduled_queue == old(self).scheduled_queue,
    {
        self.downloaded = self.downloaded + bytes;
        let resized = actual_total > 0 && self.total_size != actual_total;
        if resized {
            self.total_size = actual_total;
        }
        if self.segments.len() > 0 {
            let first = &self.segments[0];
            let end_byte = if resized { actual_total - 1 } else { first.end_byte };
            let updated = Segment {
                id: first.id,
                start_byte: first.start_byte,
                end_byte,
                downloaded: self.downloaded,
                status: SegmentStatus::Downloading,
                temp_file: first.temp_file.clone(),
            };
            let mut out: Vec<Segment> = Vec::new();
            out.push(updated);
            let mut i: usize = 1;
            while i < self.segments.len()
                invariant
                    1 <= i <= self.segments@.len(),
                    out@.len() == i,
                    out@[0] == updated,
                    forall|k: int| 1 <= k < i ==> #[trigger] out@[k] == self.segments@[k],
                decreases self.segments@.len() - i,
            {
                out.push(self.segments[i].duplicate());
                i = i + 1;
            }
            self.segments = out;
        }
    }

    /// Takes in the byte count that a finished single-stream download reports: a
    /// non-zero count replaces the task's, and the total too where it was unknown or
    /// smaller.
    pub fn record_single_result(&mut self, actual_downloaded: u64)
        ensures
            final(self).downloaded == (if actual_downloaded > 0 { actual_downloaded } else { old(self).downloaded }),
            final(self).total_size == (if actual_downloaded > 0 && (old(self).total_size == 0
                || actual_downloaded > old(self).total_size) {
                actual_downloaded
            } else {
                old(self).total_size
            }),
            final(self).segments@ == old(self).segments@,
            final(self).status == old(self).status,
            same_identity(*final(self), *old(self)),
            opt_view(final(self).error) == opt_view(old(self).error),
            final(self).scheduled_queue == old(self).scheduled_queue,
    {
        if actual_downloaded > 0 {
            self.downloaded = actual_downloaded;
            if self.total_size == 0 || actual_downloaded > self.total_size {
                self.total_size = actual_downloaded;
            }
        }
    }

    /// Lays out the segments of a new task of `total_size` bytes: one segment over the
    /// whole file for a media download or where the server takes no ranges or the size
    /// is unknown; otherwise as many as `calculate_segments` picks for
    /// `default_segments`, laid out by `create_segments`.
    pub fn configure_segments(&mut self, default_segments: usize)
        ensures
            same_identity_but_segments(*final(self), *old(self)),
            final(self).total_size == old(self).total_size,
            final(self).downloaded == old(self).downloaded,
            final(self).status == old(self).status,
            opt_view(final(self).error) == opt_view(old(self).error),
            final(self).scheduled_queue == old(self).scheduled_queue,
            final(self).updated_at == old(self).updated_at,
            has_initial_segments(
                *final(self),
                old(self).total_size,
                old(self).download_kind,
                old(self).supports_range,
                task_temp_dir(*old(self)),
                default_segments,
            ),
    {
        let temp_dir = self.temp_dir();
        let total = self.total_size;
        if self.download_kind != DownloadKind::Media && self.supports_range && total > 0 {
            let n = calculate_segments(total, default_segments);
            proof {
                calculated_segments_fit(total, default_segments);
            }
            self.num_segments = n;
            self.segments = create_segments(total, n, temp_dir.as_str());
        } else {
            self.num_segments = 1;
            let end = if total > 0 { total - 1 } else { 0 };
            self.segments = vec![Segment::new(0, 0, end, temp_dir.as_str())];
        }
    }

    /// Takes in the total size that a media download reports. A smaller total than a
    /// known one is ignored (yt-dlp reports each phase of a merged download on its own);
    /// any other non-zero total replaces it.
    pub fn accept_media_total(&mut self, reported_total: Option<u64>)
        ensures
            final(self).total_size == match reported_total {
                Some(t) => if t > 0 && !(old(self).total_size > 0 && t < old(self).total_size) {
                    t
                } else {
                    old(self).total_size
                },
                None => old(self).total_size,
            },
            final(self).downloaded == old(self).downloaded,
            final(self).segments@ == old(self).segments@,
            final(self).status == old(self).status,
            same_identity(*final(self), *old(self)),
            opt_view(final(self).error) == opt_view(old(self).error),
            final(self).scheduled_queue == old(self).scheduled_queue,
    {
        match reported_total {
            Some(t) => {
                if t > 0 && self.total_size > 0 && t < self.total_size {
                } else if t > 0 {
                    self.total_size = t;
                }
            },
            None => {},
        }
    }

    /// Takes in the byte count that a media download reports, and says whether it was
    /// taken. A count below the task's is ignored and changes nothing: the count of a
    /// media download never goes back. Otherwise the task counts it (where there is
    /// one) and is downloading, and its single segment spans the known total and
    /// counts the same bytes.
    pub fn accept_media_downloaded(&mut self, next: Option<u64>) -> (taken: bool)
        ensures
            taken <==> !(next matches Some(d) && d < old(self).downloaded),
            !taken ==> final(self).downloaded == old(self).downloaded && final(self).status == old(self).status
                && final(self).segments@ == old(self).segments@,
            taken ==> {
                &&& final(self).downloaded == match next {
                    Some(d) => d,
                    None => old(self).downloaded,
                }
                &&& final(self).status == DownloadStatus::Downloading
                &&& final(self).segments@.len() == old(self).segments@.len()
                &&& old(self).segments@.len() > 0 ==> {
                    let s = old(self).segments@[0];
                    let f = final(self).segments@[0];
                    &&& f.id == s.id
                    &&& f.start_byte == s.start_byte
                    &&& f.end_byte == (if old(self).total_size > 0 { old(self).total_size - 1 } else { 0 })
                    &&& f.downloaded == final(self).downloaded
                    &&& f.status == SegmentStatus::Downloading
                    &&& f.temp_file@ == s.temp_file@
                }
                &&& forall|i: int| 1 <= i < old(self).segments@.len() ==> #[trigger] final(self).segments@[i]
                    == old(self).segments@[i]
            },
            final(self).downloaded >= old(self).downloaded,
            final(self).total_size == old(self).total_size,
            same_identity(*final(self), *old(self)),
            opt_view(final(self).error) == opt_view(old(self).error),
            final(self).scheduled_queue == old(self).scheduled_queue,
    {
        match next {
            Some(d) => {
                if d < self.downloaded {
                    return false;
                }
                self.downloaded = d;
            },
            None => {},
        }
        self.status = DownloadStatus::Downloading;
        let end = if self.total_size > 0 { self.total_size - 1 } else { 0 };
        self.replace_first_segment(end, SegmentStatus::Downloading);
        self.updated_at = now_millis();
        true
    }

    fn replace_first_segment(&mut self, end_byte: u64, status: SegmentStatus)
        ensures
            final(self).segments@.len() == old(self).segments@.len(),
            old(self).segments@.len() > 0 ==> {
                let s = old(self).segments@[0];
                let f = final(self).segments@[0];
                &&& f.id == s.id
                &&& f.start_byte == s.start_byte
                &&& f.end_byte == end_byte
                &&& f.downloaded == old(self).downloaded
                &&& f.status == status
                &&& f.temp_file@ == s.temp_file@
            },
            forall|i: int| 1 <= i < old(self).segments@.len() ==> #[trigger] final(self).segments@[i]
                == old(self).segments@[i],
            final(self).downloaded == old(self).downloaded,
            final(self).total_size == old(self).total_size,
            final(self).status == old(self).status,
            final(self).updated_at == old(self).updated_at,
            same_identity(*final(self), *old(self)),
            opt_view(final(self).error) == opt_view(old(self).error),
            final(self).scheduled_queue == old(self).scheduled_queue,
    {
        if self.segments.len() == 0 {
            return;
        }
        let first = &self.segments[0];
        let updated = Segment {
            id: first.id,
            start_byte: first.start_byte,
            end_byte,
            downloaded: self.downloaded,
            status,
            temp_file: first.temp_file.clone(),
        };
        let mut out: Vec<Segment> = Vec::new();
        out.push(updated);
        let mut i: usize = 1;
        while i < self.segments.len()
            invariant
                1 <= i <= self.segments@.len(),
                out@.len() == i,
                out@[0] == updated,
                forall|k: int| 1 <= k < i ==> #[trigger] out@[k] == self.segments@[k],
            decreases self.segments@.len() - i,
        {
            out.push(self.segments[i].duplicate());
            i = i + 1;
        }
        self.segments = out;
    }

    /// Takes in the path that yt-dlp reports for the file it wrote: the task is saved
    /// there, under that file's name where the path has one.
    pub fn set_media_file_path(&mut self, path: &str)
        ensures
            final(self).save_path@ == path@,
            final(self).filename@ == match file_name_of(path@) {
                Some(n) => n,
                None => old(self).filename@,
            },
            final(self).downloaded == old(self).downloaded,
            final(self).total_size == old(self).total_size,
            final(self).segments@ == old(self).segments@,
            final(self).status == old(self).status,
    {
        self.save_path = String::from_str(path);
        match path_file_name(path) {
            Some(n) => {
                self.filename = n;
            },
            None => {},
        }
    }

    /// Pauses a media download: segments that are not complete are paused too.
    pub fn pause_media(&mut self)
        ensures
            final(self).status == DownloadStatus::Paused,
            final(self).segments@.len() == old(self).segments@.len(),
            forall|i: int| 0 <= i < old(self).segments@.len() ==> #[trigger] final(self).segments@[i]
                == paused_segment(old(self).segments@[i]),
            final(self).downloaded == old(self).downloaded,
            final(self).total_size == old(self).total_size,
            same_identity(*final(self), *old(self)),
            opt_view(final(self).error) == opt_view(old(self).error),
    {
        self.status = DownloadStatus::Paused;
        let mut out: Vec<Segment> = Vec::new();
        let mut i: usize = 0;
        while i < self.segments.len()
            invariant
                i <= self.segments@.len(),
                out@.len() == i,
                forall|k: int| 0 <= k < i ==> #[trigger] out@[k] == paused_segment(self.segments@[k]),
            decreases self.segments@.len() - i,
        {
            let s = &self.segments[i];
            let status = if s.status == SegmentStatus::Completed { SegmentStatus::Completed } else { SegmentStatus::Paused };
            out.push(Segment {
                id: s.id,
                start_byte: s.start_byte,
                end_byte: s.end_byte,
                downloaded: s.downloaded,
                status,
                temp_file: s.temp_file.clone(),
            });
            i = i + 1;
        }
        self.segments = out;
        self.updated_at = now_millis();
    }

    /// Closes a finished media download. `file_len` is the length of the saved file,
    /// where it could be read: a non-empty file gives both the total and the count;
    /// with no file, an unknown total becomes the count. The single segment then spans
    /// the total and is complete.
    pub fn finalize_media(&mut self, file_len: Option<u64>)
        ensures
            (final(self).total_size, final(self).downloaded) == match file_len {
                Some(len) => if len > 0 { (len, len) } else { (old(self).total_size, old(self).downloaded) },
                None => if old(self).total_size == 0 {
                    (old(self).downloaded, old(self).downloaded)
                } else {
                    (old(self).total_size, old(self).downloaded)
                },
            },
            final(self).segments@.len() == old(self).segments@.len(),
            old(self).segments@.len() > 0 ==> {
                let s = old(self).segments@[0];
                let f = final(self).segments@[0];
                &&& f.id == s.id
                &&& f.start_byte == s.start_byte
                &&& f.end_byte == (if final(self).total_size > 0 { final(self).total_size - 1 } else { 0 })
                &&& f.downloaded == final(self).downloaded
                &&& f.status == SegmentStatus::Completed
                &&& f.temp_file@ == s.temp_file@
            },
            forall|i: int| 1 <= i < old(self).segments@.len() ==> #[trigger] final(self).segments@[i]
                == old(self).segments@[i],
            final(self).status == old(self).status,
            same_identity(*final(self), *old(self)),
            opt_view(final(self).error) == opt_view(old(self).error),
    {
        match file_len {
            Some(len) => {
                if len > 0 {
                    self.total_size = len;
                    self.downloaded = len;
                }
            },
            None => {
                if self.total_size == 0 {
                    self.total_size = self.downloaded;
                }
            },
        }
        let end = if self.total_size > 0 { self.total_size - 1 } else { 0 };
        self.replace_first_segment(end, SegmentStatus::Completed);
        self.updated_at = now_millis();
    }

    /// Pauses the task.
    pub fn pause(&mut self)
        ensures
            final(self).status == DownloadStatus::Paused,
            same_identity(*final(self), *old(self)),
            final(self).segments@ == old(self).segments@,
            final(self).total_size == old(self).total_size,
            final(self).downloaded == old(self).downloaded,
            opt_view(final(self).error) == opt_view(old(self).error),
            final(self).scheduled_queue == old(self).scheduled_queue,
    {
        self.status = DownloadStatus::Paused;
        self.updated_at = now_millis();
    }

    /// Puts the task back in the queue before it is started again.
    pub fn mark_queued(&mut self)
        ensures
            final(self).status == DownloadStatus::Queued,
            same_identity(*final(self), *old(self)),
            final(self).segments@ == old(self).segments@,
            final(self).total_size == old(self).total_size,
            final(self).downloaded == old(self).downloaded,
            opt_view(final(self).error) == opt_view(old(self).error),
            final(self).scheduled_queue == old(self).scheduled_queue,
    {
        self.status = DownloadStatus::Queued;
        self.updated_at = now_millis();
    }

    /// Moves an unfinished task into the scheduler queue without starting it; a
    /// completed download is refused.
    pub fn move_to_scheduled_queue(&mut self) -> (r: Result<(), String>)
        ensures
            old(self).status == DownloadStatus::Completed <==> r is Err,
            r matches Err(e) ==> e@ == "Completed downloads cannot be moved to the queue."@
                && final(self).status == old(self).status
                && final(self).scheduled_queue == old(self).scheduled_queue
                && final(self).updated_at == old(self).updated_at,
            r is Ok ==> final(self).status == DownloadStatus::Queued && final(self).scheduled_queue,
            same_identity(*final(self), *old(self)),
            final(self).segments@ == old(self).segments@,
            final(self).total_size == old(self).total_size,
            final(self).downloaded == old(self).downloaded,
            opt_view(final(self).error) == opt_view(old(self).error),
    {
        if self.status == DownloadStatus::Completed {
            return Err(String::from_str("Completed downloads cannot be moved to the queue."));
        }
        self.status = DownloadStatus::Queued;
        self.scheduled_queue = true;
        self.updated_at = now_millis();
        Ok(())
    }
}

} // verus!
