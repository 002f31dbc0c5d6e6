//! The download list of the main window: labels, category filters, batch URL lists and
//! keyboard selection.

use vstd::prelude::*;
use crate::models::{DownloadStatus, SegmentStatus};
use crate::naming::{category_for_filename, eq_chars, filename_category, is_text};
use crate::numbers::{all_digits, decimal_value, is_digit, parse_bounded, parse_unsigned};
use crate::paths::{extension_of, path_extension};
use crate::selection::{clamp_row_index, clamped_row};
use crate::tasks::DownloadTask;
use crate::text::{
    chars_of, lowercase, pieces_view, split_char, split_vec, starts_with, starts_with_vec,
    string_from_chars, strip_prefix, strip_prefix_vec, sub_vec, to_lowercase, trim, trim_char_start,
    trim_vec,
};
use crate::urls::{parse_url, url_parts};

verus! {

/// How the status of a segment is shown.
pub open spec fn segment_label(status: SegmentStatus) -> Seq<char> {
    match status {
        SegmentStatus::Pending => "Waiting"@,
        SegmentStatus::Downloading => "Receiving data"@,
        SegmentStatus::Paused => "Paused"@,
        SegmentStatus::Completed => "Complete"@,
        SegmentStatus::Failed => "Failed"@,
    }
}

/// The label of a segment's status.
pub fn segment_status_label(status: &SegmentStatus) -> (r: String)
    ensures
        r@ == segment_label(*status),
{
    match status {
        SegmentStatus::Pending => String::from_str("Waiting"),
        SegmentStatus::Downloading => String::from_str("Receiving data"),
        SegmentStatus::Paused => String::from_str("Paused"),
        SegmentStatus::Completed => String::from_str("Complete"),
        SegmentStatus::Failed => String::from_str("Failed"),
    }
}

/// A download that is running or waiting to run.
pub open spec fn is_active(status: DownloadStatus) -> bool {
    status == DownloadStatus::Queued || status == DownloadStatus::Downloading || status
        == DownloadStatus::Assembling
}

/// Whether a task is running or waiting to run.
pub fn is_active_download(task: &DownloadTask) -> (r: bool)
    ensures
        r == is_active(task.status),
{
    match task.status {
        DownloadStatus::Queued | DownloadStatus::Downloading | DownloadStatus::Assembling => true,
        _ => false,
    }
}

/// Whether a task belongs under the entry `selected` of the category tree: all of them,
/// the finished or unfinished ones, the queued ones, none for grabber projects, and
/// otherwise those whose file category has that name.
pub open spec fn in_category(status: DownloadStatus, filename: Seq<char>, selected: Seq<char>) -> bool {
    if selected == "All Downloads"@ {
        true
    } else if selected == "Finished"@ {
        status == DownloadStatus::Completed
    } else if selected == "Unfinished"@ {
        status != DownloadStatus::Completed
    } else if selected == "Queues"@ {
        status == DownloadStatus::Queued
    } else if selected == "Grabber projects"@ {
        false
    } else {
        filename_category(filename) == selected
    }
}

/// Whether a task is listed under the category `selected` (see `in_category`).
pub fn category_matches(task: &DownloadTask, selected: &str) -> (r: bool)
    ensures
        r == in_category(task.status, task.filename@, selected@),
{
    let s = chars_of(selected);
    if is_text(&s, "All Downloads") {
        true
    } else if is_text(&s, "Finished") {
        task.status == DownloadStatus::Completed
    } else if is_text(&s, "Unfinished") {
        task.status != DownloadStatus::Completed
    } else if is_text(&s, "Queues") {
        task.status == DownloadStatus::Queued
    } else if is_text(&s, "Grabber projects") {
        false
    } else {
        let c = chars_of(category_for_filename(task.filename.as_str()));
        eq_chars(&c, &s)
    }
}

/// The pieces, trimmed, that are not empty.
pub open spec fn trimmed_nonempty(pieces: Seq<Seq<char>>) -> Seq<Seq<char>>
    decreases pieces.len(),
{
    if pieces.len() == 0 {
        Seq::empty()
    } else {
        let rest = trimmed_nonempty(pieces.drop_last());
        let t = lowercase(trim_char_start(trim(pieces.last()), '.'));
        if t.len() > 0 { rest.push(t) } else { rest }
    }
}

/// The extensions an extension filter such as `.zip, MP4` allows: its comma-separated
/// entries, trimmed, without leading dots, lowercased, the empty ones left out.
pub open spec fn allowed_extensions(filter: Seq<char>) -> Seq<Seq<char>> {
    trimmed_nonempty(split_char(filter, ','))
}

/// A line of a batch list names a URL that can be downloaded.
pub open spec fn is_download_url(line: Seq<char>) -> bool {
    starts_with(line, "http://"@) || starts_with(line, "https://"@) || starts_with(line, "ftp://"@)
}

/// A URL passes the extension filter: there is none, or the URL parses and the
/// extension of its path, lowercased, is one the filter allows.
pub open spec fn passes_filter(url: Seq<char>, allowed: Seq<Seq<char>>) -> bool {
    allowed.len() == 0 || match url_parts(url) {
        Some((_, path)) => match extension_of(path) {
            Some(e) => allowed.contains(lowercase(e)),
            None => false,
        },
        None => false,
    }
}

/// The URLs a batch list gives: its lines, trimmed, that start with `http://`,
/// `https://` or `ftp://` and pass the extension filter, in order.
pub open spec fn batch_urls(lines: Seq<Seq<char>>, allowed: Seq<Seq<char>>) -> Seq<Seq<char>>
    decreases lines.len(),
{
    if lines.len() == 0 {
        Seq::empty()
    } else {
        let rest = batch_urls(lines.drop_last(), allowed);
        let t = trim(lines.last());
        if is_download_url(t) && passes_filter(t, allowed) { rest.push(t) } else { rest }
    }
}

fn allowed_extension_list(filter: &str) -> (r: Vec<Vec<char>>)
    ensures
        pieces_view(r@) == allowed_extensions(filter@),
{
    let f = chars_of(filter);
    let parts = split_vec(&f, ',');
    let ghost ps = pieces_view(parts@);
    let mut out: Vec<Vec<char>> = Vec::new();
    let mut i: usize = 0;
    assert(ps.take(0) =~= Seq::<Seq<char>>::empty());
    while i < parts.len()
        invariant
            i <= parts@.len(),
            ps == pieces_view(parts@),
            ps == split_char(filter@, ','),
            pieces_view(out@) == trimmed_nonempty(ps.take(i as int)),
        decreases parts@.len() - i,
    {
        assert(ps.take(i + 1).drop_last() =~= ps.take(i as int));
        assert(ps.take(i + 1).last() == parts@[i as int]@);
        let t = trim_vec(&parts[i]);
        let mut a: usize = 0;
        assert(t@.subrange(0, t@.len() as int) =~= t@);
        while a < t.len() && t[a] == '.'
            invariant
                a <= t@.len(),
                trim_char_start(t@, '.') == trim_char_start(t@.subrange(a as int, t@.len() as int), '.'),
            decreases t@.len() - a,
        {
            assert(t@.subrange(a as int, t@.len() as int).drop_first() =~= t@.subrange(a + 1, t@.len() as int));
            a = a + 1;
        }
        let rest = sub_vec(&t, a, t.len());
        let rs = string_from_chars(rest.as_slice());
        let lower = to_lowercase(rs.as_str());
        let lv = chars_of(lower.as_str());
        let ghost before = pieces_view(out@);
        if lv.len() > 0 {
            out.push(lv);
            assert(pieces_view(out@) =~= before.push(lower@));
        }
        i = i + 1;
    }
    assert(ps.take(i as int) =~= ps);
    out
}

fn contains_text(list: &Vec<Vec<char>>, t: &Vec<char>) -> (r: bool)
    ensures
        r == pieces_view(list@).contains(t@),
{
    let mut i: usize = 0;
    while i < list.len()
        invariant
            i <= list@.len(),
            forall|k: int| 0 <= k < i ==> pieces_view(list@)[k] != t@,
        decreases list@.len() - i,
    {
        if eq_chars(&list[i], t) {
            assert(pieces_view(list@)[i as int] == t@);
            return true;
        }
        i = i + 1;
    }
    false
}

fn url_passes(url: &str, allowed: &Vec<Vec<char>>) -> (r: bool)
    ensures
        r == passes_filter(url@, pieces_view(allowed@)),
{
    if allowed.len() == 0 {
        return true;
    }
    match parse_url(url) {
        Some(parts) => match path_extension(parts.path.as_str()) {
            Some(e) => {
                let lower = to_lowercase(e.as_str());
                let lv = chars_of(lower.as_str());
                contains_text(allowed, &lv)
            },
            None => false,
        },
        None => false,
    }
}

/// The URLs to download from the text of the batch window (see `batch_urls`), with the
/// extension filter `extension_filter` (see `allowed_extensions`). Lines are split at
/// `\n`; trimming removes the `\r` of Windows line ends.
pub fn parse_batch_urls(urls_text: &str, extension_filter: &str) -> (r: Vec<String>)
    ensures
        r@.map_values(|s: String| s@) == batch_urls(split_char(urls_text@, '\n'), allowed_extensions(extension_filter@)),
{
    let allowed = allowed_extension_list(extension_filter);
    let text = chars_of(urls_text);
    let lines = split_vec(&text, '\n');
    let ghost ls = pieces_view(lines@);
    let ghost al = pieces_view(allowed@);
    let http = chars_of("http://");
    let https = chars_of("https://");
    let ftp = chars_of("ftp://");
    let mut out: Vec<String> = Vec::new();
    let mut i: usize = 0;
    assert(ls.take(0) =~= Seq::<Seq<char>>::empty());
    while i < lines.len()
        invariant
            i <= lines@.len(),
            ls == pieces_view(lines@),
            ls == split_char(urls_text@, '\n'),
            al == pieces_view(allowed@),
            al == allowed_extensions(extension_filter@),
            http@ == "http://"@,
            https@ == "https://"@,
            ftp@ == "ftp://"@,
            out@.map_values(|s: String| s@) == batch_urls(ls.take(i as int), al),
        decreases lines@.len() - i,
    {
        assert(ls.take(i + 1).drop_last() =~= ls.take(i as int));
        assert(ls.take(i + 1).last() == lines@[i as int]@);
        let t = trim_vec(&lines[i]);
        let ghost before = out@;
        if starts_with_vec(&t, &http) || starts_with_vec(&t, &https) || starts_with_vec(&t, &ftp) {
            let s = string_from_chars(t.as_slice());
            if url_passes(s.as_str(), &allowed) {
                out.push(s);
                assert(out@.map_values(|s: String| s@) =~= before.map_values(|s: String| s@).push(t@));
            }
        }
        i = i + 1;
    }
    assert(ls.take(i as int) =~= ls);
    out
}

/// What `str::parse::<i32>` gives: an optional `+` or `-`, then one digit or more, in
/// the range of `i32`.
pub open spec fn parse_i32_text(s: Seq<char>) -> Option<int> {
    if s.len() > 0 && s[0] == '-' {
        let d = s.drop_first();
        if d.len() > 0 && all_digits(d) && decimal_value(d) <= 2147483648 {
            Some(-decimal_value(d))
        } else {
            None
        }
    } else {
        match parse_bounded(s, 2147483647) {
            Some(n) => Some(n as int),
            None => None,
        }
    }
}

/// Parses a decimal `i32` as `str::parse` does.
pub fn parse_i32(v: &Vec<char>) -> (r: Option<i32>)
    ensures
        r matches Some(n) ==> parse_i32_text(v@) == Some(n as int),
        r is None ==> parse_i32_text(v@) is None,
{
    if v.len() > 0 && v[0] == '-' {
        let d = sub_vec(v, 1, v.len());
        assert(d@ =~= v@.drop_first());
        if d.len() == 0 || d[0] == '+' {
            assert(d@.len() > 0 ==> !is_digit(d@[0]));
            return None;
        }
        match parse_unsigned(&d, 2147483648) {
            Some(n) => {
                let m = n as i64;
                Some((0 - m) as i32)
            },
            None => None,
        }
    } else {
        match parse_unsigned(v, 2147483647) {
            Some(n) => Some(n as i32),
            None => None,
        }
    }
}

/// How a key press changes the selection of the download list.
#[derive(Debug, PartialEq, Eq, Structural)]
pub enum SelectionChange {
    /// Nothing is selected.
    Clear,
    /// Every row is selected; `primary` is the row shown as current.
    All { primary: i32 },
    /// Only row `row` is selected.
    One { row: i32 },
    /// The rows from `anchor` to `row`, both included, are selected; `row` is current.
    Range { row: i32, anchor: i32 },
}

/// The row a key press moves to from row `current` in a list of `len` rows, before it
/// is clamped: `select-index:<n>` goes to row `n` (or stays where `n` is not a number),
/// the arrows move by one, page keys by ten, home and end go to the first and last rows,
/// and any other action stays.
pub open spec fn key_target(action: Seq<char>, current: int, len: int) -> int {
    match strip_prefix(action, "select-index:"@) {
        Some(rest) => match parse_i32_text(trim(rest)) {
            Some(n) => n,
            None => current,
        },
        None => if action == "down"@ {
            current + 1
        } else if action == "up"@ {
            current - 1
        } else if action == "page-down"@ {
            current + 10
        } else if action == "page-up"@ {
            current - 10
        } else if action == "home"@ {
            0
        } else if action == "end"@ {
            len - 1
        } else {
            current
        },
    }
}

/// The selection after a key press in a list of `len` rows where `selected` is the
/// current row and `anchor` the start of a shift-selection (each `-1` for none).
pub open spec fn key_selection(action: Seq<char>, shift: bool, selected: int, anchor: int, len: int) -> SelectionChange {
    if len == 0 || action == "clear"@ {
        SelectionChange::Clear
    } else if action == "select-all"@ {
        SelectionChange::All { primary: clamped_row(if selected > 0 { selected } else { 0 }, len) as i32 }
    } else {
        let current = if selected >= 0 { selected } else { 0 };
        let row = clamped_row(key_target(action, current, len), len);
        if shift {
            SelectionChange::Range { row: row as i32, anchor: (if anchor >= 0 { anchor } else { current }) as i32 }
        } else {
            SelectionChange::One { row: row as i32 }
        }
    }
}

/// Decides how a key press changes the selection of a list of `row_count` rows (see
/// `key_selection`).
pub fn keyboard_selection(
    action: &str,
    shift: bool,
    selected_index: i32,
    anchor_index: i32,
    row_count: usize,
) -> (r: SelectionChange)
    requires
        row_count <= i32::MAX,
        selected_index <= i32::MAX - 10,
    ensures
        r == key_selection(action@, shift, selected_index as int, anchor_index as int, row_count as int),
{
    let a = chars_of(action);
    if row_count == 0 || is_text(&a, "clear") {
        return SelectionChange::Clear;
    }
    if is_text(&a, "select-all") {
        let base = if selected_index > 0 { selected_index } else { 0 };
        return SelectionChange::All { primary: clamp_row_index(base, row_count) };
    }
    let current = if selected_index >= 0 { selected_index } else { 0 };
    let target: i64 = match strip_prefix_vec(&a, "select-index:") {
        Some(rest) => {
            let t = trim_vec(&rest);
            match parse_i32(&t) {
                Some(n) => n as i64,
                None => current as i64,
            }
        },
        None => {
            if is_text(&a, "down") {
                current as i64 + 1
            } else if is_text(&a, "up") {
                current as i64 - 1
            } else if is_text(&a, "page-down") {
                current as i64 + 10
            } else if is_text(&a, "page-up") {
                current as i64 - 10
            } else if is_text(&a, "home") {
                0
            } else if is_text(&a, "end") {
                row_count as i64 - 1
            } else {
                current as i64
            }
        },
    };
    let row = clamp_row_index(target as i32, row_count);
    if shift {
        let anchor = if anchor_index >= 0 { anchor_index } else { current };
        SelectionChange::Range { row, anchor }
    } else {
        SelectionChange::One { row }
    }
}


/// Where a task created at `c` goes among tasks already listed newest first: before the
/// first one created earlier.
pub open spec fn newest_insert_index(order: Seq<usize>, created: Seq<i64>, c: i64) -> nat
    decreases order.len(),
{
    if order.len() == 0 {
        0
    } else if created[order[0] as int] < c {
        0
    } else {
        1 + newest_insert_index(order.drop_first(), created, c)
    }
}

/// The positions of the shown tasks among `created.len()` tasks, newest first; tasks
/// created at the same time keep their order (a stable sort, built by inserting each
/// shown task in turn).
pub open spec fn newest_first(created: Seq<i64>, hidden: Seq<bool>, n: nat) -> Seq<usize>
    decreases n,
{
    if n == 0 {
        Seq::empty()
    } else {
        let rest = newest_first(created, hidden, (n - 1) as nat);
        let i = (n - 1) as int;
        if hidden[i] {
            rest
        } else {
            rest.insert(newest_insert_index(rest, created, created[i]) as int, i as usize)
        }
    }
}

proof fn lemma_newest_first_bounds(created: Seq<i64>, hidden: Seq<bool>, n: nat)
    requires
        n <= created.len(),
    ensures
        forall|k: int| 0 <= k < newest_first(created, hidden, n).len() ==> (#[trigger] newest_first(created, hidden, n)[k]) < n,
        newest_first(created, hidden, n).len() <= n,
    decreases n,
{
    if n > 0 {
        let rest = newest_first(created, hidden, (n - 1) as nat);
        lemma_newest_first_bounds(created, hidden, (n - 1) as nat);
        let i = (n - 1) as int;
        if !hidden[i] {
            lemma_newest_insert_index_bound(rest, created, created[i]);
            let p = newest_insert_index(rest, created, created[i]) as int;
            let q = rest.insert(p, i as usize);
            assert forall|k: int| 0 <= k < q.len() implies (#[trigger] q[k]) < n by {
                if k < p {
                    assert(q[k] == rest[k]);
                } else if k > p {
                    assert(q[k] == rest[k - 1]);
                }
            }
        }
    }
}

proof fn lemma_newest_insert_index_bound(order: Seq<usize>, created: Seq<i64>, c: i64)
    ensures
        newest_insert_index(order, created, c) <= order.len(),
    decreases order.len(),
{
    if order.len() > 0 && !(created[order[0] as int] < c) {
        lemma_newest_insert_index_bound(order.drop_first(), created, c);
    }
}

/// The order in which the download list shows tasks: the positions of those not
/// hidden, newest first (see `newest_first`). `created` holds each task's creation time
/// and `hidden` whether it is hidden.
pub fn newest_first_order(created: &Vec<i64>, hidden: &Vec<bool>) -> (r: Vec<usize>)
    requires
        hidden@.len() == created@.len(),
    ensures
        r@ == newest_first(created@, hidden@, created@.len()),
        forall|k: int| 0 <= k < r@.len() ==> (#[trigger] r@[k]) < created@.len(),
{
    let mut out: Vec<usize> = Vec::new();
    let mut i: usize = 0;
    while i < created.len()
        invariant
            i <= created@.len(),
            hidden@.len() == created@.len(),
            out@ == newest_first(created@, hidden@, i as nat),
        decreases created@.len() - i,
    {
        proof {
            lemma_newest_first_bounds(created@, hidden@, i as nat);
        }
        if !hidden[i] {
            let c = created[i];
            let mut pos: usize = 0;
            assert(out@.skip(0) =~= out@);
            while pos < out.len() && !(created[out[pos]] < c)
                invariant
                    pos <= out@.len(),
                    forall|k: int| 0 <= k < out@.len() ==> (#[trigger] out@[k]) < created@.len(),
                    newest_insert_index(out@, created@, c) == pos + newest_insert_index(out@.skip(pos as int), created@, c),
                decreases out@.len() - pos,
            {
                assert(out@.skip(pos as int)[0] == out@[pos as int]);
                assert(out@.skip(pos as int).drop_first() =~= out@.skip(pos + 1));
                pos = pos + 1;
            }
            proof {
                if pos < out@.len() {
                    assert(out@.skip(pos as int)[0] == out@[pos as int]);
                }
            }
            out.insert(pos, i);
        }
        i = i + 1;
    }
    proof {
        lemma_newest_first_bounds(created@, hidden@, created@.len() as nat);
    }
    out
}

/// The list shows the newest tasks first: of two shown tasks, the one listed first was
/// not created earlier than the other.
pub proof fn listed_newest_first(created: Seq<i64>, hidden: Seq<bool>, n: nat)
    requires
        n <= created.len() <= usize::MAX,
    ensures
        forall|a: int, b: int| 0 <= a < b < newest_first(created, hidden, n).len() ==> created[
            #[trigger] newest_first(created, hidden, n)[a] as int] >= created[#[trigger] newest_first(
            created,
            hidden,
            n,
        )[b] as int],
    decreases n,
{
    lemma_newest_first_bounds(created, hidden, n);
    if n > 0 {
        let rest = newest_first(created, hidden, (n - 1) as nat);
        listed_newest_first(created, hidden, (n - 1) as nat);
        lemma_newest_first_bounds(created, hidden, (n - 1) as nat);
        let i = (n - 1) as int;
        if !hidden[i] {
            let c = created[i];
            lemma_newest_insert_index_facts(rest, created, c);
            let p = newest_insert_index(rest, created, c) as int;
            let q = rest.insert(p, i as usize);
            assert forall|a: int, b: int| 0 <= a < b < q.len() implies created[#[trigger] q[a] as int]
                >= created[#[trigger] q[b] as int] by {
                if b < p {
                    assert(q[a] == rest[a] && q[b] == rest[b]);
                } else if b == p {
                    assert(q[a] == rest[a] && q[b] == i as usize);
                    assert(created[rest[a] as int] >= c);
                } else if a == p {
                    assert(q[a] == i as usize);
                    assert(q[b] == rest[b - 1]);
                    assert(created[rest[p] as int] < c);
                    if b - 1 > p {
                        assert(created[rest[p] as int] >= created[rest[b - 1] as int]);
                    }
                } else if a < p {
                    assert(q[a] == rest[a] && q[b] == rest[b - 1]);
                } else {
                    assert(q[a] == rest[a - 1] && q[b] == rest[b - 1]);
                }
            }
        }
    }
}

proof fn lemma_newest_insert_index_facts(order: Seq<usize>, created: Seq<i64>, c: i64)
    ensures
        newest_insert_index(order, created, c) <= order.len(),
        forall|k: int| 0 <= k < newest_insert_index(order, created, c) ==> created[(#[trigger] order[k]) as int] >= c,
        newest_insert_index(order, created, c) < order.len() ==> created[order[newest_insert_index(order, created, c) as int] as int] < c,
    decreases order.len(),
{
    if order.len() > 0 && !(created[order[0] as int] < c) {
        let d = order.drop_first();
        lemma_newest_insert_index_facts(d, created, c);
        assert forall|k: int| 0 <= k < newest_insert_index(order, created, c) implies created[(#[trigger] order[k]) as int] >= c by {
            if k > 0 {
                assert(order[k] == d[k - 1]);
            }
        }
    }
}


/// What the pause/resume button does to a download.
#[derive(Debug, PartialEq, Eq, Structural)]
pub enum ToggleAction {
    /// Resume it: it is paused, failed or queued.
    Resume,
    /// Nothing: it is already complete.
    AlreadyComplete,
    /// Pause it: it is running.
    Pause,
    /// Nothing can be done: it is no longer listed.
    NotFound,
}

/// Decides what the pause/resume button does, given the status of the selected download
/// (`None` where it is no longer listed).
pub fn toggle_action(status: Option<DownloadStatus>) -> (r: ToggleAction)
    ensures
        r == match status {
            Some(DownloadStatus::Paused) | Some(DownloadStatus::Failed) | Some(DownloadStatus::Queued) => ToggleAction::Resume,
            Some(DownloadStatus::Completed) => ToggleAction::AlreadyComplete,
            Some(_) => ToggleAction::Pause,
            None => ToggleAction::NotFound,
        },
{
    match status {
        Some(DownloadStatus::Paused) | Some(DownloadStatus::Failed) | Some(DownloadStatus::Queued) => ToggleAction::Resume,
        Some(DownloadStatus::Completed) => ToggleAction::AlreadyComplete,
        Some(_) => ToggleAction::Pause,
        None => ToggleAction::NotFound,
    }
}

/// A batch item is over once its download is complete, failed or paused.
pub fn batch_item_finished(status: DownloadStatus) -> (r: bool)
    ensures
        r == (status == DownloadStatus::Completed || status == DownloadStatus::Failed || status
            == DownloadStatus::Paused),
{
    match status {
        DownloadStatus::Completed | DownloadStatus::Failed | DownloadStatus::Paused => true,
        _ => false,
    }
}

/// The folder the items of a batch are saved in: the one typed, unless it is blank.
pub fn batch_save_dir(save_dir: &str) -> (r: Option<String>)
    ensures
        match r {
            Some(d) => trim(save_dir@).len() > 0 && d@ == save_dir@,
            None => trim(save_dir@).len() == 0,
        },
{
    let v = chars_of(save_dir);
    if trim_vec(&v).len() > 0 {
        Some(String::from_str(save_dir))
    } else {
        None
    }
}

} // verus!
