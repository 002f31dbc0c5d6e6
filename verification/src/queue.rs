//! The scheduler queue: which queued downloads the scheduler starts at once, which it
//! runs one after another in their batch order, when a batch moves on, and which
//! downloads it stops.

use vstd::prelude::*;
use crate::models::DownloadStatus;
use crate::tasks::DownloadTask;

verus! {

/// A download waits in the scheduler queue.
pub open spec fn in_scheduled_queue(t: DownloadTask) -> bool {
    t.status == DownloadStatus::Queued && t.scheduled_queue
}

/// A queued download of a batch that runs one item after another.
pub open spec fn runs_in_sequence(t: DownloadTask) -> bool {
    in_scheduled_queue(t) && t.batch_sequential
}

/// The batch a download belongs to: its batch id, or its own id where it has none.
pub open spec fn batch_key(t: DownloadTask) -> Seq<char> {
    match t.batch_group_id {
        Some(g) => g@,
        None => t.id@,
    }
}

/// The ids of the queued downloads that start at once, in list order.
pub open spec fn immediate_ids(ts: Seq<DownloadTask>) -> Seq<Seq<char>>
    decreases ts.len(),
{
    if ts.len() == 0 {
        Seq::empty()
    } else {
        let rest = immediate_ids(ts.drop_last());
        let t = ts.last();
        if in_scheduled_queue(t) && !t.batch_sequential { rest.push(t.id@) } else { rest }
    }
}

/// The batches of sequential downloads, in the order they first appear in the list.
pub open spec fn batch_keys(ts: Seq<DownloadTask>) -> Seq<Seq<char>>
    decreases ts.len(),
{
    if ts.len() == 0 {
        Seq::empty()
    } else {
        let rest = batch_keys(ts.drop_last());
        let t = ts.last();
        if runs_in_sequence(t) && !rest.contains(batch_key(t)) { rest.push(batch_key(t)) } else { rest }
    }
}

/// Where an item of batch position `x.0` goes in a list kept in batch order: after every
/// item at the same or an earlier position.
pub open spec fn batch_insert_index(s: Seq<(usize, Seq<char>)>, x: (usize, Seq<char>)) -> nat
    decreases s.len(),
{
    if s.len() == 0 {
        0
    } else if s[0].0 > x.0 {
        0
    } else {
        1 + batch_insert_index(s.drop_first(), x)
    }
}

/// The items of one batch in batch order: the downloads of the list that belong to it,
/// sorted by their position in the batch; items at the same position keep their list
/// order.
pub open spec fn batch_items(ts: Seq<DownloadTask>, key: Seq<char>) -> Seq<(usize, Seq<char>)>
    decreases ts.len(),
{
    if ts.len() == 0 {
        Seq::empty()
    } else {
        let rest = batch_items(ts.drop_last(), key);
        let t = ts.last();
        if runs_in_sequence(t) && batch_key(t) == key {
            let x = (t.batch_queue_index, t.id@);
            rest.insert(batch_insert_index(rest, x) as int, x)
        } else {
            rest
        }
    }
}

/// The ids of one batch, in the order they run.
pub open spec fn batch_ids(ts: Seq<DownloadTask>, key: Seq<char>) -> Seq<Seq<char>> {
    batch_items(ts, key).map_values(|x: (usize, Seq<char>)| x.1)
}

proof fn lemma_batch_insert_index_bound(s: Seq<(usize, Seq<char>)>, x: (usize, Seq<char>))
    ensures
        batch_insert_index(s, x) <= s.len(),
    decreases s.len(),
{
    if s.len() > 0 && !(s[0].0 > x.0) {
        lemma_batch_insert_index_bound(s.drop_first(), x);
    }
}

/// What the scheduler starts: the downloads that start at once, and the batches that
/// run one item after another, each in its order.
#[derive(Debug)]
pub struct QueueStart {
    pub immediate: Vec<String>,
    pub batches: Vec<Vec<String>>,
}

/// The texts of a list of strings.
pub open spec fn texts_of(v: Seq<String>) -> Seq<Seq<char>> {
    v.map_values(|s: String| s@)
}

fn key_of(t: &DownloadTask) -> (r: String)
    ensures
        r@ == batch_key(*t),
{
    match &t.batch_group_id {
        Some(g) => g.clone(),
        None => t.id.clone(),
    }
}

fn contains_text(v: &Vec<String>, s: &String) -> (r: bool)
    ensures
        r == texts_of(v@).contains(s@),
{
    let mut i: usize = 0;
    while i < v.len()
        invariant
            i <= v@.len(),
            forall|k: int| 0 <= k < i ==> texts_of(v@)[k] != s@,
        decreases v@.len() - i,
    {
        if v[i] == *s {
            assert(texts_of(v@)[i as int] == s@);
            return true;
        }
        i = i + 1;
    }
    false
}

pub open spec fn items_view(v: Seq<(usize, String)>) -> Seq<(usize, Seq<char>)> {
    v.map_values(|x: (usize, String)| (x.0, x.1@))
}

fn insert_by_batch_index(items: &mut Vec<(usize, String)>, index: usize, id: String)
    ensures
        items_view(final(items)@) == items_view(old(items)@).insert(
            batch_insert_index(items_view(old(items)@), (index, id@)) as int,
            (index, id@),
        ),
{
    let ghost view = items_view(items@);
    let ghost x = (index, id@);
    let mut pos: usize = 0;
    assert(view.skip(0) =~= view);
    while pos < items.len() && !(items[pos].0 > index)
        invariant
            pos <= items@.len(),
            view == items_view(items@),
            x == (index, id@),
            batch_insert_index(view, x) == pos + batch_insert_index(view.skip(pos as int), x),
        decreases items@.len() - pos,
    {
        assert(view[pos as int].0 == items@[pos as int].0);
        assert(view.skip(pos as int)[0] == view[pos as int]);
        assert(view.skip(pos as int).drop_first() =~= view.skip(pos + 1));
        pos = pos + 1;
    }
    proof {
        if pos < items@.len() {
            assert(view[pos as int].0 == items@[pos as int].0);
            assert(view.skip(pos as int)[0] == view[pos as int]);
        }
        lemma_batch_insert_index_bound(view, x);
    }
    let ghost idv = id@;
    items.insert(pos, (index, id));
    assert(items_view(items@) =~= view.insert(pos as int, (index, idv)));
}

fn batch_order(tasks: &Vec<DownloadTask>, key: &String) -> (r: Vec<String>)
    ensures
        texts_of(r@) == batch_ids(tasks@, key@),
{
    let mut items: Vec<(usize, String)> = Vec::new();
    let mut i: usize = 0;
    assert(tasks@.take(0) =~= Seq::<DownloadTask>::empty());
    while i < tasks.len()
        invariant
            i <= tasks@.len(),
            items_view(items@) == batch_items(tasks@.take(i as int), key@),
        decreases tasks@.len() - i,
    {
        let t = &tasks[i];
        proof {
            assert(tasks@.take(i + 1).drop_last() =~= tasks@.take(i as int));
            assert(tasks@.take(i + 1).last() == *t);
        }
        if t.status == DownloadStatus::Queued && t.scheduled_queue && t.batch_sequential {
            let k = key_of(t);
            if k == *key {
                insert_by_batch_index(&mut items, t.batch_queue_index, t.id.clone());
            }
        }
        i = i + 1;
    }
    assert(tasks@.take(i as int) =~= tasks@);
    let mut out: Vec<String> = Vec::new();
    let mut k: usize = 0;
    while k < items.len()
        invariant
            k <= items@.len(),
            texts_of(out@) == items@.map_values(|x: (usize, String)| x.1@).take(k as int),
        decreases items@.len() - k,
    {
        let s = items[k].1.clone();
        assert(items@.map_values(|x: (usize, String)| x.1@)[k as int] == s@);
        let ghost before = texts_of(out@);
        out.push(s);
        assert(texts_of(out@) =~= before.push(s@));
        k = k + 1;
        assert(texts_of(out@) =~= items@.map_values(|x: (usize, String)| x.1@).take(k as int));
    }
    assert(items@.map_values(|x: (usize, String)| x.1@).take(k as int) =~= items@.map_values(|x: (usize, String)| x.1@));
    assert(batch_ids(tasks@, key@) =~= items_view(items@).map_values(|x: (usize, Seq<char>)| x.1));
    out
}

/// Splits the scheduler queue, for the downloads as listed: those not in a sequential
/// batch start at once, in list order; each sequential batch (in the order its first
/// item is listed) runs its items in batch order.
pub fn plan_queue_start(tasks: &Vec<DownloadTask>) -> (r: QueueStart)
    ensures
        texts_of(r.immediate@) == immediate_ids(tasks@),
        r.batches@.len() == batch_keys(tasks@).len(),
        forall|j: int| 0 <= j < r.batches@.len() ==> texts_of(#[trigger] r.batches@[j]@) == batch_ids(tasks@, batch_keys(tasks@)[j]),
{
    let mut immediate: Vec<String> = Vec::new();
    let mut keys: Vec<String> = Vec::new();
    let mut i: usize = 0;
    assert(tasks@.take(0) =~= Seq::<DownloadTask>::empty());
    while i < tasks.len()
        invariant
            i <= tasks@.len(),
            texts_of(immediate@) == immediate_ids(tasks@.take(i as int)),
            texts_of(keys@) == batch_keys(tasks@.take(i as int)),
        decreases tasks@.len() - i,
    {
        let t = &tasks[i];
        proof {
            assert(tasks@.take(i + 1).drop_last() =~= tasks@.take(i as int));
            assert(tasks@.take(i + 1).last() == *t);
        }
        if t.status == DownloadStatus::Queued && t.scheduled_queue {
            if t.batch_sequential {
                let k = key_of(t);
                if !contains_text(&keys, &k) {
                    let ghost before = texts_of(keys@);
                    keys.push(k);
                    assert(texts_of(keys@) =~= before.push(batch_key(*t)));
                }
            } else {
                let ghost before = texts_of(immediate@);
                immediate.push(t.id.clone());
                assert(texts_of(immediate@) =~= before.push(t.id@));
            }
        }
        i = i + 1;
    }
    assert(tasks@.take(i as int) =~= tasks@);
    let mut batches: Vec<Vec<String>> = Vec::new();
    let mut j: usize = 0;
    while j < keys.len()
        invariant
            j <= keys@.len(),
            texts_of(keys@) == batch_keys(tasks@),
            batches@.len() == j,
            forall|m: int| 0 <= m < j ==> texts_of(#[trigger] batches@[m]@) == batch_ids(tasks@, batch_keys(tasks@)[m]),
        decreases keys@.len() - j,
    {
        assert(texts_of(keys@)[j as int] == keys@[j as int]@);
        let b = batch_order(tasks, &keys[j]);
        batches.push(b);
        j = j + 1;
    }
    QueueStart { immediate, batches }
}

/// What a sequential batch does after looking at its current item.
#[derive(Debug, PartialEq, Eq, Structural)]
pub enum BatchStep {
    /// The item is still running or waiting: look again later.
    Wait,
    /// The item is over (done, failed, or gone): start the next one.
    Next,
    /// The item was paused: the rest of the batch does not run.
    Stop,
}

/// Decides what a sequential batch does, given the status of its current item (`None`
/// where it is no longer listed).
pub fn batch_step(status: Option<DownloadStatus>) -> (r: BatchStep)
    ensures
        r == match status {
            None => BatchStep::Next,
            Some(DownloadStatus::Completed) | Some(DownloadStatus::Failed) => BatchStep::Next,
            Some(DownloadStatus::Paused) => BatchStep::Stop,
            Some(_) => BatchStep::Wait,
        },
{
    match status {
        None => BatchStep::Next,
        Some(DownloadStatus::Completed) | Some(DownloadStatus::Failed) => BatchStep::Next,
        Some(DownloadStatus::Paused) => BatchStep::Stop,
        Some(_) => BatchStep::Wait,
    }
}

/// What a multi-segment download whose parts are all in does before its file is put
/// together.
#[derive(Debug, PartialEq, Eq, Structural)]
pub enum AssemblyStep {
    /// Write the final file from the parts.
    Assemble,
    /// The download is a hidden pre-download the user has not confirmed: look again later.
    Wait,
    /// The hidden pre-download was cancelled while it waited: it pauses.
    Pause,
}

/// Decides whether a downloaded file is put together: a hidden pre-download is written to
/// its final place only once the user has confirmed it (it is no longer hidden), and
/// pauses where it is cancelled while it waits.
pub fn assembly_step(hidden: bool, cancelled: bool) -> (r: AssemblyStep)
    ensures
        (r == AssemblyStep::Assemble) == !hidden,
        (r == AssemblyStep::Wait) == (hidden && !cancelled),
        (r == AssemblyStep::Pause) == (hidden && cancelled),
{
    if !hidden {
        AssemblyStep::Assemble
    } else if cancelled {
        AssemblyStep::Pause
    } else {
        AssemblyStep::Wait
    }
}

/// A download the scheduler stops: one of its queue that is running or waiting.
pub open spec fn stopped_by_scheduler(t: DownloadTask) -> bool {
    t.scheduled_queue && (t.status == DownloadStatus::Downloading || t.status == DownloadStatus::Queued
        || t.status == DownloadStatus::Assembling)
}

pub open spec fn stop_ids(ts: Seq<DownloadTask>) -> Seq<Seq<char>>
    decreases ts.len(),
{
    if ts.len() == 0 {
        Seq::empty()
    } else {
        let rest = stop_ids(ts.drop_last());
        if stopped_by_scheduler(ts.last()) { rest.push(ts.last().id@) } else { rest }
    }
}

/// The downloads the scheduler stops, in list order (see `stopped_by_scheduler`).
pub fn plan_queue_stop(tasks: &Vec<DownloadTask>) -> (r: Vec<String>)
    ensures
        texts_of(r@) == stop_ids(tasks@),
{
    let mut out: Vec<String> = Vec::new();
    let mut i: usize = 0;
    assert(tasks@.take(0) =~= Seq::<DownloadTask>::empty());
    while i < tasks.len()
        invariant
            i <= tasks@.len(),
            texts_of(out@) == stop_ids(tasks@.take(i as int)),
        decreases tasks@.len() - i,
    {
        let t = &tasks[i];
        proof {
            assert(tasks@.take(i + 1).drop_last() =~= tasks@.take(i as int));
            assert(tasks@.take(i + 1).last() == *t);
        }
        if t.scheduled_queue && (t.status == DownloadStatus::Downloading || t.status == DownloadStatus::Queued
            || t.status == DownloadStatus::Assembling) {
            let ghost before = texts_of(out@);
            out.push(t.id.clone());
            assert(texts_of(out@) =~= before.push(t.id@));
        }
        i = i + 1;
    }
    assert(tasks@.take(i as int) =~= tasks@);
    out
}


proof fn lemma_batch_insert_index_facts(s: Seq<(usize, Seq<char>)>, x: (usize, Seq<char>))
    ensures
        batch_insert_index(s, x) <= s.len(),
        forall|k: int| 0 <= k < batch_insert_index(s, x) ==> (#[trigger] s[k]).0 <= x.0,
        batch_insert_index(s, x) < s.len() ==> s[batch_insert_index(s, x) as int].0 > x.0,
    decreases s.len(),
{
    if s.len() > 0 && !(s[0].0 > x.0) {
        let d = s.drop_first();
        lemma_batch_insert_index_facts(d, x);
        assert forall|k: int| 0 <= k < batch_insert_index(s, x) implies (#[trigger] s[k]).0 <= x.0 by {
            if k > 0 {
                assert(s[k] == d[k - 1]);
            }
        }
    }
}

/// A sequential batch runs its items in batch order: an item listed before another in
/// the batch never has a later position in it.
pub proof fn batches_run_in_batch_order(ts: Seq<DownloadTask>, key: Seq<char>)
    ensures
        forall|a: int, b: int| 0 <= a < b < batch_items(ts, key).len() ==> (#[trigger] batch_items(ts, key)[a]).0
            <= (#[trigger] batch_items(ts, key)[b]).0,
    decreases ts.len(),
{
    if ts.len() > 0 {
        let rest = batch_items(ts.drop_last(), key);
        batches_run_in_batch_order(ts.drop_last(), key);
        let t = ts.last();
        if runs_in_sequence(t) && batch_key(t) == key {
            let x = (t.batch_queue_index, t.id@);
            lemma_batch_insert_index_facts(rest, x);
            let p = batch_insert_index(rest, x) as int;
            let q = rest.insert(p, x);
            assert forall|a: int, b: int| 0 <= a < b < q.len() implies (#[trigger] q[a]).0 <= (#[trigger] q[b]).0 by {
                if b < p {
                    assert(q[a] == rest[a] && q[b] == rest[b]);
                } else if b == p {
                    assert(q[a] == rest[a] && q[b] == x);
                } else if a == p {
                    assert(q[a] == x && q[b] == rest[b - 1]);
                    if b - 1 > p {
                        assert(rest[p].0 <= rest[b - 1].0);
                    }
                } else if a < p {
                    assert(q[a] == rest[a] && q[b] == rest[b - 1]);
                } else {
                    assert(q[a] == rest[a - 1] && q[b] == rest[b - 1]);
                }
            }
        }
    }
}

} // verus!
