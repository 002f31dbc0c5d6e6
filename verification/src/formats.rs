//! The quality choices offered for a media page, from the formats yt-dlp lists.

use vstd::prelude::*;
use crate::media::{
    MediaFormatOption, MediaInfo, default_format_selector, dedupe_format_options,
    dedupe_video_options_by_height, first_by_height, first_by_id, height_seen_before,
    id_seen_before, media_format_selector,
};
use crate::models::opt_view;
use crate::numbers::{decimal_text, push_decimal};
use crate::text::{
    chars_of, lemma_split_char_nonempty, pieces_view, push_str, split_char, split_vec,
    string_from_chars, to_uppercase, trim, trim_vec, uppercase,
};

verus! {

/// One format that a media page offers, as yt-dlp's description lists it. Numbers are
/// `None` where the description has none that reads as a number; texts where it has no
/// string.
#[derive(Debug)]
pub struct FormatEntry {
    pub format_id: Option<String>,
    pub height: Option<u64>,
    pub fps: Option<u64>,
    pub filesize: Option<u64>,
    pub filesize_approx: Option<u64>,
    pub vcodec: Option<String>,
    pub acodec: Option<String>,
    pub ext: Option<String>,
}

impl FormatEntry {
    /// A copy of this entry.
    pub fn duplicate(&self) -> (e: FormatEntry)
        ensures
            e == *self,
    {
        FormatEntry {
            format_id: crate::models::clone_opt_string(&self.format_id),
            height: self.height,
            fps: self.fps,
            filesize: self.filesize,
            filesize_approx: self.filesize_approx,
            vcodec: crate::models::clone_opt_string(&self.vcodec),
            acodec: crate::models::clone_opt_string(&self.acodec),
            ext: crate::models::clone_opt_string(&self.ext),
        }
    }
}

/// The size of a format: exact where known, else approximate.
pub open spec fn size_value(f: FormatEntry) -> Option<u64> {
    match f.filesize {
        Some(n) => Some(n),
        None => f.filesize_approx,
    }
}

fn format_size_value(f: &FormatEntry) -> (r: Option<u64>)
    ensures
        r == size_value(*f),
{
    match f.filesize {
        Some(n) => Some(n),
        None => f.filesize_approx,
    }
}

/// `a < b` as options order: nothing before any number.
pub open spec fn opt_lt(a: Option<u64>, b: Option<u64>) -> bool {
    match (a, b) {
        (None, Some(_)) => true,
        (Some(x), Some(y)) => x < y,
        _ => false,
    }
}

fn opt_less(a: Option<u64>, b: Option<u64>) -> (r: bool)
    ensures
        r == opt_lt(a, b),
{
    match (a, b) {
        (None, Some(_)) => true,
        (Some(x), Some(y)) => x < y,
        _ => false,
    }
}

/// Formats are listed by height, then frame rate, then size, largest first: `a` ranks
/// below `b` where its (height, fps, size) is smaller.
pub open spec fn ranks_below(a: FormatEntry, b: FormatEntry) -> bool {
    opt_lt(a.height, b.height) || (a.height == b.height && (opt_lt(a.fps, b.fps) || (a.fps == b.fps
        && opt_lt(size_value(a), size_value(b)))))
}

fn ranks_below_exec(a: &FormatEntry, b: &FormatEntry) -> (r: bool)
    ensures
        r == ranks_below(*a, *b),
{
    opt_less(a.height, b.height) || (a.height == b.height && (opt_less(a.fps, b.fps) || (a.fps == b.fps
        && opt_less(format_size_value(a), format_size_value(b)))))
}

/// Where `x` goes in a ranked list: before the first format that ranks below it.
pub open spec fn insert_index(s: Seq<FormatEntry>, x: FormatEntry) -> nat
    decreases s.len(),
{
    if s.len() == 0 {
        0
    } else if ranks_below(s[0], x) {
        0
    } else {
        1 + insert_index(s.drop_first(), x)
    }
}

/// The formats ranked, largest first; formats of equal rank keep their order (a stable
/// sort, built by inserting each format in turn).
pub open spec fn ranked(s: Seq<FormatEntry>) -> Seq<FormatEntry>
    decreases s.len(),
{
    if s.len() == 0 {
        s
    } else {
        let r = ranked(s.drop_last());
        r.insert(insert_index(r, s.last()) as int, s.last())
    }
}

proof fn lemma_insert_index_bounds(s: Seq<FormatEntry>, x: FormatEntry)
    ensures
        insert_index(s, x) <= s.len(),
        forall|k: int| 0 <= k < insert_index(s, x) ==> !ranks_below(#[trigger] s[k], x),
        insert_index(s, x) < s.len() ==> ranks_below(s[insert_index(s, x) as int], x),
    decreases s.len(),
{
    if s.len() > 0 && !ranks_below(s[0], x) {
        let d = s.drop_first();
        lemma_insert_index_bounds(d, x);
        assert forall|k: int| 0 <= k < insert_index(s, x) implies !ranks_below(#[trigger] s[k], x) by {
            if k > 0 {
                assert(s[k] == d[k - 1]);
            }
        }
    }
}

proof fn lemma_ranked_len(s: Seq<FormatEntry>)
    ensures
        ranked(s).len() == s.len(),
    decreases s.len(),
{
    if s.len() > 0 {
        lemma_ranked_len(s.drop_last());
        lemma_insert_index_bounds(ranked(s.drop_last()), s.last());
    }
}

/// Ranks the formats (see `ranked`).
pub fn rank_formats(formats: &Vec<FormatEntry>) -> (r: Vec<FormatEntry>)
    ensures
        r@ == ranked(formats@),
{
    let mut out: Vec<FormatEntry> = Vec::new();
    let mut i: usize = 0;
    assert(formats@.take(0) =~= Seq::<FormatEntry>::empty());
    while i < formats.len()
        invariant
            i <= formats@.len(),
            out@ == ranked(formats@.take(i as int)),
        decreases formats@.len() - i,
    {
        let x = &formats[i];
        let mut pos: usize = 0;
        proof {
            lemma_ranked_len(formats@.take(i as int));
            assert(out@.skip(0) =~= out@);
        }
        while pos < out.len() && !ranks_below_exec(&out[pos], x)
            invariant
                pos <= out@.len(),
                insert_index(out@, *x) == pos + insert_index(out@.skip(pos as int), *x),
            decreases out@.len() - pos,
        {
            assert(out@.skip(pos as int)[0] == out@[pos as int]);
            assert(out@.skip(pos as int).drop_first() =~= out@.skip(pos + 1));
            pos = pos + 1;
        }
        proof {
            if pos < out@.len() {
                assert(out@.skip(pos as int)[0] == out@[pos as int]);
            }
        }
        assert(insert_index(out@, *x) == pos);
        let y = x.duplicate();
        out.insert(pos, y);
        proof {
            assert(formats@.take(i + 1).drop_last() =~= formats@.take(i as int));
            assert(formats@.take(i + 1).last() == *x);
        }
        i = i + 1;
    }
    assert(formats@.take(i as int) =~= formats@);
    out
}

/// Each format of `s` ranks at least as high as every format after it.
pub open spec fn is_ranked(s: Seq<FormatEntry>) -> bool {
    forall|a: int, b: int| 0 <= a < b < s.len() ==> !ranks_below(#[trigger] s[a], #[trigger] s[b])
}

proof fn lemma_ranks_below_order(a: FormatEntry, b: FormatEntry, c: FormatEntry)
    ensures
        ranks_below(a, b) && ranks_below(b, c) ==> ranks_below(a, c),
        !ranks_below(a, b) && !ranks_below(b, c) ==> !ranks_below(a, c),
        ranks_below(a, b) ==> !ranks_below(b, a),
        !ranks_below(a, b) ==> ranks_below(b, a) || (a.height == b.height && a.fps == b.fps
            && size_value(a) == size_value(b)),
{
}

/// Ranking lists the formats largest first: no format ranks below one listed after it.
pub proof fn ranked_formats_are_in_order(s: Seq<FormatEntry>)
    ensures
        is_ranked(ranked(s)),
        ranked(s).len() == s.len(),
    decreases s.len(),
{
    lemma_ranked_len(s);
    if s.len() > 0 {
        let r = ranked(s.drop_last());
        let x = s.last();
        ranked_formats_are_in_order(s.drop_last());
        lemma_insert_index_bounds(r, x);
        let p = insert_index(r, x) as int;
        let q = r.insert(p, x);
        assert forall|a: int, b: int| 0 <= a < b < q.len() implies !ranks_below(#[trigger] q[a], #[trigger] q[b]) by {
            if b < p {
                assert(q[a] == r[a] && q[b] == r[b]);
            } else if b == p {
                assert(q[a] == r[a] && q[b] == x);
            } else if a == p {
                assert(q[a] == x && q[b] == r[b - 1]);
                if p < r.len() {
                    assert(ranks_below(r[p], x));
                    if b - 1 > p {
                        assert(!ranks_below(r[p], r[b - 1]));
                    }
                    lemma_ranks_below_order(x, r[p], r[b - 1]);
                    lemma_ranks_below_order(r[b - 1], r[p], x);
                    lemma_ranks_below_order(r[p], x, r[b - 1]);
                    lemma_ranks_below_order(x, r[b - 1], r[p]);
                }
            } else if a < p {
                assert(q[a] == r[a] && q[b] == r[b - 1]);
            } else {
                assert(q[a] == r[a - 1] && q[b] == r[b - 1]);
            }
        }
    }
}


/// Formats are offered tallest first; among formats of one height, the higher frame rate
/// first (a format with no frame rate after any with one); among formats of one height and
/// frame rate, the larger first. So the choice kept for each height, the first listed, is
/// the one with the highest frame rate.
pub proof fn ranking_prefers_height_then_frame_rate_then_size(s: Seq<FormatEntry>)
    ensures
        forall|a: int, b: int| #![trigger ranked(s)[a], ranked(s)[b]] 0 <= a < b < s.len() ==> {
            let x = ranked(s)[a];
            let y = ranked(s)[b];
            &&& (y.height is Some ==> x.height is Some && x.height->0 >= y.height->0)
            &&& (x.height == y.height && y.fps is Some ==> x.fps is Some && x.fps->0 >= y.fps->0)
            &&& (x.height == y.height && x.fps == y.fps && size_value(y) is Some
                ==> size_value(x) is Some && size_value(x)->0 >= size_value(y)->0)
        },
{
    ranked_formats_are_in_order(s);
    assert forall|a: int, b: int| #![trigger ranked(s)[a], ranked(s)[b]] 0 <= a < b < s.len() implies {
        let x = ranked(s)[a];
        let y = ranked(s)[b];
        &&& (y.height is Some ==> x.height is Some && x.height->0 >= y.height->0)
        &&& (x.height == y.height && y.fps is Some ==> x.fps is Some && x.fps->0 >= y.fps->0)
        &&& (x.height == y.height && x.fps == y.fps && size_value(y) is Some
            ==> size_value(x) is Some && size_value(x)->0 >= size_value(y)->0)
    } by {
        assert(!ranks_below(ranked(s)[a], ranked(s)[b]));
    }
}

/// A quality choice, as text and numbers: id, label, height, extension, size, and
/// whether FFmpeg is needed.
pub type OptionView = (Seq<char>, Seq<char>, Option<u64>, Option<Seq<char>>, Option<u64>, bool);

pub open spec fn option_view(o: MediaFormatOption) -> OptionView {
    (o.id@, o.label@, o.height, opt_view(o.ext), o.filesize, o.requires_ffmpeg)
}

pub open spec fn options_view(s: Seq<MediaFormatOption>) -> Seq<OptionView> {
    s.map_values(|o: MediaFormatOption| option_view(o))
}

/// A codec is named, and is not `none`.
pub open spec fn codec_present(c: Option<String>) -> bool {
    match c {
        Some(v) => v@ != "none"@,
        None => false,
    }
}

pub open spec fn has_video(f: FormatEntry) -> bool {
    codec_present(f.vcodec)
}

pub open spec fn has_audio(f: FormatEntry) -> bool {
    codec_present(f.acodec)
}

/// A format yt-dlp lists with size 0 and no estimate cannot be fetched.
pub open spec fn is_placeholder(f: FormatEntry) -> bool {
    f.filesize == Some(0u64) && f.filesize_approx is None
}

/// How a codec is named in a label: the part before its first `.`, in capitals, or
/// `UNKNOWN` where there is none.
pub open spec fn codec_label(c: Option<String>) -> Seq<char> {
    match c {
        Some(v) => if trim(v@).len() > 0 && v@ != "none"@ {
            uppercase(split_char(v@, '.')[0])
        } else {
            "UNKNOWN"@
        },
        None => "UNKNOWN"@,
    }
}

/// An extension that holds something besides white space.
pub open spec fn filled_ext(e: Option<String>) -> Option<Seq<char>> {
    match e {
        Some(v) => if trim(v@).len() > 0 { Some(v@) } else { None },
        None => None,
    }
}

/// `a + b`, or `u64::MAX` where that does not fit.
pub open spec fn saturating_sum(a: u64, b: u64) -> u64 {
    if a + b <= u64::MAX { (a + b) as u64 } else { u64::MAX }
}

/// The choice a video format gives, where it is one that can be offered: it names a
/// format and a height, has video and is not a placeholder. Its size counts the best
/// audio too where it has no sound of its own, and FFmpeg is then needed to merge.
pub open spec fn video_choice_of(f: FormatEntry, best_audio: Option<u64>) -> Option<OptionView> {
    if f.height is Some && has_video(f) && !is_placeholder(f) && f.format_id is Some {
        let h = f.height->0;
        let size = if !has_audio(f) {
            match (size_value(f), best_audio) {
                (Some(v), Some(a)) => Some(saturating_sum(v, a)),
                _ => None,
            }
        } else {
            size_value(f)
        };
        Some((
            "video:"@ + f.format_id->0@ + ":"@ + decimal_text(h as nat),
            decimal_text(h as nat) + "p ("@ + codec_label(f.vcodec) + ")"@,
            Some(h),
            filled_ext(f.ext),
            size,
            !has_audio(f),
        ))
    } else {
        None
    }
}

/// The choice an audio-only format gives, where it names a format and is not a
/// placeholder.
pub open spec fn audio_choice_of(f: FormatEntry) -> Option<OptionView> {
    if !has_video(f) && has_audio(f) && !is_placeholder(f) && f.format_id is Some {
        Some((
            "audio:"@ + f.format_id->0@,
            "Audio only ("@ + codec_label(f.acodec) + ")"@,
            None,
            filled_ext(f.ext),
            size_value(f),
            false,
        ))
    } else {
        None
    }
}

/// The choices the formats give, in order.
pub open spec fn video_choices(s: Seq<FormatEntry>, best_audio: Option<u64>) -> Seq<OptionView>
    decreases s.len(),
{
    if s.len() == 0 {
        Seq::empty()
    } else {
        let rest = video_choices(s.drop_last(), best_audio);
        match video_choice_of(s.last(), best_audio) {
            Some(c) => rest.push(c),
            None => rest,
        }
    }
}

pub open spec fn audio_choices(s: Seq<FormatEntry>) -> Seq<OptionView>
    decreases s.len(),
{
    if s.len() == 0 {
        Seq::empty()
    } else {
        let rest = audio_choices(s.drop_last());
        match audio_choice_of(s.last()) {
            Some(c) => rest.push(c),
            None => rest,
        }
    }
}

/// The larger of two sizes, where either is known.
pub open spec fn max_size(a: Option<u64>, b: Option<u64>) -> Option<u64> {
    match (a, b) {
        (Some(x), Some(y)) => Some(if x >= y { x } else { y }),
        (Some(x), None) => Some(x),
        (None, y) => y,
    }
}

/// The largest size among the audio-only formats.
pub open spec fn best_audio_size(s: Seq<FormatEntry>) -> Option<u64>
    decreases s.len(),
{
    if s.len() == 0 {
        None
    } else {
        let f = s.last();
        max_size(best_audio_size(s.drop_last()), if has_audio(f) && !has_video(f) { size_value(f) } else { None })
    }
}

/// The choices without a repeated height (the first of each height is kept).
pub open spec fn first_of_each_height(s: Seq<OptionView>) -> Seq<OptionView>
    decreases s.len(),
{
    if s.len() == 0 {
        s
    } else {
        let rest = first_of_each_height(s.drop_last());
        let h = s.last().2;
        if h is Some && exists|j: int| 0 <= j < s.len() - 1 && (#[trigger] s[j]).2 == h { rest } else { rest.push(s.last()) }
    }
}

/// The choices without a repeated id (the first of each id is kept).
pub open spec fn first_of_each_id(s: Seq<OptionView>) -> Seq<OptionView>
    decreases s.len(),
{
    if s.len() == 0 {
        s
    } else {
        let rest = first_of_each_id(s.drop_last());
        if exists|j: int| 0 <= j < s.len() - 1 && (#[trigger] s[j]).0 == s.last().0 { rest } else { rest.push(s.last()) }
    }
}

/// The first choice: the best format yt-dlp picks, with the size of what it would fetch.
pub open spec fn best_choice(requested_size: Option<u64>, can_merge: bool) -> OptionView {
    (
        default_format_selector(can_merge),
        if can_merge { "Best available"@ } else { "Best single-file"@ },
        None,
        None,
        requested_size,
        false,
    )
}

/// The quality choices for a media page: the best format first, then the video
/// formats, largest first, one per height, then the audio-only formats, one per id. The
/// best audio size is added to video formats without sound only where FFmpeg can merge
/// them. Labels here carry no size.
pub open spec fn quality_choices(formats: Seq<FormatEntry>, requested_size: Option<u64>, can_merge: bool) -> Seq<OptionView> {
    let r = ranked(formats);
    let best_audio = if can_merge { best_audio_size(r) } else { None };
    seq![best_choice(requested_size, can_merge)] + first_of_each_height(video_choices(r, best_audio))
        + first_of_each_id(audio_choices(r))
}


fn codec_label_of(c: &Option<String>) -> (r: String)
    ensures
        r@ == codec_label(*c),
{
    match c {
        Some(v) => {
            let cv = chars_of(v.as_str());
            let none = chars_of("none");
            if trim_vec(&cv).len() > 0 && !crate::naming::eq_chars(&cv, &none) {
                let parts = split_vec(&cv, '.');
                proof {
                    lemma_split_char_nonempty(cv@, '.');
                }
                assert(pieces_view(parts@)[0] == parts@[0]@);
                let first = string_from_chars(parts[0].as_slice());
                to_uppercase(first.as_str())
            } else {
                String::from_str("UNKNOWN")
            }
        },
        None => String::from_str("UNKNOWN"),
    }
}

fn codec_present_exec(c: &Option<String>) -> (r: bool)
    ensures
        r == codec_present(*c),
{
    match c {
        Some(v) => {
            let cv = chars_of(v.as_str());
            !crate::naming::is_text(&cv, "none")
        },
        None => false,
    }
}

fn filled_ext_of(e: &Option<String>) -> (r: Option<String>)
    ensures
        opt_view(r) == filled_ext(*e),
{
    match e {
        Some(v) => {
            let cv = chars_of(v.as_str());
            if trim_vec(&cv).len() > 0 { Some(v.clone()) } else { None }
        },
        None => None,
    }
}

/// The choice a video format gives (see `video_choice_of`); its label carries no size.
pub fn video_option_from_format(f: &FormatEntry, best_audio: Option<u64>) -> (r: Option<MediaFormatOption>)
    ensures
        match r {
            Some(o) => video_choice_of(*f, best_audio) == Some(option_view(o)),
            None => video_choice_of(*f, best_audio) is None,
        },
{
    let placeholder = f.filesize == Some(0u64) && f.filesize_approx.is_none();
    let video = codec_present_exec(&f.vcodec);
    let audio = codec_present_exec(&f.acodec);
    if f.height.is_none() || !video || placeholder || f.format_id.is_none() {
        return None;
    }
    let h = match f.height {
        Some(h) => h,
        None => 0,
    };
    let fid = match &f.format_id {
        Some(i) => i,
        None => {
            return None;
        },
    };
    let own = format_size_value(f);
    let size = if !audio {
        match (own, best_audio) {
            (Some(v), Some(a)) => Some(
                match v.checked_add(a) {
                    Some(s) => s,
                    None => u64::MAX,
                },
            ),
            _ => None,
        }
    } else {
        own
    };
    let mut id: Vec<char> = Vec::new();
    push_str(&mut id, "video:");
    push_str(&mut id, fid.as_str());
    push_str(&mut id, ":");
    push_decimal(&mut id, h);
    let mut label: Vec<char> = Vec::new();
    push_decimal(&mut label, h);
    push_str(&mut label, "p (");
    let codec = codec_label_of(&f.vcodec);
    push_str(&mut label, codec.as_str());
    push_str(&mut label, ")");
    Some(MediaFormatOption {
        id: string_from_chars(id.as_slice()),
        label: string_from_chars(label.as_slice()),
        height: Some(h),
        ext: filled_ext_of(&f.ext),
        filesize: size,
        requires_ffmpeg: !audio,
    })
}

/// The choice an audio-only format gives (see `audio_choice_of`); its label carries no
/// size.
pub fn audio_option_from_format(f: &FormatEntry) -> (r: Option<MediaFormatOption>)
    ensures
        match r {
            Some(o) => audio_choice_of(*f) == Some(option_view(o)),
            None => audio_choice_of(*f) is None,
        },
{
    let placeholder = f.filesize == Some(0u64) && f.filesize_approx.is_none();
    let video = codec_present_exec(&f.vcodec);
    let audio = codec_present_exec(&f.acodec);
    if video || !audio || placeholder {
        return None;
    }
    let fid = match &f.format_id {
        Some(i) => i,
        None => {
            return None;
        },
    };
    let mut id: Vec<char> = Vec::new();
    push_str(&mut id, "audio:");
    push_str(&mut id, fid.as_str());
    let mut label: Vec<char> = Vec::new();
    push_str(&mut label, "Audio only (");
    let codec = codec_label_of(&f.acodec);
    push_str(&mut label, codec.as_str());
    push_str(&mut label, ")");
    Some(MediaFormatOption {
        id: string_from_chars(id.as_slice()),
        label: string_from_chars(label.as_slice()),
        height: None,
        ext: filled_ext_of(&f.ext),
        filesize: format_size_value(f),
        requires_ffmpeg: false,
    })
}

/// The largest size among the audio-only formats (see `best_audio_size`).
pub fn best_audio_size_of(formats: &Vec<FormatEntry>) -> (r: Option<u64>)
    ensures
        r == best_audio_size(formats@),
{
    let mut best: Option<u64> = None;
    let mut i: usize = 0;
    assert(formats@.take(0) =~= Seq::<FormatEntry>::empty());
    while i < formats.len()
        invariant
            i <= formats@.len(),
            best == best_audio_size(formats@.take(i as int)),
        decreases formats@.len() - i,
    {
        let f = &formats[i];
        let candidate = if codec_present_exec(&f.acodec) && !codec_present_exec(&f.vcodec) {
            format_size_value(f)
        } else {
            None
        };
        best = match (best, candidate) {
            (Some(x), Some(y)) => Some(if x >= y { x } else { y }),
            (Some(x), None) => Some(x),
            (None, y) => y,
        };
        proof {
            assert(formats@.take(i + 1).drop_last() =~= formats@.take(i as int));
            assert(formats@.take(i + 1).last() == *f);
        }
        i = i + 1;
    }
    assert(formats@.take(i as int) =~= formats@);
    best
}

proof fn lemma_first_by_height_view(s: Seq<MediaFormatOption>)
    ensures
        options_view(first_by_height(s)) == first_of_each_height(options_view(s)),
    decreases s.len(),
{
    if s.len() > 0 {
        let v = options_view(s);
        lemma_first_by_height_view(s.drop_last());
        assert(options_view(s.drop_last()) =~= v.drop_last());
        let n = s.len() - 1;
        let h = v.last().2;
        assert(v.last() == option_view(s[n]));
        let e1 = height_seen_before(s, n);
        let e2 = h is Some && exists|j: int| 0 <= j < v.len() - 1 && (#[trigger] v[j]).2 == h;
        if e1 {
            let j = choose|j: int| 0 <= j < n && (#[trigger] s[j]).height == s[n].height;
            assert(v[j].2 == h);
        }
        if e2 {
            let j = choose|j: int| 0 <= j < v.len() - 1 && (#[trigger] v[j]).2 == h;
            assert(s[j].height == v[j].2);
        }
        assert(e1 == e2);
        if !e1 {
            assert(options_view(first_by_height(s)) =~= options_view(first_by_height(s.drop_last())).push(option_view(s.last())));
        }
    }
}

proof fn lemma_first_by_id_view(s: Seq<MediaFormatOption>)
    ensures
        options_view(first_by_id(s)) == first_of_each_id(options_view(s)),
    decreases s.len(),
{
    if s.len() > 0 {
        let v = options_view(s);
        lemma_first_by_id_view(s.drop_last());
        assert(options_view(s.drop_last()) =~= v.drop_last());
        let n = s.len() - 1;
        assert(v.last() == option_view(s[n]));
        let e1 = id_seen_before(s, n);
        let e2 = exists|j: int| 0 <= j < v.len() - 1 && (#[trigger] v[j]).0 == v.last().0;
        if e1 {
            let j = choose|j: int| 0 <= j < n && (#[trigger] s[j]).id@ == s[n].id@;
            assert(v[j].0 == v.last().0);
        }
        if e2 {
            let j = choose|j: int| 0 <= j < v.len() - 1 && (#[trigger] v[j]).0 == v.last().0;
            assert(s[j].id@ == v[j].0);
        }
        assert(e1 == e2);
        if !e1 {
            assert(options_view(first_by_id(s)) =~= options_view(first_by_id(s.drop_last())).push(option_view(s.last())));
        }
    }
}

/// The quality choices for a media page (see `quality_choices`). `requested_size` is
/// the size of what yt-dlp would fetch for the best format, where known. Labels carry
/// no size: the caller adds ` - <size>` (or ` - Unknown`) to every choice but the first.
pub fn media_quality_options(formats: &Vec<FormatEntry>, requested_size: Option<u64>, can_merge: bool) -> (r: Vec<MediaFormatOption>)
    ensures
        options_view(r@) == quality_choices(formats@, requested_size, can_merge),
{
    let mut options: Vec<MediaFormatOption> = Vec::new();
    options.push(MediaFormatOption {
        id: String::from_str(media_format_selector(can_merge)),
        label: if can_merge { String::from_str("Best available") } else { String::from_str("Best single-file") },
        height: None,
        ext: None,
        filesize: requested_size,
        requires_ffmpeg: false,
    });
    let ranked_formats = rank_formats(formats);
    let best_audio = if can_merge { best_audio_size_of(&ranked_formats) } else { None };
    let ghost rs = ranked_formats@;
    let mut videos: Vec<MediaFormatOption> = Vec::new();
    let mut audios: Vec<MediaFormatOption> = Vec::new();
    let mut i: usize = 0;
    assert(rs.take(0) =~= Seq::<FormatEntry>::empty());
    while i < ranked_formats.len()
        invariant
            i <= rs.len(),
            rs == ranked_formats@,
            options_view(videos@) == video_choices(rs.take(i as int), best_audio),
            options_view(audios@) == audio_choices(rs.take(i as int)),
        decreases rs.len() - i,
    {
        let f = &ranked_formats[i];
        proof {
            assert(rs.take(i + 1).drop_last() =~= rs.take(i as int));
            assert(rs.take(i + 1).last() == *f);
        }
        let ghost v0 = videos@;
        let ghost a0 = audios@;
        match video_option_from_format(f, best_audio) {
            Some(o) => {
                videos.push(o);
                assert(options_view(videos@) =~= options_view(v0).push(option_view(o)));
            },
            None => {},
        }
        match audio_option_from_format(f) {
            Some(o) => {
                audios.push(o);
                assert(options_view(audios@) =~= options_view(a0).push(option_view(o)));
            },
            None => {},
        }
        i = i + 1;
    }
    assert(rs.take(i as int) =~= rs);
    let ghost vs = videos@;
    let ghost aus = audios@;
    dedupe_video_options_by_height(&mut videos);
    dedupe_format_options(&mut audios);
    proof {
        lemma_first_by_height_view(vs);
        lemma_first_by_id_view(aus);
    }
    let ghost first = options@;
    let mut k: usize = 0;
    while k < videos.len()
        invariant
            k <= videos@.len(),
            options@ == first + videos@.take(k as int),
        decreases videos@.len() - k,
    {
        options.push(videos[k].duplicate());
        k = k + 1;
        assert(options@ =~= first + videos@.take(k as int));
    }
    assert(videos@.take(k as int) =~= videos@);
    let ghost second = options@;
    let mut k: usize = 0;
    while k < audios.len()
        invariant
            k <= audios@.len(),
            options@ == second + audios@.take(k as int),
        decreases audios@.len() - k,
    {
        options.push(audios[k].duplicate());
        k = k + 1;
        assert(options@ =~= second + audios@.take(k as int));
    }
    assert(audios@.take(k as int) =~= audios@);
    assert(options_view(options@) =~= options_view(first) + options_view(videos@) + options_view(audios@));
    options
}


/// What the library reads of yt-dlp's description of a media page.
#[derive(Debug)]
pub struct MediaDescription {
    pub title: Option<String>,
    pub fulltitle: Option<String>,
    pub vcodec: Option<String>,
    pub ext: Option<String>,
    /// For each entry of `requested_downloads`, its size and approximate size; `None`
    /// where the description has no such list.
    pub requested: Option<Vec<(Option<u64>, Option<u64>)>>,
    pub filesize: Option<u64>,
    pub filesize_approx: Option<u64>,
    pub formats: Vec<FormatEntry>,
}

/// The extension a media download is saved with: `mp4` where FFmpeg merges a video,
/// else the extension yt-dlp gives, or `mp4`.
pub open spec fn preferred_ext(d: MediaDescription, can_merge: bool) -> Seq<char> {
    let vcodec = match d.vcodec {
        Some(v) => v@,
        None => Seq::empty(),
    };
    if can_merge && vcodec != "none"@ {
        "mp4"@
    } else {
        match filled_ext(d.ext) {
            Some(e) => e,
            None => "mp4"@,
        }
    }
}

/// The sum of the sizes of the requested downloads (each exact, else approximate),
/// saturating; `None` where there is no list or the sum is 0.
pub open spec fn requested_sum(items: Seq<(Option<u64>, Option<u64>)>) -> nat
    decreases items.len(),
{
    if items.len() == 0 {
        0
    } else {
        let rest = requested_sum(items.drop_last());
        let last = items.last();
        let size: Option<u64> = match last.0 {
            Some(n) => Some(n),
            None => last.1,
        };
        match size {
            Some(n) => if rest + n <= u64::MAX { (rest + n) as nat } else { u64::MAX as nat },
            None => rest,
        }
    }
}

pub open spec fn requested_size(d: MediaDescription) -> Option<u64> {
    match d.requested {
        Some(items) => if requested_sum(items@) > 0 { Some(requested_sum(items@) as u64) } else { None },
        None => None,
    }
}

proof fn lemma_requested_sum_bound(items: Seq<(Option<u64>, Option<u64>)>)
    ensures
        requested_sum(items) <= u64::MAX,
    decreases items.len(),
{
    if items.len() > 0 {
        lemma_requested_sum_bound(items.drop_last());
    }
}

/// The size of what yt-dlp would fetch (see `requested_size`).
pub fn requested_download_size(d: &MediaDescription) -> (r: Option<u64>)
    ensures
        r == requested_size(*d),
{
    match &d.requested {
        Some(items) => {
            let mut total: u64 = 0;
            let mut i: usize = 0;
            assert(items@.take(0) =~= Seq::<(Option<u64>, Option<u64>)>::empty());
            while i < items.len()
                invariant
                    i <= items@.len(),
                    total == requested_sum(items@.take(i as int)),
                decreases items@.len() - i,
            {
                let item = items[i];
                let size = match item.0 {
                    Some(n) => Some(n),
                    None => item.1,
                };
                proof {
                    assert(items@.take(i + 1).drop_last() =~= items@.take(i as int));
                    assert(items@.take(i + 1).last() == item);
                    lemma_requested_sum_bound(items@.take(i as int));
                }
                match size {
                    Some(n) => {
                        total = match total.checked_add(n) {
                            Some(s) => s,
                            None => u64::MAX,
                        };
                    },
                    None => {},
                }
                i = i + 1;
            }
            assert(items@.take(i as int) =~= items@);
            if total > 0 { Some(total) } else { None }
        },
        None => None,
    }
}

/// The file name of a media page: its title (or full title, or `media`) with the
/// preferred extension, made safe for the file system.
pub open spec fn media_file_name(d: MediaDescription, can_merge: bool) -> Seq<char> {
    crate::naming::sanitized(media_title(d) + "."@ + preferred_ext(d, can_merge), "media.mp4"@)
}

/// The title of a media page: its title, else its full title, else `media`.
pub open spec fn media_title(d: MediaDescription) -> Seq<char> {
    match d.title {
        Some(t) => t@,
        None => match d.fulltitle {
            Some(t) => t@,
            None => "media"@,
        },
    }
}

/// What a media page offers, from yt-dlp's description: its file name (see
/// `media_file_name`), its size (what would be fetched, else the page's size, exact or
/// approximate), the `video/media` type, and its quality choices (see
/// `media_quality_options`).
pub fn media_info_from_description(d: &MediaDescription, can_merge: bool) -> (r: MediaInfo)
    ensures
        r.filename@ == media_file_name(*d, can_merge),
        r.filesize == match requested_size(*d) {
            Some(n) => Some(n),
            None => match d.filesize {
                Some(n) => Some(n),
                None => d.filesize_approx,
            },
        },
        opt_view(r.content_type) == Some("video/media"@),
        options_view(r.formats@) == quality_choices(d.formats@, requested_size(*d), can_merge),
        r.can_merge == can_merge,
{
    let mut name: Vec<char> = Vec::new();
    match &d.title {
        Some(t) => push_str(&mut name, t.as_str()),
        None => match &d.fulltitle {
            Some(t) => push_str(&mut name, t.as_str()),
            None => push_str(&mut name, "media"),
        },
    }
    assert(name@ =~= media_title(*d));
    push_str(&mut name, ".");
    let vc: Vec<char> = match &d.vcodec {
        Some(v) => chars_of(v.as_str()),
        None => Vec::new(),
    };
    let vcodec_none = crate::naming::is_text(&vc, "none");
    if can_merge && !vcodec_none {
        push_str(&mut name, "mp4");
    } else {
        match filled_ext_of(&d.ext) {
            Some(e) => push_str(&mut name, e.as_str()),
            None => push_str(&mut name, "mp4"),
        }
    }
    assert(name@ =~= media_title(*d) + "."@ + preferred_ext(*d, can_merge));
    let name = string_from_chars(name.as_slice());
    let requested = requested_download_size(d);
    let filesize = match requested {
        Some(n) => Some(n),
        None => match d.filesize {
            Some(n) => Some(n),
            None => d.filesize_approx,
        },
    };
    MediaInfo {
        filename: crate::naming::sanitize_component(name.as_str()),
        filesize,
        content_type: Some(String::from_str("video/media")),
        formats: media_quality_options(&d.formats, requested, can_merge),
        can_merge,
    }
}

} // verus!
