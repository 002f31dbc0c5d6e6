//! How a link is probed before it is added: the order of the HTTP probes and the error
//! when all of them fail, and the series of yt-dlp runs that looks for a media page's
//! formats, keeping the description with the most video formats.

use vstd::prelude::*;
use crate::formats::{has_video, FormatEntry, MediaDescription};
use crate::media::{is_youtube, media_probe_contexts};
use crate::models::{opt_view, HttpContext};
use crate::text::{chars_of, pieces_view, split_char, split_vec, starts_with, string_from_chars, trim, trim_vec};

verus! {

/// The three ways a link is probed, in the order they are tried.
#[derive(Debug, PartialEq, Eq, Structural)]
pub enum ProbeMethod {
    /// `GET` with `Range: bytes=0-0`.
    RangedGet,
    /// `HEAD`.
    Head,
    /// A plain `GET`.
    PlainGet,
}

/// The probes in the order they are tried.
pub open spec fn probe_order() -> Seq<ProbeMethod> {
    seq![ProbeMethod::RangedGet, ProbeMethod::Head, ProbeMethod::PlainGet]
}

/// What `format!("{:?}", s)` writes for a text: the text quoted, with std's escapes.
pub uninterp spec fn debug_text(s: Seq<char>) -> Seq<char>;

/// `<str as Debug>::fmt`, through `format!("{:?}", ..)`. The contract names the result:
/// the same text is always written the same way; the escaping rules are not stated.
#[verifier::external_body]
fn debug_quoted(s: &str) -> (r: String)
    ensures
        r@ == debug_text(s@),
{
    format!("{:?}", s)
}

/// The error of a link that no probe could read, naming the error of each probe.
pub open spec fn probe_failure_text(errors: Seq<Seq<char>>) -> Seq<char> {
    "Failed to probe URL. Range GET: Some("@ + debug_text(errors[0]) + "), HEAD: Some("@
        + debug_text(errors[1]) + "), GET: Some("@ + debug_text(errors[2]) + ")"@
}

/// What probing a link does next.
#[derive(Debug)]
pub enum ProbeNext {
    /// Send this probe.
    Send(ProbeMethod),
    /// Every probe failed: the link cannot be added, for this reason.
    GiveUp(String),
}

/// Decides the next probe of a link, given the errors of the probes that failed so far
/// (a probe that succeeds ends the probing): ranged `GET`, then `HEAD`, then plain `GET`,
/// and after three failures an error that names all three.
pub fn next_probe(errors: &Vec<String>) -> (r: ProbeNext)
    requires
        errors@.len() <= 3,
    ensures
        errors@.len() < 3 ==> r == ProbeNext::Send(probe_order()[errors@.len() as int]),
        errors@.len() == 3 ==> (r matches ProbeNext::GiveUp(m)
            && m@ == probe_failure_text(pieces_view_strings(errors@))),
{
    if errors.len() == 0 {
        ProbeNext::Send(ProbeMethod::RangedGet)
    } else if errors.len() == 1 {
        ProbeNext::Send(ProbeMethod::Head)
    } else if errors.len() == 2 {
        ProbeNext::Send(ProbeMethod::PlainGet)
    } else {
        let mut v: Vec<char> = chars_of("Failed to probe URL. Range GET: Some(");
        let a = debug_quoted(errors[0].as_str());
        let b = debug_quoted(errors[1].as_str());
        let c = debug_quoted(errors[2].as_str());
        let s1 = chars_of(a.as_str());
        let mid1 = chars_of("), HEAD: Some(");
        let s2 = chars_of(b.as_str());
        let mid2 = chars_of("), GET: Some(");
        let s3 = chars_of(c.as_str());
        let end = chars_of(")");
        v.append(&mut s1.clone());
        v.append(&mut mid1.clone());
        v.append(&mut s2.clone());
        v.append(&mut mid2.clone());
        v.append(&mut s3.clone());
        v.append(&mut end.clone());
        proof {
            reveal_strlit("Failed to probe URL. Range GET: Some(");
            reveal_strlit("), HEAD: Some(");
            reveal_strlit("), GET: Some(");
            reveal_strlit(")");
        }
        let ghost e = pieces_view_strings(errors@);
        assert(e[0] == errors@[0]@ && e[1] == errors@[1]@ && e[2] == errors@[2]@);
        assert(v@ =~= probe_failure_text(e));
        ProbeNext::GiveUp(string_from_chars(v.as_slice()))
    }
}

/// The texts of a list of strings.
pub open spec fn pieces_view_strings(v: Seq<String>) -> Seq<Seq<char>> {
    v.map_values(|s: String| s@)
}

/// The yt-dlp `--extractor-args` tried for a page, in order: for YouTube, none and then
/// three sets of player clients; for other sites, none.
pub open spec fn extractor_choices(youtube: bool) -> Seq<Option<Seq<char>>> {
    if youtube {
        seq![
            None,
            Some("youtube:player_client=web,ios,android,mweb"@),
            Some("youtube:player_client=default,web,ios,android"@),
            Some("youtube:skip=dash,hls"@),
        ]
    } else {
        seq![None]
    }
}

/// Rounds of attempts: two for YouTube, one otherwise.
pub open spec fn probe_rounds(youtube: bool) -> nat {
    if youtube { 2 } else { 1 }
}

/// Video formats that are enough to stop looking: three for YouTube (one is usually only
/// the progressive fallback), one otherwise.
pub open spec fn wanted_video_formats(youtube: bool) -> nat {
    if youtube { 3 } else { 1 }
}

/// The formats of a description that are video with a known height.
pub open spec fn video_candidates(formats: Seq<FormatEntry>) -> nat
    decreases formats.len(),
{
    if formats.len() == 0 {
        0
    } else {
        video_candidates(formats.drop_last()) + if formats.last().height is Some && has_video(
            formats.last(),
        ) {
            1nat
        } else {
            0nat
        }
    }
}

/// The attempts a page gets at most: each round tries every browser context with every
/// extractor choice.
pub open spec fn attempt_total(youtube: bool, contexts: nat) -> nat {
    probe_rounds(youtube) * contexts * extractor_choices(youtube).len()
}

/// The browser context of attempt `i`.
pub open spec fn attempt_context(youtube: bool, contexts: nat, i: nat) -> int {
    ((i / extractor_choices(youtube).len()) % contexts) as int
}

/// The extractor choice of attempt `i`.
pub open spec fn attempt_extractor(youtube: bool, i: nat) -> Option<Seq<char>> {
    extractor_choices(youtube)[(i % extractor_choices(youtube).len()) as int]
}

/// Attempt `i` opens a new round, after a short pause.
pub open spec fn opens_round(youtube: bool, contexts: nat, i: nat) -> bool {
    i > 0 && i % (contexts * extractor_choices(youtube).len()) == 0
}

/// The state of the search for a media page's formats.
#[derive(Debug)]
pub struct MediaProbePlan {
    /// The page is on YouTube.
    pub youtube: bool,
    /// The browser contexts tried, in order.
    pub contexts: Vec<HttpContext>,
    /// Attempts made so far.
    pub attempts_made: usize,
    /// The description with the most video formats so far (the first where they tie).
    pub best: Option<MediaDescription>,
    /// Its number of video formats.
    pub best_count: usize,
    /// The error of the latest attempt that failed.
    pub last_error: Option<String>,
}

impl MediaProbePlan {
    /// The plan is one that `new` and `record` make: one or two contexts, no more
    /// attempts made than there are, and the count kept is that of the best description.
    pub open spec fn wf(&self) -> bool {
        &&& 1 <= self.contexts@.len() <= 2
        &&& self.attempts_made <= attempt_total(self.youtube, self.contexts@.len())
        &&& match self.best {
            Some(d) => self.best_count == video_candidates(d.formats@),
            None => self.best_count == 0,
        }
    }

    /// The search is over: enough video formats were found, or every attempt was made.
    pub open spec fn done(&self) -> bool {
        ||| self.best_count >= wanted_video_formats(self.youtube)
        ||| self.attempts_made >= attempt_total(self.youtube, self.contexts@.len())
    }

    /// The search for the formats of the page at `url`, with the browser context `ctx`:
    /// the contexts are those `media_probe_contexts` picks.
    pub fn new(url: &str, ctx: &HttpContext) -> (p: MediaProbePlan)
        ensures
            p.wf(),
            p.youtube == is_youtube(url@),
            (is_youtube(url@) && !crate::media::context_is_empty(*ctx)) ==> p.contexts@.len() == 2
                && p.contexts@[0].cookies is None && p.contexts@[0].referer is None
                && p.contexts@[0].user_agent is None && p.contexts@[1] == *ctx,
            !(is_youtube(url@) && !crate::media::context_is_empty(*ctx)) ==> p.contexts@.len() == 1
                && p.contexts@[0] == *ctx,
            p.attempts_made == 0,
            p.best is None,
            p.best_count == 0,
            p.last_error is None,
    {
        MediaProbePlan {
            youtube: crate::media::is_youtube_url(url),
            contexts: media_probe_contexts(url, ctx),
            attempts_made: 0,
            best: None,
            best_count: 0,
            last_error: None,
        }
    }

    /// The next yt-dlp run, or none where the search is over.
    pub fn next_attempt(&self) -> (r: Option<MediaProbeAttempt>)
        requires
            self.wf(),
        ensures
            r is None <==> self.done(),
            r matches Some(a) ==> {
                let c = self.contexts@.len();
                let i = self.attempts_made as nat;
                &&& a.context == self.contexts@[attempt_context(self.youtube, c, i)]
                &&& opt_view(a.extractor_args) == attempt_extractor(self.youtube, i)
                &&& a.after_pause == opens_round(self.youtube, c, i)
            },
    {
        let wanted: usize = if self.youtube { 3 } else { 1 };
        let per: usize = if self.youtube { 4 } else { 1 };
        let rounds: usize = if self.youtube { 2 } else { 1 };
        let c = self.contexts.len();
        let per_round = c * per;
        let total = rounds * per_round;
        assert(total == attempt_total(self.youtube, c as nat)) by (nonlinear_arith)
            requires
                per_round == c * per,
                total == rounds * per_round,
                per == extractor_choices(self.youtube).len(),
                rounds == probe_rounds(self.youtube),
        ;
        if self.best_count >= wanted || self.attempts_made >= total {
            return None;
        }
        let i = self.attempts_made;
        let k = (i / per) % c;
        let e = i % per;
        let extractor_args = if !self.youtube || e == 0 {
            None
        } else if e == 1 {
            Some(String::from_str("youtube:player_client=web,ios,android,mweb"))
        } else if e == 2 {
            Some(String::from_str("youtube:player_client=default,web,ios,android"))
        } else {
            Some(String::from_str("youtube:skip=dash,hls"))
        };
        proof {
            reveal_strlit("youtube:player_client=web,ios,android,mweb");
            reveal_strlit("youtube:player_client=default,web,ios,android");
            reveal_strlit("youtube:skip=dash,hls");
        }
        assert(opt_view(extractor_args) == attempt_extractor(self.youtube, i as nat));
        Some(MediaProbeAttempt {
            context: self.contexts[k].duplicate(),
            extractor_args,
            after_pause: i > 0 && i % per_round == 0,
        })
    }

    /// Takes in the outcome of an attempt: a description with more video formats than the
    /// best so far (or the first description) becomes the best; an error is kept as the
    /// latest.
    pub fn record(&mut self, outcome: Result<MediaDescription, String>)
        requires
            old(self).wf(),
            !old(self).done(),
        ensures
            final(self).wf(),
            final(self).youtube == old(self).youtube,
            final(self).contexts@ == old(self).contexts@,
            final(self).attempts_made == old(self).attempts_made + 1,
            match outcome {
                Ok(d) => {
                    let n = video_candidates(d.formats@);
                    &&& (if n > old(self).best_count || old(self).best is None {
                        final(self).best == Some(d) && final(self).best_count == n
                    } else {
                        final(self).best == old(self).best && final(self).best_count == old(self).best_count
                    })
                    &&& opt_view(final(self).last_error) == opt_view(old(self).last_error)
                },
                Err(e) => {
                    &&& final(self).best == old(self).best
                    &&& final(self).best_count == old(self).best_count
                    &&& opt_view(final(self).last_error) == Some(e@)
                },
            },
    {
        proof {
            let c = self.contexts@.len();
            assert(attempt_total(self.youtube, c) <= 16) by (nonlinear_arith)
                requires
                    1 <= c <= 2,
                    probe_rounds(self.youtube) <= 2,
                    extractor_choices(self.youtube).len() <= 4,
                    attempt_total(self.youtube, c) == probe_rounds(self.youtube) * c
                        * extractor_choices(self.youtube).len(),
            ;
        }
        match outcome {
            Ok(d) => {
                let n = video_candidate_count(&d.formats);
                if n > self.best_count || self.best.is_none() {
                    self.best = Some(d);
                    self.best_count = n;
                }
            },
            Err(e) => {
                self.last_error = Some(e);
            },
        }
        self.attempts_made = self.attempts_made + 1;
    }

    /// What the search found: the best description, else the latest error, else the
    /// report that yt-dlp gave no description.
    pub fn finish(self) -> (r: Result<MediaDescription, String>)
        ensures
            match self.best {
                Some(d) => r == Ok::<MediaDescription, String>(d),
                None => (r matches Err(m) && m@ == match opt_view(self.last_error) {
                    Some(e) => e,
                    None => "yt-dlp did not return media information"@,
                }),
            },
    {
        match self.best {
            Some(d) => Ok(d),
            None => match self.last_error {
                Some(e) => Err(e),
                None => Err(String::from_str("yt-dlp did not return media information")),
            },
        }
    }
}

/// One yt-dlp run of the search.
#[derive(Debug)]
pub struct MediaProbeAttempt {
    /// The browser context it carries.
    pub context: HttpContext,
    /// Its `--extractor-args`, where it has any.
    pub extractor_args: Option<String>,
    /// It opens a new round: wait a moment before it.
    pub after_pause: bool,
}

/// Counts the formats that are video with a known height.
pub fn video_candidate_count(formats: &Vec<FormatEntry>) -> (n: usize)
    ensures
        n == video_candidates(formats@),
{
    let mut n: usize = 0;
    let mut i: usize = 0;
    while i < formats.len()
        invariant
            i <= formats@.len(),
            n == video_candidates(formats@.take(i as int)),
            n <= i,
        decreases formats@.len() - i,
    {
        assert(formats@.take(i + 1).drop_last() =~= formats@.take(i as int));
        let f = &formats[i];
        let video = match &f.vcodec {
            Some(v) => !crate::naming::is_text(&chars_of(v.as_str()), "none"),
            None => false,
        };
        if f.height.is_some() && video {
            n = n + 1;
        }
        i = i + 1;
    }
    assert(formats@.take(formats@.len() as int) =~= formats@);
    n
}

/// The line of yt-dlp's output that holds its JSON description: the last one that starts
/// with `{` once trimmed, trimmed.
pub open spec fn json_line_of(lines: Seq<Seq<char>>) -> Option<Seq<char>>
    decreases lines.len(),
{
    if lines.len() == 0 {
        None
    } else if starts_with(trim(lines.last()), "{"@) {
        Some(trim(lines.last()))
    } else {
        json_line_of(lines.drop_last())
    }
}

/// Picks the JSON description out of yt-dlp's output.
pub fn json_line(stdout: &str) -> (r: Option<String>)
    ensures
        opt_view(r) == json_line_of(split_char(stdout@, '\n')),
{
    let c = chars_of(stdout);
    let lines = split_vec(&c, '\n');
    let ghost ls = pieces_view(lines@);
    let mut k: usize = lines.len();
    assert(ls.take(ls.len() as int) =~= ls);
    while k > 0
        invariant
            k <= lines@.len(),
            ls == pieces_view(lines@),
            ls == split_char(stdout@, '\n'),
            json_line_of(ls) == json_line_of(ls.take(k as int)),
        decreases k,
    {
        let t = trim_vec(&lines[k - 1]);
        assert(ls.take(k as int).last() == lines@[k - 1]@);
        assert(ls.take(k as int).drop_last() =~= ls.take(k - 1));
        proof {
            reveal_strlit("{");
        }
        if t.len() > 0 && t[0] == '{' {
            assert(t@.subrange(0, 1) =~= "{"@);
            return Some(string_from_chars(t.as_slice()));
        }
        assert(!starts_with(t@, "{"@)) by {
            if starts_with(t@, "{"@) {
                assert(t@.subrange(0, 1)[0] == t@[0]);
            }
        }
        k = k - 1;
    }
    None
}

} // verus!
