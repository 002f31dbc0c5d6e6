//! Selection of rows in the download list: row indices, ranges, and the text that carries
//! a set of selected ids.

use vstd::prelude::*;
use crate::text::{chars_of, lemma_split_char_nonempty, push_str, split_char, string_from_chars, trim, trim_end, trim_start, trim_vec};

verus! {

/// The pieces, trimmed, that are not blank.
pub open spec fn nonblank_trimmed(pieces: Seq<Seq<char>>) -> Seq<Seq<char>>
    decreases pieces.len(),
{
    if pieces.len() == 0 {
        Seq::empty()
    } else {
        let r = nonblank_trimmed(pieces.drop_last());
        if trim(pieces.last()).len() > 0 { r.push(trim(pieces.last())) } else { r }
    }
}

/// The ids that a selection text carries: its lines, trimmed, that are not blank.
/// (Splitting at every newline and trimming gives the same non-blank lines as `str::lines`.)
pub open spec fn selected_ids_of(text: Seq<char>) -> Seq<Seq<char>> {
    nonblank_trimmed(split_char(text, '\n'))
}

/// The texts of a list of strings.
pub open spec fn string_texts(v: Seq<String>) -> Seq<Seq<char>> {
    v.map_values(|s: String| s@)
}

/// Reads the ids of a selection text, one per line.
pub fn parse_selected_ids(ids: &str) -> (r: Vec<String>)
    ensures
        string_texts(r@) == selected_ids_of(ids@),
{
    let v = chars_of(ids);
    let mut out: Vec<String> = Vec::new();
    let mut cur: Vec<char> = Vec::new();
    let mut i: usize = 0;
    proof {
        lemma_split_char_nonempty(v@.take(0), '\n');
        assert(v@.take(0) =~= Seq::<char>::empty());
    }
    while i < v.len()
        invariant
            i <= v@.len(),
            split_char(v@.take(i as int), '\n').len() >= 1,
            cur@ == split_char(v@.take(i as int), '\n').last(),
            string_texts(out@) == nonblank_trimmed(split_char(v@.take(i as int), '\n').drop_last()),
        decreases v@.len() - i,
    {
        let c = v[i];
        let ghost p = split_char(v@.take(i as int), '\n');
        assert(v@.take(i + 1).drop_last() =~= v@.take(i as int));
        if c == '\n' {
            let t = trim_vec(&cur);
            let ghost before = string_texts(out@);
            if t.len() > 0 {
                out.push(string_from_chars(t.as_slice()));
            }
            assert(p.drop_last().push(p.last()) =~= p);
            assert(split_char(v@.take(i + 1), '\n').drop_last() =~= p);
            assert(string_texts(out@) =~= nonblank_trimmed(p));
            cur = Vec::new();
        } else {
            cur.push(c);
            assert(split_char(v@.take(i + 1), '\n').drop_last() =~= p.drop_last());
        }
        i = i + 1;
        proof {
            lemma_split_char_nonempty(v@.take(i as int), '\n');
        }
    }
    assert(v@.take(v@.len() as int) =~= v@);
    let t = trim_vec(&cur);
    let ghost p = split_char(v@, '\n');
    if t.len() > 0 {
        out.push(string_from_chars(t.as_slice()));
    }
    assert(p.drop_last().push(p.last()) =~= p);
    assert(string_texts(out@) =~= nonblank_trimmed(p));
    out
}

proof fn lemma_split_char_concat(a: Seq<char>, c: char, b: Seq<char>)
    ensures
        split_char(a + seq![c] + b, c) == split_char(a, c) + split_char(b, c),
    decreases b.len(),
{
    let s = a + seq![c] + b;
    lemma_split_char_nonempty(a, c);
    if b.len() == 0 {
        assert(s.drop_last() =~= a);
        assert(split_char(b, c) =~= seq![Seq::<char>::empty()]);
        assert(split_char(s, c) =~= split_char(a, c) + split_char(b, c));
    } else {
        let b0 = b.drop_last();
        lemma_split_char_concat(a, c, b0);
        lemma_split_char_nonempty(b0, c);
        assert(s.drop_last() =~= a + seq![c] + b0);
        assert(s.last() == b.last());
        let r = split_char(a, c) + split_char(b0, c);
        if b.last() == c {
            assert(split_char(s, c) =~= split_char(a, c) + split_char(b, c));
        } else {
            let q = split_char(b0, c);
            assert(r.last() == q.last());
            assert(r.update(r.len() - 1, r.last().push(b.last())) =~= split_char(a, c) + q.update(
                q.len() - 1,
                q.last().push(b.last()),
            ));
            assert(split_char(s, c) =~= split_char(a, c) + split_char(b, c));
        }
    }
}

proof fn lemma_split_char_without(a: Seq<char>, c: char)
    requires
        !a.contains(c),
    ensures
        split_char(a, c) == seq![a],
    decreases a.len(),
{
    if a.len() > 0 {
        let a0 = a.drop_last();
        assert(!a0.contains(c)) by {
            if a0.contains(c) {
                let i = choose|i: int| 0 <= i < a0.len() && a0[i] == c;
                assert(a[i] == c);
            }
        }
        lemma_split_char_without(a0, c);
        assert(a.last() != c) by {
            assert(a[a.len() - 1] == a.last());
        }
        assert(a0.push(a.last()) =~= a);
        assert(split_char(a, c) =~= seq![a]);
    } else {
        assert(a =~= Seq::<char>::empty());
        assert(split_char(a, c) =~= seq![a]);
    }
}

proof fn lemma_split_joined_lines(ids: Seq<Seq<char>>)
    requires
        ids.len() > 0,
        forall|i: int| 0 <= i < ids.len() ==> !(#[trigger] ids[i]).contains('\n'),
    ensures
        split_char(joined_lines(ids), '\n') == ids,
    decreases ids.len(),
{
    if ids.len() == 1 {
        lemma_split_char_without(ids[0], '\n');
        assert(ids =~= seq![ids[0]]);
    } else {
        let d = ids.drop_last();
        assert forall|i: int| 0 <= i < d.len() implies !(#[trigger] d[i]).contains('\n') by {
            assert(d[i] == ids[i]);
        }
        lemma_split_joined_lines(d);
        assert(ids.last() == ids[ids.len() - 1]);
        lemma_split_char_without(ids.last(), '\n');
        lemma_split_char_concat(joined_lines(d), '\n', ids.last());
        assert(d + seq![ids.last()] =~= ids);
    }
}

proof fn lemma_nonblank_trimmed_concat(p: Seq<Seq<char>>, q: Seq<Seq<char>>)
    ensures
        nonblank_trimmed(p + q) == nonblank_trimmed(p) + nonblank_trimmed(q),
    decreases q.len(),
{
    if q.len() == 0 {
        assert(p + q =~= p);
        assert(nonblank_trimmed(p) + nonblank_trimmed(q) =~= nonblank_trimmed(p));
    } else {
        lemma_nonblank_trimmed_concat(p, q.drop_last());
        assert((p + q).drop_last() =~= p + q.drop_last());
        assert((p + q).last() == q.last());
        if trim(q.last()).len() > 0 {
            assert(nonblank_trimmed(p + q) =~= nonblank_trimmed(p) + nonblank_trimmed(q));
        } else {
            assert(nonblank_trimmed(p + q) =~= nonblank_trimmed(p) + nonblank_trimmed(q));
        }
    }
}

proof fn lemma_nonblank_trimmed_identity(ids: Seq<Seq<char>>)
    requires
        forall|i: int| 0 <= i < ids.len() ==> (#[trigger] ids[i]).len() > 0 && trim(ids[i]) == ids[i],
    ensures
        nonblank_trimmed(ids) == ids,
    decreases ids.len(),
{
    if ids.len() > 0 {
        let d = ids.drop_last();
        assert forall|i: int| 0 <= i < d.len() implies (#[trigger] d[i]).len() > 0 && trim(d[i]) == d[i] by {
            assert(d[i] == ids[i]);
        }
        lemma_nonblank_trimmed_identity(d);
        assert(ids.last() == ids[ids.len() - 1]);
        assert(d.push(ids.last()) =~= ids);
    }
}

/// Reading back the selection text of a set of ids gives those ids again, in order, when
/// each id is non-empty, has no surrounding white space and holds no line break.
pub proof fn selection_text_round_trip(ids: Seq<Seq<char>>)
    requires
        forall|i: int|
            0 <= i < ids.len() ==> (#[trigger] ids[i]).len() > 0 && trim(ids[i]) == ids[i]
                && !ids[i].contains('\n'),
    ensures
        selected_ids_of(encoded_ids(ids)) == ids,
{
    let e: Seq<char> = Seq::empty();
    let none: Seq<Seq<char>> = Seq::empty();
    assert(nonblank_trimmed(none) =~= none);
    if ids.len() == 0 {
        assert(split_char(e, '\n') =~= seq![e]);
        assert(trim_start(e) == e);
        assert(trim_end(e) == e);
        assert(trim(e).len() == 0);
        assert(seq![e].drop_last() =~= Seq::<Seq<char>>::empty());
        assert(seq![e].last() == e);
        assert(nonblank_trimmed(seq![e]) =~= ids);
    } else {
        let j = joined_lines(ids);
        assert forall|i: int| 0 <= i < ids.len() implies !(#[trigger] ids[i]).contains('\n') by {}
        lemma_split_joined_lines(ids);
        lemma_split_char_concat(j, '\n', e);
        assert(j + seq!['\n'] + e =~= j + seq!['\n']);
        lemma_split_char_concat(e, '\n', j + seq!['\n']);
        assert(e + seq!['\n'] + (j + seq!['\n']) =~= encoded_ids(ids));
        assert(split_char(e, '\n') =~= seq![e]);
        let blank = seq![e];
        assert(split_char(encoded_ids(ids), '\n') =~= blank + ids + blank);
        assert(trim_start(e) == e);
        assert(trim_end(e) == e);
        assert(nonblank_trimmed(blank) =~= Seq::<Seq<char>>::empty()) by {
            assert(blank.drop_last() =~= Seq::<Seq<char>>::empty());
            assert(blank.last() == e);
            assert(trim(e).len() == 0);
        }
        lemma_nonblank_trimmed_concat(blank + ids, blank);
        lemma_nonblank_trimmed_concat(blank, ids);
        lemma_nonblank_trimmed_identity(ids);
        assert(nonblank_trimmed(blank + ids + blank) =~= ids);
    }
}

/// `ids` joined by newlines.
pub open spec fn joined_lines(ids: Seq<Seq<char>>) -> Seq<char>
    decreases ids.len(),
{
    if ids.len() == 0 {
        Seq::empty()
    } else if ids.len() == 1 {
        ids[0]
    } else {
        joined_lines(ids.drop_last()) + seq!['\n'] + ids.last()
    }
}

/// The selection text of a set of ids: empty for none, else each id on a line of its own
/// between a leading and a trailing newline.
pub open spec fn encoded_ids(ids: Seq<Seq<char>>) -> Seq<char> {
    if ids.len() == 0 { Seq::empty() } else { seq!['\n'] + joined_lines(ids) + seq!['\n'] }
}

/// Writes the selection text of a set of ids.
pub fn encode_selected_ids(ids: &Vec<String>) -> (r: String)
    ensures
        r@ == encoded_ids(string_texts(ids@)),
{
    if ids.len() == 0 {
        return String::new();
    }
    let mut out: Vec<char> = Vec::new();
    out.push('\n');
    let mut i: usize = 0;
    while i < ids.len()
        invariant
            0 < ids@.len(),
            i <= ids@.len(),
            i == 0 ==> out@ == seq!['\n'],
            i > 0 ==> out@ == seq!['\n'] + joined_lines(string_texts(ids@).take(i as int)),
        decreases ids@.len() - i,
    {
        let ghost before = out@;
        if i > 0 {
            out.push('\n');
        }
        push_str(&mut out, ids[i].as_str());
        let ghost t = string_texts(ids@).take(i + 1);
        assert(t.drop_last() =~= string_texts(ids@).take(i as int));
        if i == 0 {
            assert(t.len() == 1);
            assert(out@ =~= seq!['\n'] + joined_lines(t));
        } else {
            assert(out@ =~= seq!['\n'] + joined_lines(t));
        }
        i = i + 1;
    }
    assert(string_texts(ids@).take(ids@.len() as int) =~= string_texts(ids@));
    out.push('\n');
    string_from_chars(out.as_slice())
}

/// `i` clamped to the rows of a list of `len` rows: `-1` for an empty list.
pub open spec fn clamped_row(index: int, len: int) -> int {
    if len == 0 {
        -1
    } else if index < 0 {
        0
    } else if index >= len {
        len - 1
    } else {
        index
    }
}

/// Clamps a row index to a list of `len` rows; `-1` where the list is empty.
pub fn clamp_row_index(index: i32, len: usize) -> (r: i32)
    requires
        len <= i32::MAX,
    ensures
        r == clamped_row(index as int, len as int),
        len > 0 ==> 0 <= r < len,
{
    if len == 0 {
        -1
    } else if index < 0 {
        0
    } else if index as usize >= len {
        (len as i32) - 1
    } else {
        index
    }
}

/// The ids of the rows between two row indices, both included, clamped to the list.
pub fn ids_for_range(ids: &Vec<String>, a: i32, b: i32) -> (r: Vec<String>)
    requires
        0 < ids@.len() <= i32::MAX,
        a >= 0 || b >= 0,
        a <= ids@.len() || b <= ids@.len(),
    ensures
        ({
            let lo: int = if a <= b { a as int } else { b as int };
            let hi: int = if a <= b { b as int } else { a as int };
            let start: int = if lo < 0 { 0 } else { lo };
            let end: int = if hi > ids@.len() - 1 { ids@.len() - 1 } else { hi };
            string_texts(r@) == string_texts(ids@).subrange(start, end + 1)
        }),
{
    let lo = if a <= b { a } else { b };
    let hi = if a <= b { b } else { a };
    let start: usize = if lo < 0 { 0 } else { lo as usize };
    let last = (ids.len() - 1) as i32;
    let end: usize = if hi > last { last as usize } else { hi as usize };
    let mut out: Vec<String> = Vec::new();
    let mut k = start;
    while k <= end
        invariant
            start <= k <= end + 1,
            end < ids@.len() <= i32::MAX,
            string_texts(out@) == string_texts(ids@).subrange(start as int, k as int),
        decreases end + 1 - k,
    {
        let ghost before = out@;
        let s = ids[k].clone();
        out.push(s);
        assert(out@ == before.push(s));
        assert(s@ == ids@[k as int]@);
        assert(string_texts(out@) =~= string_texts(before).push(s@));
        assert(string_texts(ids@).subrange(start as int, k + 1) =~= string_texts(ids@).subrange(start as int, k as int).push(s@));
        assert(string_texts(out@) =~= string_texts(ids@).subrange(start as int, k + 1));
        k = k + 1;
    }
    out
}

} // verus!
