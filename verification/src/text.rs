//! Character-level string primitives with exact specifications over `Seq<char>`.

use vstd::prelude::*;

verus! {

/// Unicode `White_Space` property, as used by `str::trim` and `char::is_whitespace`.
pub open spec fn is_white_space(c: char) -> bool {
    let u = c as u32;
    (9 <= u <= 13) || u == 32 || u == 0x85 || u == 0xa0 || u == 0x1680 || (0x2000 <= u <= 0x200a)
        || u == 0x2028 || u == 0x2029 || u == 0x202f || u == 0x205f || u == 0x3000
}

/// Unicode general category `Cc`, as used by `char::is_control`.
pub open spec fn is_control(c: char) -> bool {
    let u = c as u32;
    u <= 0x1f || (0x7f <= u <= 0x9f)
}

pub fn is_white_space_char(c: char) -> (r: bool)
    ensures
        r == is_white_space(c),
{
    let u = c as u32;
    (9 <= u && u <= 13) || u == 32 || u == 0x85 || u == 0xa0 || u == 0x1680 || (0x2000 <= u && u
        <= 0x200a) || u == 0x2028 || u == 0x2029 || u == 0x202f || u == 0x205f || u == 0x3000
}

pub fn is_control_char(c: char) -> (r: bool)
    ensures
        r == is_control(c),
{
    let u = c as u32;
    u <= 0x1f || (0x7f <= u && u <= 0x9f)
}

/// `s` with leading white space removed.
pub open spec fn trim_start(s: Seq<char>) -> Seq<char>
    decreases s.len(),
{
    if s.len() > 0 && is_white_space(s[0]) {
        trim_start(s.drop_first())
    } else {
        s
    }
}

/// `s` with trailing white space removed.
pub open spec fn trim_end(s: Seq<char>) -> Seq<char>
    decreases s.len(),
{
    if s.len() > 0 && is_white_space(s.last()) {
        trim_end(s.drop_last())
    } else {
        s
    }
}

/// What `str::trim` returns.
pub open spec fn trim(s: Seq<char>) -> Seq<char> {
    trim_end(trim_start(s))
}

/// `s` with every leading and trailing `c` removed (`str::trim_matches` with a char).
pub open spec fn trim_char_start(s: Seq<char>, c: char) -> Seq<char>
    decreases s.len(),
{
    if s.len() > 0 && s[0] == c {
        trim_char_start(s.drop_first(), c)
    } else {
        s
    }
}

pub open spec fn trim_char_end(s: Seq<char>, c: char) -> Seq<char>
    decreases s.len(),
{
    if s.len() > 0 && s.last() == c {
        trim_char_end(s.drop_last(), c)
    } else {
        s
    }
}

pub open spec fn trim_char(s: Seq<char>, c: char) -> Seq<char> {
    trim_char_end(trim_char_start(s, c), c)
}

/// The characters of `s`, in order.
pub fn chars_of(s: &str) -> (v: Vec<char>)
    ensures
        v@ == s@,
{
    let n = s.unicode_len();
    let mut v: Vec<char> = Vec::new();
    let mut i: usize = 0;
    while i < n
        invariant
            n == s@.len(),
            i <= n,
            v@ == s@.subrange(0, i as int),
        decreases n - i,
    {
        v.push(s.get_char(i));
        i = i + 1;
    }
    v
}

/// Builds a `String` from characters (`FromIterator<&char> for String`).
#[verifier::external_body]
pub(crate) fn string_from_chars(chars: &[char]) -> (s: String)
    ensures
        s@ == chars@,
{
    chars.iter().collect()
}

pub fn trim_start_vec(v: &Vec<char>, start: usize) -> (i: usize)
    requires
        start <= v@.len(),
    ensures
        start <= i <= v@.len(),
        trim_start(v@.subrange(start as int, v@.len() as int)) == v@.subrange(i as int, v@.len() as int),
        i < v@.len() ==> !is_white_space(v@[i as int]),
{
    let mut i = start;
    while i < v.len() && is_white_space_char(v[i])
        invariant
            start <= i <= v@.len(),
            trim_start(v@.subrange(start as int, v@.len() as int)) == trim_start(v@.subrange(i as int, v@.len() as int)),
        decreases v@.len() - i,
    {
        assert(v@.subrange(i as int, v@.len() as int).drop_first() =~= v@.subrange(i + 1, v@.len() as int));
        i = i + 1;
    }
    i
}

/// The characters of `v` with leading and trailing white space removed.
pub fn trim_vec(v: &Vec<char>) -> (r: Vec<char>)
    ensures
        r@ == trim(v@),
{
    let a = trim_start_vec(v, 0);
    assert(v@.subrange(0, v@.len() as int) =~= v@);
    let ghost t = v@.subrange(a as int, v@.len() as int);
    let mut b = v.len();
    while b > a && is_white_space_char(v[b - 1])
        invariant
            a <= b <= v@.len(),
            trim_end(t) == trim_end(v@.subrange(a as int, b as int)),
            t == v@.subrange(a as int, v@.len() as int),
        decreases b,
    {
        assert(v@.subrange(a as int, b as int).drop_last() =~= v@.subrange(a as int, b - 1));
        b = b - 1;
    }
    let mut r: Vec<char> = Vec::new();
    let mut k = a;
    while k < b
        invariant
            a <= k <= b <= v@.len(),
            r@ == v@.subrange(a as int, k as int),
        decreases b - k,
    {
        r.push(v[k]);
        k = k + 1;
    }
    r
}


/// The characters `v[a..b]`.
pub fn sub_vec(v: &Vec<char>, a: usize, b: usize) -> (r: Vec<char>)
    requires
        a <= b <= v@.len(),
    ensures
        r@ == v@.subrange(a as int, b as int),
{
    let mut r: Vec<char> = Vec::new();
    let mut k = a;
    while k < b
        invariant
            a <= k <= b <= v@.len(),
            r@ == v@.subrange(a as int, k as int),
        decreases b - k,
    {
        r.push(v[k]);
        k = k + 1;
    }
    r
}

/// `v` with every leading and trailing `c` removed.
pub fn trim_char_vec(v: &Vec<char>, c: char) -> (r: Vec<char>)
    ensures
        r@ == trim_char(v@, c),
{
    let mut a: usize = 0;
    assert(v@.subrange(0, v@.len() as int) =~= v@);
    while a < v.len() && v[a] == c
        invariant
            a <= v@.len(),
            trim_char_start(v@, c) == trim_char_start(v@.subrange(a as int, v@.len() as int), c),
        decreases v@.len() - a,
    {
        assert(v@.subrange(a as int, v@.len() as int).drop_first() =~= v@.subrange(a + 1, v@.len() as int));
        a = a + 1;
    }
    assert(v@.subrange(0, v@.len() as int) =~= v@);
    let ghost t = v@.subrange(a as int, v@.len() as int);
    let mut b = v.len();
    while b > a && v[b - 1] == c
        invariant
            a <= b <= v@.len(),
            trim_char_end(t, c) == trim_char_end(v@.subrange(a as int, b as int), c),
            t == v@.subrange(a as int, v@.len() as int),
        decreases b,
    {
        assert(v@.subrange(a as int, b as int).drop_last() =~= v@.subrange(a as int, b - 1));
        b = b - 1;
    }
    sub_vec(v, a, b)
}

/// `pat` occurs in `s` at index `i`.
pub open spec fn occurs_at(s: Seq<char>, pat: Seq<char>, i: int) -> bool {
    0 <= i && i + pat.len() <= s.len() && s.subrange(i, i + pat.len()) == pat
}

/// `pat` occurs somewhere in `s` (`str::contains`).
pub open spec fn contains_seq(s: Seq<char>, pat: Seq<char>) -> bool {
    exists|i: int| occurs_at(s, pat, i)
}

/// `s` begins with `pat` (`str::starts_with`).
pub open spec fn starts_with(s: Seq<char>, pat: Seq<char>) -> bool {
    occurs_at(s, pat, 0)
}

/// `s` ends with `pat` (`str::ends_with`).
pub open spec fn ends_with(s: Seq<char>, pat: Seq<char>) -> bool {
    pat.len() <= s.len() && occurs_at(s, pat, s.len() - pat.len())
}

/// Index of the first occurrence of `pat` in `s` (`str::find`, counted in characters).
pub open spec fn find_first(s: Seq<char>, pat: Seq<char>) -> Option<int> {
    if contains_seq(s, pat) {
        Some(choose|i: int| occurs_at(s, pat, i) && forall|j: int| 0 <= j < i ==> !occurs_at(s, pat, j))
    } else {
        None
    }
}

pub fn matches_at(s: &Vec<char>, pat: &Vec<char>, i: usize) -> (r: bool)
    ensures
        r == occurs_at(s@, pat@, i as int),
{
    if i > s.len() || pat.len() > s.len() - i {
        return false;
    }
    let mut k: usize = 0;
    while k < pat.len()
        invariant
            i + pat.len() <= s.len(),
            k <= pat@.len(),
            forall|j: int| 0 <= j < k ==> s@[i + j] == pat@[j],
        decreases pat@.len() - k,
    {
        if s[i + k] != pat[k] {
            assert(s@.subrange(i as int, i + pat@.len())[k as int] != pat@[k as int]);
            return false;
        }
        k = k + 1;
    }
    assert(s@.subrange(i as int, i + pat@.len()) =~= pat@);
    true
}

/// Position of the first occurrence of `pat` in `s`, if any.
pub fn find_vec(s: &Vec<char>, pat: &Vec<char>) -> (r: Option<usize>)
    ensures
        r matches Some(i) ==> occurs_at(s@, pat@, i as int) && forall|j: int| 0 <= j < i ==> !occurs_at(s@, pat@, j),
        r is None ==> !contains_seq(s@, pat@),
        r matches Some(i) ==> find_first(s@, pat@) == Some(i as int),
        r is None ==> find_first(s@, pat@) is None,
{
    let mut i: usize = 0;
    loop
        invariant
            i <= s@.len(),
            forall|j: int| 0 <= j < i ==> !occurs_at(s@, pat@, j),
        ensures
            i == s@.len(),
            forall|j: int| 0 <= j <= i ==> !occurs_at(s@, pat@, j),
        decreases s@.len() - i,
    {
        if matches_at(s, pat, i) {
            proof {
                let k = choose|k: int| occurs_at(s@, pat@, k) && forall|j: int| 0 <= j < k ==> !occurs_at(s@, pat@, j);
                if k < i { } else if k > i { assert(!occurs_at(s@, pat@, i as int)); }
            }
            return Some(i);
        }
        if i == s.len() {
            break;
        }
        i = i + 1;
    }
    assert forall|j: int| !occurs_at(s@, pat@, j) by {
        if 0 <= j && j <= i { } else if j > i { assert(j + pat@.len() > s@.len()); }
    }
    None
}

pub fn contains_vec(s: &Vec<char>, pat: &Vec<char>) -> (r: bool)
    ensures
        r == contains_seq(s@, pat@),
{
    find_vec(s, pat).is_some()
}

pub fn starts_with_vec(s: &Vec<char>, pat: &Vec<char>) -> (r: bool)
    ensures
        r == starts_with(s@, pat@),
{
    matches_at(s, pat, 0)
}

pub fn ends_with_vec(s: &Vec<char>, pat: &Vec<char>) -> (r: bool)
    ensures
        r == ends_with(s@, pat@),
{
    if pat.len() > s.len() {
        false
    } else {
        matches_at(s, pat, s.len() - pat.len())
    }
}

/// Whether `s` contains the string `pat`.
pub fn str_contains(s: &str, pat: &str) -> (r: bool)
    ensures
        r == contains_seq(s@, pat@),
{
    let sv = chars_of(s);
    let pv = chars_of(pat);
    contains_vec(&sv, &pv)
}

/// What `str::to_lowercase` returns for a string (Unicode lowercase mapping).
pub uninterp spec fn lowercase(s: Seq<char>) -> Seq<char>;

/// `str::to_lowercase`. The contract names the result: the same text always lowercases
/// to the same text; nothing more of the Unicode mapping is stated.
#[verifier::external_body]
pub(crate) fn to_lowercase(s: &str) -> (r: String)
    ensures
        r@ == lowercase(s@),
{
    s.to_lowercase()
}

/// What `str::to_uppercase` returns for a string (Unicode uppercase mapping).
pub uninterp spec fn uppercase(s: Seq<char>) -> Seq<char>;

/// `str::to_uppercase`. The contract names the result: the same text always uppercases
/// to the same text; nothing more of the Unicode mapping is stated.
#[verifier::external_body]
pub(crate) fn to_uppercase(s: &str) -> (r: String)
    ensures
        r@ == uppercase(s@),
{
    s.to_uppercase()
}

/// ASCII lowercase of one character.
pub open spec fn ascii_lower(c: char) -> char {
    if 'A' <= c && c <= 'Z' {
        ((c as u32) + 32) as char
    } else {
        c
    }
}

pub fn ascii_lower_char(c: char) -> (r: char)
    ensures
        r == ascii_lower(c),
{
    if 'A' <= c && c <= 'Z' {
        ((c as u8) + 32) as char
    } else {
        c
    }
}

/// `s` and `t` are equal up to ASCII case (`str::eq_ignore_ascii_case`).
pub open spec fn eq_ignore_ascii_case(s: Seq<char>, t: Seq<char>) -> bool {
    s.len() == t.len() && forall|i: int| 0 <= i < s.len() ==> ascii_lower(#[trigger] s[i]) == ascii_lower(t[i])
}

pub fn eq_ignore_ascii_case_vec(s: &Vec<char>, t: &Vec<char>) -> (r: bool)
    ensures
        r == eq_ignore_ascii_case(s@, t@),
{
    if s.len() != t.len() {
        return false;
    }
    let mut i: usize = 0;
    while i < s.len()
        invariant
            s@.len() == t@.len(),
            i <= s@.len(),
            forall|j: int| 0 <= j < i ==> ascii_lower(#[trigger] s@[j]) == ascii_lower(t@[j]),
        decreases s@.len() - i,
    {
        if ascii_lower_char(s[i]) != ascii_lower_char(t[i]) {
            return false;
        }
        i = i + 1;
    }
    true
}

/// A literal, as characters.
pub fn lit(s: &str) -> (v: Vec<char>)
    ensures
        v@ == s@,
{
    chars_of(s)
}

/// Appends the characters of `s` to `out`.
pub fn push_str(out: &mut Vec<char>, s: &str)
    ensures
        final(out)@ == old(out)@ + s@,
{
    let v = chars_of(s);
    push_all(out, &v);
}

/// Appends the characters of `v` to `out`.
pub fn push_all(out: &mut Vec<char>, v: &Vec<char>)
    ensures
        final(out)@ == old(out)@ + v@,
{
    let ghost o = out@;
    let mut i: usize = 0;
    while i < v.len()
        invariant
            i <= v@.len(),
            out@ == o + v@.subrange(0, i as int),
        decreases v@.len() - i,
    {
        out.push(v[i]);
        i = i + 1;
    }
    assert(v@.subrange(0, v@.len() as int) =~= v@);
}


/// Index of the last `c` in `s` (`str::rfind` with a char, counted in characters).
pub open spec fn last_index_of(s: Seq<char>, c: char) -> Option<int>
    decreases s.len(),
{
    if s.len() == 0 {
        None
    } else if s.last() == c {
        Some(s.len() - 1)
    } else {
        last_index_of(s.drop_last(), c)
    }
}

pub proof fn lemma_last_index_of_bounds(s: Seq<char>, c: char)
    ensures
        last_index_of(s, c) matches Some(i) ==> 0 <= i < s.len() && s[i] == c,
    decreases s.len(),
{
    if s.len() > 0 && s.last() != c {
        lemma_last_index_of_bounds(s.drop_last(), c);
    }
}

/// Position of the last `c` in `v`, if any.
pub fn rfind_char(v: &Vec<char>, c: char) -> (r: Option<usize>)
    ensures
        r matches Some(i) ==> last_index_of(v@, c) == Some(i as int) && i < v@.len() && v@[i as int] == c,
        r is None ==> last_index_of(v@, c) is None,
{
    let mut k = v.len();
    assert(v@.take(k as int) =~= v@);
    while k > 0
        invariant
            k <= v@.len(),
            last_index_of(v@, c) == last_index_of(v@.take(k as int), c),
        decreases k,
    {
        if v[k - 1] == c {
            return Some(k - 1);
        }
        assert(v@.take(k as int).drop_last() =~= v@.take(k - 1));
        k = k - 1;
    }
    None
}

/// `s` without the prefix `p`, where it starts with it (`str::strip_prefix`).
pub open spec fn strip_prefix(s: Seq<char>, p: Seq<char>) -> Option<Seq<char>> {
    if starts_with(s, p) {
        Some(s.skip(p.len() as int))
    } else {
        None
    }
}

/// `v` without the prefix `p`, where it starts with it.
pub fn strip_prefix_vec(v: &Vec<char>, p: &str) -> (r: Option<Vec<char>>)
    ensures
        r matches Some(t) ==> strip_prefix(v@, p@) == Some(t@),
        r is None ==> strip_prefix(v@, p@) is None,
{
    let pv = chars_of(p);
    if starts_with_vec(v, &pv) {
        let t = sub_vec(v, pv.len(), v.len());
        assert(t@ =~= v@.skip(pv@.len() as int));
        Some(t)
    } else {
        None
    }
}

/// The pieces of `s` between the separators `c` (`str::split` with a char).
pub open spec fn split_char(s: Seq<char>, c: char) -> Seq<Seq<char>>
    decreases s.len(),
{
    if s.len() == 0 {
        seq![Seq::<char>::empty()]
    } else {
        let r = split_char(s.drop_last(), c);
        if s.last() == c {
            r.push(Seq::<char>::empty())
        } else {
            r.update(r.len() - 1, r.last().push(s.last()))
        }
    }
}

pub proof fn lemma_split_char_nonempty(s: Seq<char>, c: char)
    ensures
        split_char(s, c).len() >= 1,
    decreases s.len(),
{
    if s.len() > 0 {
        lemma_split_char_nonempty(s.drop_last(), c);
    }
}


/// The texts of a list of character vectors.
pub open spec fn pieces_view(v: Seq<Vec<char>>) -> Seq<Seq<char>> {
    v.map_values(|p: Vec<char>| p@)
}

/// The pieces of `v` between the separators `c`, as `str::split` with a char gives them.
pub fn split_vec(v: &Vec<char>, c: char) -> (r: Vec<Vec<char>>)
    ensures
        pieces_view(r@) == split_char(v@, c),
{
    let mut done: Vec<Vec<char>> = Vec::new();
    let mut cur: Vec<char> = Vec::new();
    let mut i: usize = 0;
    assert(v@.take(0) =~= Seq::<char>::empty());
    assert(pieces_view(done@).push(cur@) =~= split_char(v@.take(0), c));
    while i < v.len()
        invariant
            i <= v@.len(),
            pieces_view(done@).push(cur@) == split_char(v@.take(i as int), c),
        decreases v@.len() - i,
    {
        let x = v[i];
        assert(v@.take(i + 1).drop_last() =~= v@.take(i as int));
        let ghost before = pieces_view(done@).push(cur@);
        if x == c {
            let piece = cur;
            done.push(piece);
            cur = Vec::new();
            assert(pieces_view(done@) =~= before);
        } else {
            cur.push(x);
            assert(pieces_view(done@).push(cur@) =~= before.update(before.len() - 1, before.last().push(x)));
        }
        i = i + 1;
    }
    assert(v@.take(i as int) =~= v@);
    done.push(cur);
    done
}

/// Number of bytes of `c` in UTF-8.
pub open spec fn utf8_width(c: char) -> int {
    let u = c as u32;
    if u < 0x80 {
        1
    } else if u < 0x800 {
        2
    } else if u < 0x10000 {
        3
    } else {
        4
    }
}

/// Number of bytes of `s` in UTF-8 (`str::len`).
pub open spec fn utf8_len(s: Seq<char>) -> int
    decreases s.len(),
{
    if s.len() == 0 {
        0
    } else {
        utf8_len(s.drop_last()) + utf8_width(s.last())
    }
}

pub fn utf8_width_of(c: char) -> (w: usize)
    ensures
        w == utf8_width(c),
{
    let u = c as u32;
    if u < 0x80 {
        1
    } else if u < 0x800 {
        2
    } else if u < 0x10000 {
        3
    } else {
        4
    }
}

/// `limit` falls between two characters of `s`, or past its end.
pub open spec fn is_char_boundary(s: Seq<char>, limit: int) -> bool {
    utf8_len(s) <= limit || exists|k: int| 0 <= k <= s.len() && utf8_len(#[trigger] s.take(k)) == limit
}

/// The first `limit` bytes of `s` where it is longer, else all of it.
pub open spec fn byte_prefix_text(s: Seq<char>, limit: int) -> Seq<char> {
    if utf8_len(s) <= limit {
        s
    } else {
        s.take(choose|k: int| 0 <= k <= s.len() && utf8_len(#[trigger] s.take(k)) == limit)
    }
}

/// The first `limit` bytes of `s` (`&s[..limit]`) where `s` is longer, else all of it.
/// `limit` must fall between two characters when `s` is longer: slicing elsewhere panics.
pub fn byte_prefix(s: &str, limit: usize) -> (r: String)
    requires
        is_char_boundary(s@, limit as int),
    ensures
        r@ == byte_prefix_text(s@, limit as int),
        utf8_len(s@) > limit ==> r@.len() <= s@.len() && r@ == s@.take(r@.len() as int) && utf8_len(r@) == limit,
{
    let v = chars_of(s);
    let mut used: usize = 0;
    let mut i: usize = 0;
    assert(v@.take(0) =~= Seq::<char>::empty());
    while i < v.len()
        invariant
            v@ == s@,
            i <= v@.len(),
            used == utf8_len(v@.take(i as int)),
            used <= limit,
        ensures
            i <= v@.len(),
            used == utf8_len(v@.take(i as int)),
            i < v@.len() ==> utf8_len(v@.take(i + 1)) > limit,
        decreases v@.len() - i,
    {
        let w = utf8_width_of(v[i]);
        assert(v@.take(i + 1).drop_last() =~= v@.take(i as int));
        if w > limit - used {
            break;
        }
        used = used + w;
        i = i + 1;
    }
    if i == v.len() {
        assert(v@.take(i as int) =~= v@);
        return String::from_str(s);
    }
    proof {
        if utf8_len(s@) <= limit {
            lemma_utf8_len_prefix(s@, i + 1, s@.len() as int);
            assert(s@.take(s@.len() as int) =~= s@);
            assert(false);
        }
        let k = choose|k: int| 0 <= k <= s@.len() && utf8_len(#[trigger] s@.take(k)) == limit;
        if k <= i {
            lemma_utf8_len_prefix(s@, k, i as int);
            if k < i {
                lemma_utf8_len_strict(s@, k, i as int);
            }
        } else {
            lemma_utf8_len_prefix(s@, i + 1, k);
        }
        assert(k == i);
    }
    let r = sub_vec(&v, 0, i);
    assert(r@ =~= s@.take(i as int));
    string_from_chars(r.as_slice())
}

proof fn lemma_utf8_len_prefix(s: Seq<char>, a: int, b: int)
    requires
        0 <= a <= b <= s.len(),
    ensures
        utf8_len(s.take(a)) <= utf8_len(s.take(b)),
    decreases b - a,
{
    if a < b {
        lemma_utf8_len_prefix(s, a, b - 1);
        assert(s.take(b).drop_last() =~= s.take(b - 1));
    }
}

proof fn lemma_utf8_len_strict(s: Seq<char>, a: int, b: int)
    requires
        0 <= a < b <= s.len(),
    ensures
        utf8_len(s.take(a)) < utf8_len(s.take(b)),
{
    lemma_utf8_len_prefix(s, a, b - 1);
    assert(s.take(b).drop_last() =~= s.take(b - 1));
}

} // verus!
