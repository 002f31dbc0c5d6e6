//! Application versions: reading, comparing, and checking downloaded updates.

use vstd::prelude::*;
use crate::numbers::{is_digit, parse_bounded, parse_unsigned};
use sha2::Digest;
use crate::text::{
    chars_of, eq_ignore_ascii_case, eq_ignore_ascii_case_vec, lowercase, starts_with,
    starts_with_vec, lit, string_from_chars, sub_vec, to_lowercase, trim, trim_char_start, trim_vec,
};

verus! {

/// The maximal runs of ASCII digits in `s`, in order.
pub open spec fn digit_runs(s: Seq<char>) -> Seq<Seq<char>>
    decreases s.len(),
{
    if s.len() == 0 {
        Seq::empty()
    } else {
        let r = digit_runs(s.drop_last());
        let c = s.last();
        if !is_digit(c) {
            r
        } else if s.len() >= 2 && is_digit(s[s.len() - 2]) && r.len() > 0 {
            r.update(r.len() - 1, r.last().push(c))
        } else {
            r.push(seq![c])
        }
    }
}

/// The runs that read as a `u32`, as numbers.
pub open spec fn u32_values(runs: Seq<Seq<char>>) -> Seq<nat>
    decreases runs.len(),
{
    if runs.len() == 0 {
        Seq::empty()
    } else {
        let r = u32_values(runs.drop_last());
        match parse_bounded(runs.last(), u32::MAX as nat) {
            Some(n) => r.push(n),
            None => r,
        }
    }
}

/// The texts of a list of character vectors.
pub open spec fn texts(runs: Seq<Vec<char>>) -> Seq<Seq<char>> {
    runs.map_values(|r: Vec<char>| r@)
}

/// The numbers of a version text: leading `v`s dropped, then every run of digits that fits
/// in a `u32`.
pub open spec fn version_numbers(version: Seq<char>) -> Seq<nat> {
    u32_values(digit_runs(trim_char_start(version, 'v')))
}

fn trim_start_char_vec(v: &Vec<char>, c: char) -> (r: Vec<char>)
    ensures
        r@ == trim_char_start(v@, c),
{
    let mut a: usize = 0;
    assert(v@.subrange(0, v@.len() as int) =~= v@);
    while a < v.len() && v[a] == c
        invariant
            a <= v@.len(),
            trim_char_start(v@, c) == trim_char_start(v@.subrange(a as int, v@.len() as int), c),
        decreases v@.len() - a,
    {
        assert(v@.subrange(a as int, v@.len() as int).drop_first() =~= v@.subrange(a + 1, v@.len() as int));
        a = a + 1;
    }
    sub_vec(v, a, v.len())
}

/// The numbers of a version such as `v1.2.10`: `[1, 2, 10]`.
pub fn version_parts(version: &str) -> (parts: Vec<u32>)
    ensures
        parts@.len() == version_numbers(version@).len(),
        forall|i: int| 0 <= i < parts@.len() ==> parts@[i] as nat == #[trigger] version_numbers(version@)[i],
{
    let v = chars_of(version);
    let s = trim_start_char_vec(&v, 'v');
    let mut runs: Vec<Vec<char>> = Vec::new();
    let mut i: usize = 0;
    while i < s.len()
        invariant
            i <= s@.len(),
            texts(runs@) == digit_runs(s@.take(i as int)),
        decreases s@.len() - i,
    {
        let c = s[i];
        let ghost t = s@.take(i + 1);
        assert(t.drop_last() =~= s@.take(i as int));
        if '0' <= c && c <= '9' {
            if i >= 1 && '0' <= s[i - 1] && s[i - 1] <= '9' && runs.len() > 0 {
                let last = runs.len() - 1;
                let mut run = runs[last].clone();
                let ghost before = texts(runs@);
                run.push(c);
                let ghost run_view = run@;
                runs.set(last, run);
                assert(texts(runs@) =~= before.update(last as int, run_view));
            } else {
                let ghost before = texts(runs@);
                let mut run: Vec<char> = Vec::new();
                run.push(c);
                assert(run@ =~= seq![c]);
                runs.push(run);
                assert(texts(runs@) =~= before.push(seq![c]));
            }
        }
        i = i + 1;
    }
    assert(s@.take(s@.len() as int) =~= s@);
    let mut parts: Vec<u32> = Vec::new();
    let mut k: usize = 0;
    while k < runs.len()
        invariant
            k <= runs@.len(),
            texts(runs@) == digit_runs(s@),
            parts@.len() == u32_values(texts(runs@).take(k as int)).len(),
            forall|j: int| 0 <= j < parts@.len() ==> parts@[j] as nat == #[trigger] u32_values(texts(runs@).take(k as int))[j],
        decreases runs@.len() - k,
    {
        let ghost t = texts(runs@).take(k + 1);
        assert(t.drop_last() =~= texts(runs@).take(k as int));
        assert(t.last() == runs@[k as int]@);
        match parse_unsigned(&runs[k], 0xffff_ffff) {
            Some(n) => {
                parts.push(n as u32);
            },
            None => {},
        }
        k = k + 1;
    }
    assert(texts(runs@).take(runs@.len() as int) =~= texts(runs@));
    parts
}

/// The `i`-th number of a version, zero past its end.
pub open spec fn part_at(p: Seq<nat>, i: int) -> nat {
    if 0 <= i < p.len() { p[i] } else { 0 }
}

/// Compares two versions' numbers from position `i` on: the first differing number decides.
pub open spec fn compare_from(a: Seq<nat>, b: Seq<nat>, i: nat) -> int
    decreases (if a.len() >= b.len() { a.len() } else { b.len() }) - i,
{
    let len = if a.len() >= b.len() { a.len() } else { b.len() };
    if i >= len {
        0
    } else if part_at(a, i as int) > part_at(b, i as int) {
        1
    } else if part_at(a, i as int) < part_at(b, i as int) {
        -1
    } else {
        compare_from(a, b, i + 1)
    }
}

/// `1` where version `left` is newer than `right`, `-1` where older, `0` where equal;
/// missing numbers count as zero.
pub open spec fn version_order(left: Seq<char>, right: Seq<char>) -> int {
    compare_from(version_numbers(left), version_numbers(right), 0)
}

/// Compares two version texts number by number.
pub fn compare_versions(left: &str, right: &str) -> (r: i32)
    ensures
        r as int == version_order(left@, right@),
{
    let lp = version_parts(left);
    let rp = version_parts(right);
    let ghost a = version_numbers(left@);
    let ghost b = version_numbers(right@);
    let len = if lp.len() >= rp.len() { lp.len() } else { rp.len() };
    let mut i: usize = 0;
    while i < len
        invariant
            i <= len,
            len == (if a.len() >= b.len() { a.len() } else { b.len() }),
            lp@.len() == a.len(),
            rp@.len() == b.len(),
            forall|j: int| 0 <= j < lp@.len() ==> lp@[j] as nat == #[trigger] a[j],
            forall|j: int| 0 <= j < rp@.len() ==> rp@[j] as nat == #[trigger] b[j],
            compare_from(a, b, 0) == compare_from(a, b, i as nat),
            a == version_numbers(left@),
            b == version_numbers(right@),
        decreases len - i,
    {
        let lv: u32 = if i < lp.len() { lp[i] } else { 0 };
        let rv: u32 = if i < rp.len() { rp[i] } else { 0 };
        assert(lv as nat == part_at(a, i as int));
        assert(rv as nat == part_at(b, i as int));
        if lv > rv {
            assert(compare_from(a, b, i as nat) == 1);
            return 1;
        }
        if lv < rv {
            assert(compare_from(a, b, i as nat) == -1);
            return -1;
        }
        assert(compare_from(a, b, i as nat) == compare_from(a, b, (i + 1) as nat));
        i = i + 1;
    }
    0
}

proof fn lemma_compare_from_antisymmetric(a: Seq<nat>, b: Seq<nat>, i: nat)
    ensures
        compare_from(a, b, i) == -compare_from(b, a, i),
    decreases (if a.len() >= b.len() { a.len() } else { b.len() }) - i,
{
    let len = if a.len() >= b.len() { a.len() } else { b.len() };
    if i < len && part_at(a, i as int) == part_at(b, i as int) {
        lemma_compare_from_antisymmetric(a, b, i + 1);
    }
}

proof fn lemma_compare_from_reflexive(a: Seq<nat>, i: nat)
    ensures
        compare_from(a, a, i) == 0,
    decreases a.len() - i,
{
    if i < a.len() {
        lemma_compare_from_reflexive(a, i + 1);
    }
}

/// Version order is antisymmetric and reflexive: comparing the other way round flips the
/// result, and a version is equal to itself.
pub proof fn version_order_antisymmetric(left: Seq<char>, right: Seq<char>)
    ensures
        version_order(left, right) == -version_order(right, left),
        version_order(left, left) == 0,
{
    lemma_compare_from_antisymmetric(version_numbers(left), version_numbers(right), 0);
    lemma_compare_from_reflexive(version_numbers(left), 0);
}

/// A character kept in a file name made from a version; others become `_`.
pub open spec fn version_file_char(c: char) -> char {
    if ('a' <= c && c <= 'z') || ('A' <= c && c <= 'Z') || ('0' <= c && c <= '9') || c == '.' || c == '-' {
        c
    } else {
        '_'
    }
}

/// A version made safe for a file name: ASCII letters, digits, `.` and `-` stay, every
/// other character becomes `_`.
pub fn sanitize_version_for_filename(version: &str) -> (r: String)
    ensures
        r@ == version@.map_values(|c: char| version_file_char(c)),
{
    let v = chars_of(version);
    let mut out: Vec<char> = Vec::new();
    let mut i: usize = 0;
    while i < v.len()
        invariant
            i <= v@.len(),
            out@ == v@.take(i as int).map_values(|c: char| version_file_char(c)),
        decreases v@.len() - i,
    {
        let c = v[i];
        let k = if ('a' <= c && c <= 'z') || ('A' <= c && c <= 'Z') || ('0' <= c && c <= '9') || c == '.'
            || c == '-' {
            c
        } else {
            '_'
        };
        out.push(k);
        i = i + 1;
        assert(out@ =~= v@.take(i as int).map_values(|c: char| version_file_char(c)));
    }
    assert(v@.take(v@.len() as int) =~= v@);
    string_from_chars(out.as_slice())
}


/// `s` with every leading copy of `p` removed (`str::trim_start_matches` with a text).
pub open spec fn strip_repeated_prefix(s: Seq<char>, p: Seq<char>) -> Seq<char>
    decreases s.len(),
{
    if p.len() > 0 && starts_with(s, p) {
        strip_repeated_prefix(s.skip(p.len() as int), p)
    } else {
        s
    }
}

/// The characters removed from a checksum before it is read: space, newline, carriage
/// return and tab.
pub open spec fn is_checksum_blank(c: char) -> bool {
    c == ' ' || c == '\n' || c == '\r' || c == '\t'
}

/// `s` without checksum blanks.
pub open spec fn without_blanks(s: Seq<char>) -> Seq<char>
    decreases s.len(),
{
    if s.len() == 0 {
        s
    } else if is_checksum_blank(s.last()) {
        without_blanks(s.drop_last())
    } else {
        without_blanks(s.drop_last()).push(s.last())
    }
}

pub open spec fn is_hex_digit(c: char) -> bool {
    ('0' <= c && c <= '9') || ('a' <= c && c <= 'f') || ('A' <= c && c <= 'F')
}

/// The checksum a release manifest announces, as it is compared: trimmed, without leading
/// `sha256:` tags, without blanks, lowercased.
pub open spec fn normalized_checksum(expected: Seq<char>) -> Seq<char> {
    lowercase(without_blanks(strip_repeated_prefix(trim(expected), "sha256:"@)))
}

/// The checksum is 64 hexadecimal digits.
pub open spec fn is_sha256_text(s: Seq<char>) -> bool {
    s.len() == 64 && forall|i: int| 0 <= i < s.len() ==> is_hex_digit(#[trigger] s[i])
}

/// Whether the installer's SHA-256 `actual` matches the announced `expected`: an error
/// where the announced value is not a SHA-256, another where the two differ (ASCII case
/// is ignored).
pub open spec fn checksum_verdict(actual: Seq<char>, expected: Seq<char>) -> Result<(), Seq<char>> {
    let e = normalized_checksum(expected);
    if !is_sha256_text(e) {
        Err("Update manifest contains an invalid sha256 value."@)
    } else if eq_ignore_ascii_case(actual, e) {
        Ok(())
    } else {
        Err("Update verification failed. The downloaded installer hash did not match latest.json."@)
    }
}

/// Checks a downloaded installer's SHA-256 against the one the release manifest announces.
pub fn verify_update_sha256_hex(actual: &str, expected: &str) -> (r: Result<(), String>)
    ensures
        match r {
            Ok(()) => checksum_verdict(actual@, expected@) == Ok::<(), Seq<char>>(()),
            Err(m) => checksum_verdict(actual@, expected@) == Err::<(), Seq<char>>(m@),
        },
{
    let ev = chars_of(expected);
    let t = trim_vec(&ev);
    let tag = lit("sha256:");
    let mut rest = t;
    loop
        invariant
            tag@ == "sha256:"@,
            strip_repeated_prefix(trim(expected@), "sha256:"@) == strip_repeated_prefix(rest@, "sha256:"@),
        ensures
            strip_repeated_prefix(trim(expected@), "sha256:"@) == rest@,
        decreases rest@.len(),
    {
        proof {
            reveal_strlit("sha256:");
        }
        if !starts_with_vec(&rest, &tag) {
            assert(strip_repeated_prefix(rest@, "sha256:"@) == rest@);
            break;
        }
        assert(tag@.len() > 0);
        let next = sub_vec(&rest, tag.len(), rest.len());
        assert(next@ =~= rest@.skip(tag@.len() as int));
        rest = next;
    }
    let mut kept: Vec<char> = Vec::new();
    let mut i: usize = 0;
    while i < rest.len()
        invariant
            i <= rest@.len(),
            kept@ == without_blanks(rest@.take(i as int)),
        decreases rest@.len() - i,
    {
        let c = rest[i];
        assert(rest@.take(i + 1).drop_last() =~= rest@.take(i as int));
        if !(c == ' ' || c == '\n' || c == '\r' || c == '\t') {
            kept.push(c);
        }
        i = i + 1;
    }
    assert(rest@.take(rest@.len() as int) =~= rest@);
    let kept_text = string_from_chars(kept.as_slice());
    let lower = to_lowercase(kept_text.as_str());
    let e = chars_of(lower.as_str());
    assert(e@ == normalized_checksum(expected@));
    let mut valid = e.len() == 64;
    let mut k: usize = 0;
    while valid && k < e.len()
        invariant
            k <= e@.len(),
            valid ==> forall|j: int| 0 <= j < k ==> is_hex_digit(#[trigger] e@[j]),
            valid ==> e@.len() == 64,
            !valid ==> !is_sha256_text(e@),
        decreases e@.len() - k,
    {
        let c = e[k];
        if !(('0' <= c && c <= '9') || ('a' <= c && c <= 'f') || ('A' <= c && c <= 'F')) {
            valid = false;
        }
        k = k + 1;
    }
    assert(valid ==> is_sha256_text(e@));
    if !valid {
        return Err(String::from_str("Update manifest contains an invalid sha256 value."));
    }
    let a = chars_of(actual);
    if eq_ignore_ascii_case_vec(&a, &e) {
        Ok(())
    } else {
        Err(String::from_str("Update verification failed. The downloaded installer hash did not match latest.json."))
    }
}


/// The SHA-256 digest of `data` as `sha2` computes it, written as lowercase hexadecimal.
pub uninterp spec fn sha256_hex_of(data: Seq<u8>) -> Seq<char>;

/// A lowercase hexadecimal digit, as `generic_array` writes digests.
pub open spec fn is_lower_hex_digit(c: char) -> bool {
    ('0' <= c && c <= '9') || ('a' <= c && c <= 'f')
}

/// `sha2::Sha256::digest`, formatted with `{:x}`. The contract names the digest (it
/// depends on the bytes alone) and states what the formatting shows: 32 bytes give 64
/// lowercase hexadecimal digits. Nothing is stated of the hash function itself.
#[verifier::external_body]
fn sha256_hex(data: &[u8]) -> (r: String)
    ensures
        r@ == sha256_hex_of(data@),
        r@.len() == 64,
        forall|i: int| 0 <= i < r@.len() ==> is_lower_hex_digit(#[trigger] r@[i]),
{
    format!("{:x}", sha2::Sha256::digest(data))
}

/// Checks downloaded installer bytes against the checksum the release manifest announces:
/// hashes them with SHA-256 and compares as `verify_update_sha256_hex` does.
pub fn verify_update_bytes(data: &[u8], expected: &str) -> (r: Result<(), String>)
    ensures
        match r {
            Ok(()) => checksum_verdict(sha256_hex_of(data@), expected@) == Ok::<(), Seq<char>>(()),
            Err(m) => checksum_verdict(sha256_hex_of(data@), expected@) == Err::<(), Seq<char>>(m@),
        },
{
    let actual = sha256_hex(data);
    verify_update_sha256_hex(actual.as_str(), expected)
}


/// `s` with every `'` doubled.
pub open spec fn quotes_doubled(s: Seq<char>) -> Seq<char>
    decreases s.len(),
{
    if s.len() == 0 {
        s
    } else {
        let rest = quotes_doubled(s.drop_last());
        if s.last() == '\'' { rest + seq!['\'', '\''] } else { rest.push(s.last()) }
    }
}

/// A path as a single-quoted PowerShell string: between `'` quotes, with each `'` in it
/// doubled.
pub fn powershell_single_quoted(path: &str) -> (r: String)
    ensures
        r@ == seq!['\''] + quotes_doubled(path@) + seq!['\''],
{
    let v = chars_of(path);
    let mut out: Vec<char> = Vec::new();
    out.push('\'');
    let mut i: usize = 0;
    assert(v@.take(0) =~= Seq::<char>::empty());
    while i < v.len()
        invariant
            i <= v@.len(),
            v@ == path@,
            out@ == seq!['\''] + quotes_doubled(v@.take(i as int)),
        decreases v@.len() - i,
    {
        assert(v@.take(i + 1).drop_last() =~= v@.take(i as int));
        let c = v[i];
        let ghost before = out@;
        if c == '\'' {
            out.push('\'');
            out.push('\'');
        } else {
            out.push(c);
        }
        i = i + 1;
        assert(out@ =~= seq!['\''] + quotes_doubled(v@.take(i as int)));
    }
    assert(v@.take(i as int) =~= v@);
    out.push('\'');
    string_from_chars(out.as_slice())
}


/// A platform key names a 64-bit Windows build.
pub open spec fn is_windows_x64_key(k: Seq<char>) -> bool {
    crate::text::contains_seq(k, "windows"@) && crate::text::contains_seq(k, "x86_64"@)
}

/// The first key, in the order given, that names a 64-bit Windows build.
pub open spec fn first_windows_key(keys: Seq<Seq<char>>) -> Option<int>
    decreases keys.len(),
{
    if keys.len() == 0 {
        None
    } else if is_windows_x64_key(keys[0]) {
        Some(0)
    } else {
        match first_windows_key(keys.drop_first()) {
            Some(i) => Some(i + 1),
            None => None,
        }
    }
}

/// The platform of an update manifest that this program installs: `windows-x86_64`,
/// else `windows-x86_64-msvc`, else the first platform (in the order given) whose key
/// names a 64-bit Windows build.
pub open spec fn chosen_platform(keys: Seq<Seq<char>>) -> Option<int> {
    if keys.contains("windows-x86_64"@) {
        Some(keys.index_of("windows-x86_64"@))
    } else if keys.contains("windows-x86_64-msvc"@) {
        Some(keys.index_of("windows-x86_64-msvc"@))
    } else {
        first_windows_key(keys)
    }
}

fn position_of(keys: &Vec<String>, key: &str) -> (r: Option<usize>)
    ensures
        r matches Some(i) ==> i < keys@.len() && keys@[i as int]@ == key@,
        r is None ==> !keys@.map_values(|s: String| s@).contains(key@),
{
    let mut i: usize = 0;
    while i < keys.len()
        invariant
            i <= keys@.len(),
            forall|k: int| 0 <= k < i ==> keys@[k]@ != key@,
        decreases keys@.len() - i,
    {
        let v = chars_of(keys[i].as_str());
        if crate::naming::is_text(&v, key) {
            return Some(i);
        }
        i = i + 1;
    }
    proof {
        let ks = keys@.map_values(|s: String| s@);
        if ks.contains(key@) {
            let j = choose|j: int| 0 <= j < ks.len() && #[trigger] ks[j] == key@;
            assert(keys@[j]@ == key@);
        }
    }
    None
}

/// Picks the platform of an update manifest to install (see `chosen_platform`); `keys`
/// are the manifest's platform keys, in the order its map is walked. Returns the
/// position of the chosen key.
pub fn select_update_platform(keys: &Vec<String>) -> (r: Option<usize>)
    ensures
        r matches Some(i) ==> i < keys@.len() && keys@[i as int]@ == match chosen_platform(keys@.map_values(|s: String| s@)) {
            Some(j) => keys@[j]@,
            None => Seq::empty(),
        },
        r is None <==> chosen_platform(keys@.map_values(|s: String| s@)) is None,
{
    let ghost ks = keys@.map_values(|s: String| s@);
    match position_of(keys, "windows-x86_64") {
        Some(i) => {
            assert(ks[i as int] == "windows-x86_64"@);
            assert(ks.contains("windows-x86_64"@));
            proof {
                let j = ks.index_of("windows-x86_64"@);
                assert(ks[j] == "windows-x86_64"@);
            }
            return Some(i);
        },
        None => {},
    }
    match position_of(keys, "windows-x86_64-msvc") {
        Some(i) => {
            assert(ks[i as int] == "windows-x86_64-msvc"@);
            assert(ks.contains("windows-x86_64-msvc"@));
            proof {
                let j = ks.index_of("windows-x86_64-msvc"@);
                assert(ks[j] == "windows-x86_64-msvc"@);
            }
            return Some(i);
        },
        None => {},
    }
    let mut i: usize = 0;
    assert(ks.skip(0) =~= ks);
    while i < keys.len()
        invariant
            i <= keys@.len(),
            ks == keys@.map_values(|s: String| s@),
            !ks.contains("windows-x86_64"@),
            !ks.contains("windows-x86_64-msvc"@),
            first_windows_key(ks) == match first_windows_key(ks.skip(i as int)) {
                Some(j) => Some(j + i),
                None => None,
            },
        decreases keys@.len() - i,
    {
        assert(ks.skip(i as int)[0] == keys@[i as int]@);
        if crate::text::str_contains(keys[i].as_str(), "windows") && crate::text::str_contains(keys[i].as_str(), "x86_64") {
            assert(is_windows_x64_key(ks.skip(i as int)[0]));
            assert(first_windows_key(ks.skip(i as int)) == Some(0int));
            assert(first_windows_key(ks) == Some(i as int));
            assert(chosen_platform(ks) == Some(i as int));
            return Some(i);
        }
        assert(ks.skip(i as int).drop_first() =~= ks.skip(i + 1));
        i = i + 1;
    }
    None
}

} // verus!
