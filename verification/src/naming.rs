//! File names: sanitising, categories, numbered alternatives and friendly error texts.

use vstd::prelude::*;
use crate::numbers::{decimal_text, push_decimal};
use crate::paths::{extension_of, file_name_of, file_stem_of, path_extension, path_file_name, path_file_stem};
use crate::text::{
    chars_of, is_control, is_control_char, lit, lowercase, push_str, string_from_chars,
    to_lowercase, trim, trim_char, trim_char_vec, trim_vec,
};

verus! {

/// Characters that Windows refuses in file names.
pub open spec fn is_forbidden_in_name(c: char) -> bool {
    c == '<' || c == '>' || c == ':' || c == '"' || c == '/' || c == '\\' || c == '|' || c == '?'
        || c == '*'
}

/// A character of a sanitised name: forbidden and control characters become `_`.
pub open spec fn name_char(c: char) -> char {
    if is_forbidden_in_name(c) || is_control(c) {
        '_'
    } else {
        c
    }
}

/// `name` with forbidden characters replaced, surrounding white space and then
/// surrounding dots removed; `fallback` where nothing is left.
pub open spec fn sanitized(name: Seq<char>, fallback: Seq<char>) -> Seq<char> {
    let t = trim_char(trim(name.map_values(|c: char| name_char(c))), '.');
    if t.len() == 0 {
        fallback
    } else {
        t
    }
}

/// Two sequences of characters are equal.
pub fn eq_chars(a: &Vec<char>, b: &Vec<char>) -> (r: bool)
    ensures
        r == (a@ == b@),
{
    if a.len() != b.len() {
        return false;
    }
    let mut i: usize = 0;
    while i < a.len()
        invariant
            a@.len() == b@.len(),
            i <= a@.len(),
            forall|j: int| 0 <= j < i ==> a@[j] == b@[j],
        decreases a@.len() - i,
    {
        if a[i] != b[i] {
            return false;
        }
        i = i + 1;
    }
    assert(a@ =~= b@);
    true
}

/// `v` holds the text `s`.
pub fn is_text(v: &Vec<char>, s: &str) -> (r: bool)
    ensures
        r == (v@ == s@),
{
    let t = chars_of(s);
    eq_chars(v, &t)
}

fn sanitize_chars(name: &Vec<char>, fallback: &str) -> (r: String)
    ensures
        r@ == sanitized(name@, fallback@),
{
    let mut mapped: Vec<char> = Vec::new();
    let mut i: usize = 0;
    while i < name.len()
        invariant
            i <= name@.len(),
            mapped@ == name@.subrange(0, i as int).map_values(|c: char| name_char(c)),
        decreases name@.len() - i,
    {
        let c = name[i];
        let m = if c == '<' || c == '>' || c == ':' || c == '"' || c == '/' || c == '\\' || c == '|'
            || c == '?' || c == '*' || is_control_char(c) {
            '_'
        } else {
            c
        };
        mapped.push(m);
        i = i + 1;
        assert(mapped@ =~= name@.subrange(0, i as int).map_values(|c: char| name_char(c)));
    }
    assert(name@.subrange(0, name@.len() as int) =~= name@);
    let t = trim_vec(&mapped);
    let t = trim_char_vec(&t, '.');
    if t.len() == 0 {
        String::from_str(fallback)
    } else {
        string_from_chars(t.as_slice())
    }
}

/// The name under which a download is saved: the final component of `filename`, with
/// characters that Windows refuses replaced by `_` and surrounding white space and dots
/// removed; `download` when nothing is left.
pub fn sanitize_filename(filename: &str) -> (r: String)
    ensures
        r@ == sanitized(
            match file_name_of(filename@) {
                Some(n) => n,
                None => "download"@,
            },
            "download"@,
        ),
{
    let name = match path_file_name(filename) {
        Some(n) => chars_of(n.as_str()),
        None => lit("download"),
    };
    sanitize_chars(&name, "download")
}

/// A file-name component built from media metadata: `value` with characters that Windows
/// refuses replaced by `_` and surrounding white space and dots removed; `media.mp4`
/// when nothing is left.
pub fn sanitize_component(value: &str) -> (r: String)
    ensures
        r@ == sanitized(value@, "media.mp4"@),
{
    let v = chars_of(value);
    sanitize_chars(&v, "media.mp4")
}

/// The category folder for a lowercase file extension.
pub open spec fn category_for_extension(ext: Seq<char>) -> Seq<char> {
    if ext == "mp4"@ || ext == "mkv"@ || ext == "avi"@ || ext == "mov"@ || ext == "wmv"@ || ext == "flv"@
        || ext == "webm"@ || ext == "ts"@ || ext == "m3u8"@ {
        "Video"@
    } else if ext == "mp3"@ || ext == "wav"@ || ext == "flac"@ || ext == "aac"@ || ext == "ogg"@
        || ext == "m4a"@ {
        "Music"@
    } else if ext == "zip"@ || ext == "rar"@ || ext == "7z"@ || ext == "tar"@ || ext == "gz"@ || ext == "bz2"@
        || ext == "xz"@ || ext == "iso"@ {
        "Compressed"@
    } else if ext == "exe"@ || ext == "msi"@ || ext == "apk"@ || ext == "dmg"@ || ext == "pkg"@ || ext == "deb"@
        || ext == "rpm"@ || ext == "appimage"@ {
        "Programs"@
    } else if ext == "pdf"@ || ext == "doc"@ || ext == "docx"@ || ext == "xls"@ || ext == "xlsx"@ || ext
        == "ppt"@ || ext == "pptx"@ || ext == "txt"@ || ext == "csv"@ {
        "Documents"@
    } else {
        "General"@
    }
}

/// The category folder of a lowercase file extension.
pub fn category_of_extension(ext: &Vec<char>) -> (r: &'static str)
    ensures
        r@ == category_for_extension(ext@),
{
    if is_text(ext, "mp4") || is_text(ext, "mkv") || is_text(ext, "avi") || is_text(ext, "mov")
        || is_text(ext, "wmv") || is_text(ext, "flv") || is_text(ext, "webm") || is_text(ext, "ts")
        || is_text(ext, "m3u8") {
        "Video"
    } else if is_text(ext, "mp3") || is_text(ext, "wav") || is_text(ext, "flac") || is_text(ext, "aac")
        || is_text(ext, "ogg") || is_text(ext, "m4a") {
        "Music"
    } else if is_text(ext, "zip") || is_text(ext, "rar") || is_text(ext, "7z") || is_text(ext, "tar")
        || is_text(ext, "gz") || is_text(ext, "bz2") || is_text(ext, "xz") || is_text(ext, "iso") {
        "Compressed"
    } else if is_text(ext, "exe") || is_text(ext, "msi") || is_text(ext, "apk") || is_text(ext, "dmg")
        || is_text(ext, "pkg") || is_text(ext, "deb") || is_text(ext, "rpm") || is_text(ext, "appimage") {
        "Programs"
    } else if is_text(ext, "pdf") || is_text(ext, "doc") || is_text(ext, "docx") || is_text(ext, "xls")
        || is_text(ext, "xlsx") || is_text(ext, "ppt") || is_text(ext, "pptx") || is_text(ext, "txt")
        || is_text(ext, "csv") {
        "Documents"
    } else {
        "General"
    }
}

/// The category of a file: its extension, lowercased, picks one of Video, Music,
/// Compressed, Programs, Documents; any other file is General.
pub open spec fn filename_category(filename: Seq<char>) -> Seq<char> {
    category_for_extension(lowercase(
        match extension_of(filename) {
            Some(e) => e,
            None => ""@,
        },
    ))
}

/// Where a download is filed, by its extension in lower case (`e`, empty where the name has
/// none): mp4, mkv, avi, mov, wmv, flv, webm, ts, m3u8 in Video; mp3, wav, flac, aac, ogg,
/// m4a in Music; zip, rar, 7z, tar, gz, bz2, xz, iso in Compressed; exe, msi, apk, dmg,
/// pkg, deb, rpm, appimage in Programs; pdf, doc, docx, xls, xlsx, ppt, pptx, txt, csv in
/// Documents; anything else in General.
pub proof fn downloads_are_filed_by_extension(filename: Seq<char>, e: Seq<char>)
    requires
        e == lowercase(match extension_of(filename) {
            Some(x) => x,
            None => ""@,
        }),
    ensures
        (e == "mp4"@ || e == "mkv"@ || e == "avi"@ || e == "mov"@ || e == "wmv"@ || e == "flv"@ || e == "webm"@ || e == "ts"@ || e == "m3u8"@) ==> filename_category(filename) == "Video"@,
        (e == "mp3"@ || e == "wav"@ || e == "flac"@ || e == "aac"@ || e == "ogg"@ || e == "m4a"@) ==> filename_category(filename) == "Music"@,
        (e == "zip"@ || e == "rar"@ || e == "7z"@ || e == "tar"@ || e == "gz"@ || e == "bz2"@ || e == "xz"@ || e == "iso"@) ==> filename_category(filename) == "Compressed"@,
        (e == "exe"@ || e == "msi"@ || e == "apk"@ || e == "dmg"@ || e == "pkg"@ || e == "deb"@ || e == "rpm"@ || e == "appimage"@) ==> filename_category(filename) == "Programs"@,
        (e == "pdf"@ || e == "doc"@ || e == "docx"@ || e == "xls"@ || e == "xlsx"@ || e == "ppt"@ || e == "pptx"@ || e == "txt"@ || e == "csv"@) ==> filename_category(filename) == "Documents"@,
        (e != "mp4"@ && e != "mkv"@ && e != "avi"@ && e != "mov"@ && e != "wmv"@ && e != "flv"@ && e != "webm"@ && e != "ts"@ && e != "m3u8"@ && e != "mp3"@ && e != "wav"@ && e != "flac"@ && e != "aac"@ && e != "ogg"@ && e != "m4a"@ && e != "zip"@ && e != "rar"@ && e != "7z"@ && e != "tar"@ && e != "gz"@ && e != "bz2"@ && e != "xz"@ && e != "iso"@ && e != "exe"@ && e != "msi"@ && e != "apk"@ && e != "dmg"@ && e != "pkg"@ && e != "deb"@ && e != "rpm"@ && e != "appimage"@ && e != "pdf"@ && e != "doc"@ && e != "docx"@ && e != "xls"@ && e != "xlsx"@ && e != "ppt"@ && e != "pptx"@ && e != "txt"@ && e != "csv"@) ==> filename_category(filename) == "General"@,
{
    reveal_strlit("mp4");
    reveal_strlit("mkv");
    reveal_strlit("avi");
    reveal_strlit("mov");
    reveal_strlit("wmv");
    reveal_strlit("flv");
    reveal_strlit("webm");
    reveal_strlit("ts");
    reveal_strlit("m3u8");
    reveal_strlit("mp3");
    reveal_strlit("wav");
    reveal_strlit("flac");
    reveal_strlit("aac");
    reveal_strlit("ogg");
    reveal_strlit("m4a");
    reveal_strlit("zip");
    reveal_strlit("rar");
    reveal_strlit("7z");
    reveal_strlit("tar");
    reveal_strlit("gz");
    reveal_strlit("bz2");
    reveal_strlit("xz");
    reveal_strlit("iso");
    reveal_strlit("exe");
    reveal_strlit("msi");
    reveal_strlit("apk");
    reveal_strlit("dmg");
    reveal_strlit("pkg");
    reveal_strlit("deb");
    reveal_strlit("rpm");
    reveal_strlit("appimage");
    reveal_strlit("pdf");
    reveal_strlit("doc");
    reveal_strlit("docx");
    reveal_strlit("xls");
    reveal_strlit("xlsx");
    reveal_strlit("ppt");
    reveal_strlit("pptx");
    reveal_strlit("txt");
    reveal_strlit("csv");
    reveal_strlit("Video");
    reveal_strlit("Music");
    reveal_strlit("Compressed");
    reveal_strlit("Programs");
    reveal_strlit("Documents");
    reveal_strlit("General");
    if e == "mp4"@ {
        assert(e.len() == 3 && e[0] == 'm' && e[1] == 'p' && e[2] == '4');
    }
    if e == "mkv"@ {
        assert(e.len() == 3 && e[0] == 'm' && e[1] == 'k' && e[2] == 'v');
    }
    if e == "avi"@ {
        assert(e.len() == 3 && e[0] == 'a' && e[1] == 'v' && e[2] == 'i');
    }
    if e == "mov"@ {
        assert(e.len() == 3 && e[0] == 'm' && e[1] == 'o' && e[2] == 'v');
    }
    if e == "wmv"@ {
        assert(e.len() == 3 && e[0] == 'w' && e[1] == 'm' && e[2] == 'v');
    }
    if e == "flv"@ {
        assert(e.len() == 3 && e[0] == 'f' && e[1] == 'l' && e[2] == 'v');
    }
    if e == "webm"@ {
        assert(e.len() == 4 && e[0] == 'w' && e[1] == 'e' && e[2] == 'b' && e[3] == 'm');
    }
    if e == "ts"@ {
        assert(e.len() == 2 && e[0] == 't' && e[1] == 's');
    }
    if e == "m3u8"@ {
        assert(e.len() == 4 && e[0] == 'm' && e[1] == '3' && e[2] == 'u' && e[3] == '8');
    }
    if e == "mp3"@ {
        assert(e.len() == 3 && e[0] == 'm' && e[1] == 'p' && e[2] == '3');
    }
    if e == "wav"@ {
        assert(e.len() == 3 && e[0] == 'w' && e[1] == 'a' && e[2] == 'v');
    }
    if e == "flac"@ {
        assert(e.len() == 4 && e[0] == 'f' && e[1] == 'l' && e[2] == 'a' && e[3] == 'c');
    }
    if e == "aac"@ {
        assert(e.len() == 3 && e[0] == 'a' && e[1] == 'a' && e[2] == 'c');
    }
    if e == "ogg"@ {
        assert(e.len() == 3 && e[0] == 'o' && e[1] == 'g' && e[2] == 'g');
    }
    if e == "m4a"@ {
        assert(e.len() == 3 && e[0] == 'm' && e[1] == '4' && e[2] == 'a');
    }
    if e == "zip"@ {
        assert(e.len() == 3 && e[0] == 'z' && e[1] == 'i' && e[2] == 'p');
    }
    if e == "rar"@ {
        assert(e.len() == 3 && e[0] == 'r' && e[1] == 'a' && e[2] == 'r');
    }
    if e == "7z"@ {
        assert(e.len() == 2 && e[0] == '7' && e[1] == 'z');
    }
    if e == "tar"@ {
        assert(e.len() == 3 && e[0] == 't' && e[1] == 'a' && e[2] == 'r');
    }
    if e == "gz"@ {
        assert(e.len() == 2 && e[0] == 'g' && e[1] == 'z');
    }
    if e == "bz2"@ {
        assert(e.len() == 3 && e[0] == 'b' && e[1] == 'z' && e[2] == '2');
    }
    if e == "xz"@ {
        assert(e.len() == 2 && e[0] == 'x' && e[1] == 'z');
    }
    if e == "iso"@ {
        assert(e.len() == 3 && e[0] == 'i' && e[1] == 's' && e[2] == 'o');
    }
    if e == "exe"@ {
        assert(e.len() == 3 && e[0] == 'e' && e[1] == 'x' && e[2] == 'e');
    }
    if e == "msi"@ {
        assert(e.len() == 3 && e[0] == 'm' && e[1] == 's' && e[2] == 'i');
    }
    if e == "apk"@ {
        assert(e.len() == 3 && e[0] == 'a' && e[1] == 'p' && e[2] == 'k');
    }
    if e == "dmg"@ {
        assert(e.len() == 3 && e[0] == 'd' && e[1] == 'm' && e[2] == 'g');
    }
    if e == "pkg"@ {
        assert(e.len() == 3 && e[0] == 'p' && e[1] == 'k' && e[2] == 'g');
    }
    if e == "deb"@ {
        assert(e.len() == 3 && e[0] == 'd' && e[1] == 'e' && e[2] == 'b');
    }
    if e == "rpm"@ {
        assert(e.len() == 3 && e[0] == 'r' && e[1] == 'p' && e[2] == 'm');
    }
    if e == "appimage"@ {
        assert(e.len() == 8 && e[0] == 'a' && e[1] == 'p' && e[2] == 'p' && e[3] == 'i' && e[4] == 'm' && e[5] == 'a' && e[6] == 'g' && e[7] == 'e');
    }
    if e == "pdf"@ {
        assert(e.len() == 3 && e[0] == 'p' && e[1] == 'd' && e[2] == 'f');
    }
    if e == "doc"@ {
        assert(e.len() == 3 && e[0] == 'd' && e[1] == 'o' && e[2] == 'c');
    }
    if e == "docx"@ {
        assert(e.len() == 4 && e[0] == 'd' && e[1] == 'o' && e[2] == 'c' && e[3] == 'x');
    }
    if e == "xls"@ {
        assert(e.len() == 3 && e[0] == 'x' && e[1] == 'l' && e[2] == 's');
    }
    if e == "xlsx"@ {
        assert(e.len() == 4 && e[0] == 'x' && e[1] == 'l' && e[2] == 's' && e[3] == 'x');
    }
    if e == "ppt"@ {
        assert(e.len() == 3 && e[0] == 'p' && e[1] == 'p' && e[2] == 't');
    }
    if e == "pptx"@ {
        assert(e.len() == 4 && e[0] == 'p' && e[1] == 'p' && e[2] == 't' && e[3] == 'x');
    }
    if e == "txt"@ {
        assert(e.len() == 3 && e[0] == 't' && e[1] == 'x' && e[2] == 't');
    }
    if e == "csv"@ {
        assert(e.len() == 3 && e[0] == 'c' && e[1] == 's' && e[2] == 'v');
    }
}

/// The category folder of a file (see `filename_category`).
pub fn category_for_filename(filename: &str) -> (r: &'static str)
    ensures
        r@ == filename_category(filename@),
{
    let ext = match path_extension(filename) {
        Some(e) => e,
        None => String::from_str(""),
    };
    let lower = to_lowercase(ext.as_str());
    let lv = chars_of(lower.as_str());
    category_of_extension(&lv)
}

/// The `index`-th alternative name for `filename`: the name itself for index 0, else
/// `<stem> (<index>).<ext>`, or `<stem> (<index>)` where there is no extension.
pub open spec fn numbered_name(filename: Seq<char>, index: nat) -> Seq<char> {
    if index == 0 {
        filename
    } else {
        let stem = match file_stem_of(filename) {
            Some(s) => s,
            None => "download"@,
        };
        let numbered = stem + " ("@ + decimal_text(index) + ")"@;
        match extension_of(filename) {
            Some(e) => if e.len() > 0 { numbered + "."@ + e } else { numbered },
            None => numbered,
        }
    }
}

/// Candidate `index` in the search for a free save name: the file name itself first, then
/// `name (1).ext`, `name (2).ext`, and so on.
pub fn candidate_file_name(filename: &str, index: usize) -> (r: String)
    ensures
        r@ == numbered_name(filename@, index as nat),
{
    if index == 0 {
        return String::from_str(filename);
    }
    let mut out: Vec<char> = Vec::new();
    match path_file_stem(filename) {
        Some(s) => push_str(&mut out, s.as_str()),
        None => push_str(&mut out, "download"),
    }
    push_str(&mut out, " (");
    push_decimal(&mut out, index as u64);
    push_str(&mut out, ")");
    match path_extension(filename) {
        Some(e) => {
            if e.unicode_len() > 0 {
                push_str(&mut out, ".");
                push_str(&mut out, e.as_str());
            }
        },
        None => {},
    }
    string_from_chars(out.as_slice())
}

/// Name of the state file kept beside a download: `.<filename>.meta`.
pub open spec fn meta_file_name_text(filename: Seq<char>) -> Seq<char> {
    "."@ + filename + ".meta"@
}

/// The state file name kept beside a download called `filename`.
pub fn meta_file_name(filename: &str) -> (r: String)
    ensures
        r@ == meta_file_name_text(filename@),
{
    let mut out: Vec<char> = Vec::new();
    push_str(&mut out, ".");
    push_str(&mut out, filename);
    push_str(&mut out, ".meta");
    string_from_chars(out.as_slice())
}


/// Numbered names tried for a new download before a random one is used.
pub const NUMBERED_NAME_TRIES: usize = 9999;

/// The name used when every numbered name is taken: a fresh random id, `-`, and the
/// name.
pub fn fallback_save_name(filename: &str) -> (r: String)
    ensures
        r@.len() == 37 + filename@.len(),
        r@.skip(36) == "-"@ + filename@,
{
    let id = crate::models::new_uuid();
    let mut v: Vec<char> = Vec::new();
    push_str(&mut v, id.as_str());
    push_str(&mut v, "-");
    push_str(&mut v, filename);
    proof {
        reveal_strlit("-");
    }
    assert(v@.skip(36) =~= "-"@ + filename@);
    string_from_chars(v.as_slice())
}


/// `is_taken` answered `taken` when asked about a name with the text `name`.
pub open spec fn reported_taken<F: Fn(&str) -> bool>(is_taken: F, name: Seq<char>, taken: bool) -> bool {
    exists|s: &str| s@ == name && #[trigger] call_ensures(is_taken, (s,), taken)
}

/// The name a new download is saved under: the first of `filename`, `<stem> (1).<ext>`,
/// ..., `<stem> (9999).<ext>` that `is_taken` (which the caller answers from what is on
/// disk) does not report taken; where all of them are taken, a fresh fallback name.
pub fn first_free_name<F: Fn(&str) -> bool>(filename: &str, is_taken: F) -> (r: String)
    requires
        forall|s: &str| call_requires(is_taken, (s,)),
    ensures
        ({
            ||| exists|k: nat| {
                &&& k <= NUMBERED_NAME_TRIES
                &&& r@ == #[trigger] numbered_name(filename@, k)
                &&& reported_taken(is_taken, r@, false)
                &&& forall|j: nat| j < k ==> reported_taken(is_taken, #[trigger] numbered_name(filename@, j), true)
            }
            ||| {
                &&& forall|j: nat| j <= NUMBERED_NAME_TRIES ==> reported_taken(
                    is_taken,
                    #[trigger] numbered_name(filename@, j),
                    true,
                )
                &&& r@.len() == 37 + filename@.len()
                &&& r@.skip(36) == "-"@ + filename@
            }
        }),
{
    let mut index: usize = 0;
    while index <= NUMBERED_NAME_TRIES
        invariant
            index <= NUMBERED_NAME_TRIES + 1,
            forall|s: &str| call_requires(is_taken, (s,)),
            forall|j: nat| j < index ==> reported_taken(is_taken, #[trigger] numbered_name(filename@, j), true),
        decreases NUMBERED_NAME_TRIES + 1 - index,
    {
        let name = candidate_file_name(filename, index);
        let text = name.as_str();
        let taken = is_taken(text);
        assert(text@ == name@);
        assert(reported_taken(is_taken, name@, taken));
        if !taken {
            assert(numbered_name(filename@, index as nat) == name@);
            return name;
        }
        index = index + 1;
    }
    fallback_save_name(filename)
}

/// Every character of `t` occurs in `s`.
pub open spec fn chars_within(t: Seq<char>, s: Seq<char>) -> bool {
    forall|i: int| 0 <= i < t.len() ==> s.contains(#[trigger] t[i])
}

/// A name Windows accepts: no forbidden or control character.
pub open spec fn is_safe_name(n: Seq<char>) -> bool {
    forall|i: int| 0 <= i < n.len() ==> !is_forbidden_in_name(#[trigger] n[i]) && !is_control(n[i])
}

proof fn lemma_trim_start_within(s: Seq<char>)
    ensures
        chars_within(crate::text::trim_start(s), s),
    decreases s.len(),
{
    if s.len() > 0 && crate::text::is_white_space(s[0]) {
        let d = s.drop_first();
        lemma_trim_start_within(d);
        assert forall|i: int| 0 <= i < crate::text::trim_start(s).len() implies s.contains(#[trigger] crate::text::trim_start(s)[i]) by {
            let x = crate::text::trim_start(s)[i];
            assert(d.contains(x));
            let j = choose|j: int| 0 <= j < d.len() && d[j] == x;
            assert(s[j + 1] == x);
        }
    }
}

proof fn lemma_trim_end_within(s: Seq<char>)
    ensures
        chars_within(crate::text::trim_end(s), s),
    decreases s.len(),
{
    if s.len() > 0 && crate::text::is_white_space(s.last()) {
        let d = s.drop_last();
        lemma_trim_end_within(d);
        assert forall|i: int| 0 <= i < crate::text::trim_end(s).len() implies s.contains(#[trigger] crate::text::trim_end(s)[i]) by {
            let x = crate::text::trim_end(s)[i];
            assert(d.contains(x));
            let j = choose|j: int| 0 <= j < d.len() && d[j] == x;
            assert(s[j] == x);
        }
    }
}

proof fn lemma_trim_char_start_within(s: Seq<char>, c: char)
    ensures
        chars_within(crate::text::trim_char_start(s, c), s),
        crate::text::trim_char_start(s, c).len() > 0 ==> crate::text::trim_char_start(s, c)[0] != c,
    decreases s.len(),
{
    if s.len() > 0 && s[0] == c {
        let d = s.drop_first();
        lemma_trim_char_start_within(d, c);
        assert forall|i: int| 0 <= i < crate::text::trim_char_start(s, c).len() implies s.contains(#[trigger] crate::text::trim_char_start(s, c)[i]) by {
            let x = crate::text::trim_char_start(s, c)[i];
            assert(d.contains(x));
            let j = choose|j: int| 0 <= j < d.len() && d[j] == x;
            assert(s[j + 1] == x);
        }
    }
}

proof fn lemma_trim_char_end_within(s: Seq<char>, c: char)
    ensures
        chars_within(crate::text::trim_char_end(s, c), s),
        crate::text::trim_char_end(s, c).len() > 0 ==> crate::text::trim_char_end(s, c).last() != c,
    decreases s.len(),
{
    if s.len() > 0 && s.last() == c {
        let d = s.drop_last();
        lemma_trim_char_end_within(d, c);
        assert forall|i: int| 0 <= i < crate::text::trim_char_end(s, c).len() implies s.contains(#[trigger] crate::text::trim_char_end(s, c)[i]) by {
            let x = crate::text::trim_char_end(s, c)[i];
            assert(d.contains(x));
            let j = choose|j: int| 0 <= j < d.len() && d[j] == x;
            assert(s[j] == x);
        }
    }
}

/// A sanitised name is never empty, holds no character that Windows refuses in a file
/// name, and neither starts nor ends with a dot, for any input, provided the fallback
/// is such a name itself.
pub proof fn sanitized_names_are_safe(name: Seq<char>, fallback: Seq<char>)
    requires
        fallback.len() > 0,
        is_safe_name(fallback),
        fallback[0] != '.',
        fallback.last() != '.',
    ensures
        sanitized(name, fallback).len() > 0,
        is_safe_name(sanitized(name, fallback)),
        sanitized(name, fallback)[0] != '.',
        sanitized(name, fallback).last() != '.',
{
    let m = name.map_values(|c: char| name_char(c));
    let a = crate::text::trim_start(m);
    let b = crate::text::trim_end(a);
    let c = crate::text::trim_char_start(b, '.');
    let d = crate::text::trim_char_end(c, '.');
    lemma_trim_start_within(m);
    lemma_trim_end_within(a);
    lemma_trim_char_start_within(b, '.');
    lemma_trim_char_end_within(c, '.');
    if d.len() > 0 {
        assert forall|i: int| 0 <= i < d.len() implies !is_forbidden_in_name(#[trigger] d[i]) && !is_control(d[i]) by {
            let x = d[i];
            assert(c.contains(x));
            let j1 = choose|j: int| 0 <= j < c.len() && c[j] == x;
            assert(b.contains(c[j1]));
            let j2 = choose|j: int| 0 <= j < b.len() && b[j] == x;
            assert(a.contains(b[j2]));
            let j3 = choose|j: int| 0 <= j < a.len() && a[j] == x;
            assert(m.contains(a[j3]));
            let j4 = choose|j: int| 0 <= j < m.len() && m[j] == x;
            assert(m[j4] == name_char(name[j4]));
        }
        assert(d[0] != '.') by {
            lemma_trim_char_end_keeps_first(c, '.');
        }
    }
}

proof fn lemma_trim_char_end_keeps_first(s: Seq<char>, c: char)
    requires
        s.len() > 0 ==> s[0] != c,
    ensures
        crate::text::trim_char_end(s, c).len() > 0 ==> crate::text::trim_char_end(s, c)[0] == s[0],
    decreases s.len(),
{
    if s.len() > 0 && s.last() == c {
        lemma_trim_char_end_keeps_first(s.drop_last(), c);
    }
}


/// The search for a free name never tries a name twice: the numbered names for
/// different numbers differ.
pub proof fn numbered_names_differ(filename: Seq<char>, i: nat, j: nat)
    requires
        i >= 1,
        j >= 1,
        i != j,
    ensures
        numbered_name(filename, i) != numbered_name(filename, j),
{
    let stem = match file_stem_of(filename) {
        Some(s) => s,
        None => "download"@,
    };
    let tail = match extension_of(filename) {
        Some(e) => if e.len() > 0 { ")"@ + "."@ + e } else { ")"@ },
        None => ")"@,
    };
    let a = stem + " ("@;
    let di = decimal_text(i);
    let dj = decimal_text(j);
    assert(numbered_name(filename, i) =~= a + di + tail);
    assert(numbered_name(filename, j) =~= a + dj + tail);
    if numbered_name(filename, i) == numbered_name(filename, j) {
        let ni = a + di + tail;
        let nj = a + dj + tail;
        assert(di.len() == dj.len());
        assert(ni.subrange(a.len() as int, (a.len() + di.len()) as int) =~= di);
        assert(nj.subrange(a.len() as int, (a.len() + dj.len()) as int) =~= dj);
        crate::numbers::lemma_decimal_text_injective(i, j);
    }
}

} // verus!
