//! File-system path operations of `std::path`, on text.

use vstd::prelude::*;

verus! {

/// What `Path::join` gives, as text, for a base path and a relative name.
pub uninterp spec fn joined_path(base: Seq<char>, name: Seq<char>) -> Seq<char>;

/// What `Path::file_name` gives, as text.
pub uninterp spec fn file_name_of(path: Seq<char>) -> Option<Seq<char>>;

/// What `Path::extension` gives, as text.
pub uninterp spec fn extension_of(path: Seq<char>) -> Option<Seq<char>>;

/// What `Path::file_stem` gives, as text.
pub uninterp spec fn file_stem_of(path: Seq<char>) -> Option<Seq<char>>;

/// What `Path::parent` gives, as text.
pub uninterp spec fn parent_of(path: Seq<char>) -> Option<Seq<char>>;

/// `Path::join` of `name` onto `base`. The contract names the result: the same two
/// texts always join to the same text; the separator rules are not stated.
#[verifier::external_body]
pub(crate) fn path_join(base: &str, name: &str) -> (r: String)
    ensures
        r@ == joined_path(base@, name@),
{
    std::path::Path::new(base).join(name).to_string_lossy().to_string()
}

/// `Path::file_name`: the final component, if any. The contract names the result.
#[verifier::external_body]
pub(crate) fn path_file_name(path: &str) -> (r: Option<String>)
    ensures
        r matches Some(s) ==> file_name_of(path@) == Some(s@),
        r is None ==> file_name_of(path@) is None,
{
    std::path::Path::new(path).file_name().and_then(|n| n.to_str()).map(|n| n.to_string())
}

/// `Path::extension`: the text after the last `.` of the file name, if any. The contract
/// names the result.
#[verifier::external_body]
pub(crate) fn path_extension(path: &str) -> (r: Option<String>)
    ensures
        r matches Some(s) ==> extension_of(path@) == Some(s@),
        r is None ==> extension_of(path@) is None,
{
    std::path::Path::new(path).extension().and_then(|e| e.to_str()).map(|e| e.to_string())
}

/// `Path::file_stem`: the file name without its extension, if any. The contract names
/// the result.
#[verifier::external_body]
pub(crate) fn path_file_stem(path: &str) -> (r: Option<String>)
    ensures
        r matches Some(s) ==> file_stem_of(path@) == Some(s@),
        r is None ==> file_stem_of(path@) is None,
{
    std::path::Path::new(path).file_stem().and_then(|e| e.to_str()).map(|e| e.to_string())
}

/// `Path::parent`: the path without its final component, if any. The contract names
/// the result.
#[verifier::external_body]
pub(crate) fn path_parent(path: &str) -> (r: Option<String>)
    ensures
        r matches Some(s) ==> parent_of(path@) == Some(s@),
        r is None ==> parent_of(path@) is None,
{
    std::path::Path::new(path).parent().map(|p| p.to_string_lossy().to_string())
}

} // verus!
