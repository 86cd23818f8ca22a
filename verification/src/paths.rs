//! Paths are carried as `String`s; the component logic of `std::path` is reached
//! through the wrappers below.

use vstd::prelude::*;

verus! {

/// What `Path::extension` gives for `p` (converted to a string), or the empty
/// string when there is none.
pub uninterp spec fn spec_extension_or_empty(p: Seq<char>) -> Seq<char>;

/// What `Path::join` gives for `base` and `tail`.
pub uninterp spec fn spec_path_join(base: Seq<char>, tail: Seq<char>) -> Seq<char>;

/// What `Path::parent` gives for `p`.
pub uninterp spec fn spec_path_parent(p: Seq<char>) -> Option<Seq<char>>;

/// What `Path::file_name` gives for `p`.
pub uninterp spec fn spec_path_file_name(p: Seq<char>) -> Option<Seq<char>>;

/// Calls `Path::extension` on `p`; the contract names the result, with the empty
/// string standing for "no extension".
#[verifier::external_body]
pub fn extension_or_empty(p: &str) -> (r: String)
    ensures
        r@ == spec_extension_or_empty(p@),
{
    match std::path::Path::new(p).extension() {
        Some(e) => e.to_string_lossy().into_owned(),
        None => String::new(),
    }
}

/// Calls `Path::join`; the contract names the result.
#[verifier::external_body]
pub fn path_join(base: &str, tail: &str) -> (r: String)
    ensures
        r@ == spec_path_join(base@, tail@),
{
    std::path::Path::new(base).join(tail).to_string_lossy().into_owned()
}

/// Calls `Path::parent`; the contract names the result.
#[verifier::external_body]
pub fn path_parent(p: &str) -> (r: Option<String>)
    ensures
        r is None <==> spec_path_parent(p@) is None,
        r is Some ==> spec_path_parent(p@) == Some(r->0@),
{
    match std::path::Path::new(p).parent() {
        Some(q) => Some(q.to_string_lossy().into_owned()),
        None => None,
    }
}

/// Calls `Path::file_name`; the contract names the result.
#[verifier::external_body]
pub fn path_file_name(p: &str) -> (r: Option<String>)
    ensures
        r is None <==> spec_path_file_name(p@) is None,
        r is Some ==> spec_path_file_name(p@) == Some(r->0@),
{
    match std::path::Path::new(p).file_name() {
        Some(q) => Some(q.to_string_lossy().into_owned()),
        None => None,
    }
}

/// Calls `dirs::home_dir`. The answer depends on the environment, so nothing is
/// stated of it.
#[verifier::external_body]
pub fn home_dir() -> Option<String> {
    match dirs::home_dir() {
        Some(p) => Some(p.to_string_lossy().into_owned()),
        None => None,
    }
}

/// Replaces a leading `~/` by the home directory when one is known.
pub open spec fn spec_expand_tilde(path: Seq<char>, home: Option<Seq<char>>) -> Seq<char> {
    if path.len() >= 2 && path[0] == '~' && path[1] == '/' && home is Some {
        spec_path_join(home->0, path.skip(2))
    } else {
        path
    }
}

/// Expands a leading `~/` against the given home directory.
pub fn expand_tilde(path: &str, home: Option<&str>) -> (r: String)
    ensures
        r@ == spec_expand_tilde(path@, match home {
            Some(h) => Some(h@),
            None => None,
        }),
{
    let chars = crate::text::chars_of(path);
    if chars.len() >= 2 && chars[0] == '~' && chars[1] == '/' {
        if let Some(h) = home {
            let rest = crate::text::string_from_chars(&chars.as_slice().split_at(2).1);
            assert(rest@ == path@.skip(2));
            return path_join(h, rest.as_str());
        }
    }
    path.to_owned()
}

/// Expands a leading `~/` against the user's home directory.
pub fn shellexpand(path: &str) -> (r: String)
    ensures
        exists|home: Option<Seq<char>>| r@ == spec_expand_tilde(path@, home),
{
    let home = home_dir();
    match home {
        Some(h) => {
            let r = expand_tilde(path, Some(h.as_str()));
            assert(r@ == spec_expand_tilde(path@, Some(h@)));
            r
        },
        None => {
            let r = expand_tilde(path, None);
            assert(r@ == spec_expand_tilde(path@, None));
            r
        },
    }
}

} // verus!
