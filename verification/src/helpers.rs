//! Case- and normalization-insensitive comparison of names.

use vstd::prelude::*;
use unicode_normalization::UnicodeNormalization;
use crate::paths::{file_name, file_name_of};
use crate::text::{chars_of, contains_chars, is_substring};

verus! {

/// The canonical decomposition (Unicode Normalization Form D) of a text, as
/// `unicode_normalization` computes it.
pub uninterp spec fn nfd_of(s: Seq<char>) -> Seq<char>;

/// The lowercase equivalent of a text, as `str::to_lowercase` computes it.
pub uninterp spec fn lowercase_of(s: Seq<char>) -> Seq<char>;

/// Calls `UnicodeNormalization::nfd` of `unicode_normalization` on the text
/// and collects the characters it yields. The decomposition depends on the
/// characters of the input alone; the contract gives it the name `nfd_of`.
#[verifier::external_body]
fn nfd(s: &str) -> (r: String)
    ensures
        r@ == nfd_of(s@),
{
    s.nfd().collect::<String>()
}

/// Calls `str::to_lowercase`, which maps the text to lowercase by the Unicode
/// tables, independent of any locale. The contract gives the result the name
/// `lowercase_of`.
#[verifier::external_body]
fn lowercase(s: &str) -> (r: String)
    ensures
        r@ == lowercase_of(s@),
{
    s.to_lowercase()
}

/// The form in which names are compared: decomposed, then lowercased.
pub open spec fn normal_form(s: Seq<char>) -> Seq<char> {
    lowercase_of(nfd_of(s))
}

/// `needle` occurs in `name` once both are brought to normal form.
pub open spec fn contains_ignore_case(name: Seq<char>, needle: Seq<char>) -> bool {
    is_substring(normal_form(needle), normal_form(name))
}

/// Normalizes a text to decomposed form and lowercases it, so that two
/// spellings of one name compare equal.
pub fn normalize_lowercase(s: &str) -> (r: String)
    ensures
        r@ == normal_form(s@),
{
    let decomposed = nfd(s);
    lowercase(decomposed.as_str())
}

/// Whether the final component of `path` contains `needle`, ignoring case and
/// normalization. An empty needle is contained in nothing, and a path
/// without a final component contains nothing.
pub fn path_contains_ignore_case(path: &str, needle: &str) -> (r: bool)
    ensures
        r == match file_name_of(path@) {
            Some(name) => needle@.len() > 0 && contains_ignore_case(name, needle@),
            None => false,
        },
{
    if needle.is_empty() {
        return false;
    }
    match file_name(path) {
        Some(name) => {
            let hay = chars_of(normalize_lowercase(name.as_str()).as_str());
            let wanted = chars_of(normalize_lowercase(needle).as_str());
            contains_chars(&hay, &wanted)
        },
        None => false,
    }
}

} // verus!
