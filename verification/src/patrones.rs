//! Pattern matching over document text, backed by the `regex` crate.
//!
//! The verified logic never inspects a pattern itself: what the leftmost
//! match of a pattern in a text is, and what replacing it yields, are named
//! by the two uninterpreted functions below, and everything the library
//! proves about extraction is stated through those names.

use vstd::prelude::*;

verus! {

/// The leftmost match of the pattern `pat` in `text`, or `None` when `pat`
/// is not a valid pattern or matches nowhere in `text`.
pub uninterp spec fn busqueda_de(pat: Seq<char>, text: Seq<char>) -> Option<Seq<char>>;

/// `text` with the leftmost match of `pat` removed; `text` itself when `pat`
/// is not a valid pattern or matches nowhere.
pub uninterp spec fn reemplazo_de(pat: Seq<char>, text: Seq<char>) -> Seq<char>;

/// Whether the pattern `pat` matches anywhere in `text`.
pub open spec fn patron_coincide(pat: Seq<char>, text: Seq<char>) -> bool {
    busqueda_de(pat, text) is Some
}

/// Relies on `regex::Regex::new` and `regex::Regex::find`: `find` returns the
/// leftmost match of the compiled pattern in the haystack, and its `as_str`
/// is the matched substring. An invalid pattern yields `None`.
#[verifier::external_body]
pub(crate) fn buscar_patron(pat: &str, text: &str) -> (r: Option<String>)
    ensures
        r matches Some(m) ==> busqueda_de(pat@, text@) == Some(m@),
        r is None ==> busqueda_de(pat@, text@) is None,
{
    match regex::Regex::new(pat) {
        Ok(re) => re.find(text).map(|m| m.as_str().to_string()),
        Err(_) => None,
    }
}

/// Relies on `regex::Regex::new` and `regex::Regex::replace`: `replace` with
/// an empty replacement string removes the leftmost match of the pattern and
/// returns the haystack unchanged when there is no match. An invalid pattern
/// leaves the haystack unchanged as well.
#[verifier::external_body]
pub(crate) fn quitar_patron(pat: &str, text: &str) -> (r: String)
    ensures
        r@ == reemplazo_de(pat@, text@),
        !patron_coincide(pat@, text@) ==> r@ == text@,
{
    match regex::Regex::new(pat) {
        Ok(re) => re.replace(text, "").into_owned(),
        Err(_) => text.to_string(),
    }
}

} // verus!
