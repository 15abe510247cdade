//! Regular-expression searches, made by the `regex` crate.

use vstd::prelude::*;
use vstd::utf8::*;

verus! {

/// The matches of `pattern` in `hay`, as byte offsets `(start, end)` in the
/// order in which they are found; `None` where the pattern does not compile.
pub uninterp spec fn regex_matches(pattern: Seq<char>, hay: Seq<char>) -> Option<
    Seq<(usize, usize)>,
>;

/// The text of capture group `group` in the first match of `pattern` in
/// `hay`; `None` where the pattern does not compile, nothing matches, or the
/// group took no part in the match.
pub uninterp spec fn regex_capture(pattern: Seq<char>, hay: Seq<char>, group: usize) -> Option<
    Seq<char>,
>;

/// Spans that lie inside `bytes`, on character boundaries, one after the
/// other without overlap.
pub open spec fn spans_in_order(bytes: Seq<u8>, spans: Seq<(usize, usize)>) -> bool {
    &&& forall|i: int|
        0 <= i < spans.len() ==> {
            &&& (#[trigger] spans[i]).0 <= spans[i].1 <= bytes.len()
            &&& is_char_boundary(bytes, spans[i].0 as int)
            &&& is_char_boundary(bytes, spans[i].1 as int)
        }
    &&& forall|i: int, j: int|
        0 <= i < j < spans.len() ==> (#[trigger] spans[i]).1 <= (#[trigger] spans[j]).0
}

/// Calls `regex::Regex::new` and `Regex::find_iter`. Trusted: the result is
/// the named list of matches, and, as the crate documents of its matches,
/// each lies inside the haystack with `start <= end`, on UTF-8 boundaries,
/// and successive matches do not overlap.
#[verifier::external_body]
pub(crate) fn find_all(pattern: &str, hay: &str) -> (out: Option<Vec<(usize, usize)>>)
    ensures
        match out {
            Some(spans) => regex_matches(pattern@, hay@) == Some(spans@),
            None => regex_matches(pattern@, hay@) is None,
        },
        out is Some ==> spans_in_order(encode_utf8(hay@), out->0@),
{
    match regex::Regex::new(pattern) {
        Ok(re) => Some(re.find_iter(hay).map(|m| (m.start(), m.end())).collect()),
        Err(_) => None,
    }
}

/// Calls `regex::Regex::new`, `Regex::captures` and `Captures::get`.
/// Trusted: the result is the named capture text.
#[verifier::external_body]
pub(crate) fn first_capture(pattern: &str, hay: &str, group: usize) -> (out: Option<String>)
    ensures
        match out {
            Some(text) => regex_capture(pattern@, hay@, group) == Some(text@),
            None => regex_capture(pattern@, hay@, group) is None,
        },
{
    let re = regex::Regex::new(pattern).ok()?;
    let found = re.captures(hay)?;
    found.get(group).map(|m| m.as_str().to_owned())
}

} // verus!
