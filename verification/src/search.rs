//! The external regex capability: pattern compilation and match enumeration.
//!
//! Both are consumed opaquely. What a compiled pattern accepts is named, not
//! stated: `regex_matches(p, h)` stands for the ordered sequence of texts of
//! the non-overlapping, leftmost matches the engine finds for pattern `p` in
//! haystack `h`, and the library's contracts speak of that name exactly.
use vstd::prelude::*;

verus! {

#[verifier::external_type_specification]
#[verifier::external_body]
pub struct ExRegex(regex::Regex);

/// The outcome of compiling a pattern: acceptance, or the engine's error
/// message. The outcome depends on the pattern text alone.
pub uninterp spec fn regex_compiled(pattern: Seq<char>) -> Result<(), Seq<char>>;

/// The pattern text a compiled regex was built from.
pub uninterp spec fn regex_pattern_of(r: regex::Regex) -> Seq<char>;

/// The texts of the non-overlapping matches of `pattern` in `haystack`, in
/// left-to-right order, under the engine's leftmost-greedy semantics. The
/// result depends on the two texts alone.
pub uninterp spec fn regex_matches(pattern: Seq<char>, haystack: Seq<char>) -> Seq<Seq<char>>;

/// The engine's error message for a pattern it rejects.
pub open spec fn regex_err_of(pattern: Seq<char>) -> Seq<char> {
    match regex_compiled(pattern) {
        Ok(u) => Seq::empty(),
        Err(m) => m,
    }
}

/// Relies on `regex::Regex::new`: compiles the pattern or reports a
/// syntax/size error; the outcome depends on the pattern text alone.
#[verifier::external_body]
pub(crate) fn compile_pattern(pattern: &str) -> (r: Result<regex::Regex, String>)
    ensures
        r is Ok <==> regex_compiled(pattern@) is Ok,
        r matches Ok(re) ==> regex_pattern_of(re) == pattern@,
        r matches Err(m) ==> regex_compiled(pattern@) matches Err(w) && m@ == w,
{
    regex::Regex::new(pattern).map_err(|e| e.to_string())
}

/// Relies on `regex::Regex::find_iter` (and `Match::as_str`): yields the
/// successive non-overlapping matches of the compiled pattern in the
/// haystack, leftmost first; each match's text is copied out.
#[verifier::external_body]
pub(crate) fn find_matches(re: &regex::Regex, haystack: &str) -> (r: Vec<String>)
    ensures
        r.deep_view() == regex_matches(regex_pattern_of(*re), haystack@),
{
    re.find_iter(haystack).map(|m| m.as_str().to_string()).collect()
}

} // verus!
