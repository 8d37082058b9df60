//! Trusted surface over the `regex` crate: compiled argument matchers,
//! matching, and named captures.
use vstd::prelude::*;

verus! {

#[verifier::external_type_specification]
#[verifier::external_body]
pub struct ExRegex(regex::Regex);

/// The pattern a compiled regex was built from.
pub uninterp spec fn regex_pat(re: regex::Regex) -> Seq<char>;

/// Whether `regex::Regex::new` accepts a pattern.
pub uninterp spec fn regex_valid(pattern: Seq<char>) -> bool;

/// Whether a text matches a pattern, as `regex::Regex::is_match` decides
/// it.
pub uninterp spec fn regex_matches(pattern: Seq<char>, text: Seq<char>) -> bool;

/// The named groups that participate in the match of `text` against
/// `pattern`, in declaration order, each with its captured text.
pub uninterp spec fn regex_captures(pattern: Seq<char>, text: Seq<char>) -> Seq<
    (Seq<char>, Seq<char>),
>;

/// Relies on `regex::Regex::new`: compiling is a function of the pattern
/// alone, and the compiled regex holds that pattern.
#[verifier::external_body]
pub(crate) fn regex_new(pattern: &String) -> (r: Option<regex::Regex>)
    ensures
        r is Some <==> regex_valid(pattern@),
        r matches Some(re) ==> regex_pat(re) == pattern@,
{
    regex::Regex::new(pattern.as_str()).ok()
}

/// Relies on `regex::Regex::is_match`: a function of the pattern and the
/// text alone.
#[verifier::external_body]
pub(crate) fn regex_is_match(re: &regex::Regex, text: &String) -> (r: bool)
    ensures
        r == regex_matches(regex_pat(*re), text@),
{
    re.is_match(text.as_str())
}

/// Relies on `regex::Regex::captures`, `Regex::capture_names` and
/// `Captures::name`: captures are found exactly when the text matches;
/// the participating named groups come out in declaration order with
/// their captured text; group names are unique within one regex (a
/// duplicate name is already refused at compile time).
#[verifier::external_body]
pub(crate) fn regex_named_captures(re: &regex::Regex, text: &String) -> (r: Option<
    Vec<(String, String)>,
>)
    ensures
        r is Some <==> regex_matches(regex_pat(*re), text@),
        r matches Some(v) ==> v.deep_view() == regex_captures(regex_pat(*re), text@),
        r matches Some(v) ==> (forall|i: int, j: int|
            0 <= i < j < v.len() ==> v[i].0@ != v[j].0@),
{
    re.captures(text.as_str()).map(|cap| {
        let mut out: Vec<(String, String)> = Vec::new();
        for name in re.capture_names().flatten() {
            if let Some(m) = cap.name(name) {
                out.push((name.to_string(), m.as_str().to_string()));
            }
        }
        out
    })
}

} // verus!
