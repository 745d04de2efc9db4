//! The calls into the `regex` crate, behind trusted wrappers whose results
//! are named.

use regex::Regex;
use vstd::prelude::*;

verus! {

/// The overall match of a regex in a haystack, split into the text before
/// it, the match itself and the text after it, with the text of one chosen
/// capture group (`None` where that group did not take part in the match).
pub struct CaptureSplit {
    pub before: String,
    pub whole: String,
    pub group: Option<String>,
    pub after: String,
}

/// The plain value of a `CaptureSplit`.
pub open spec fn split_view(c: CaptureSplit) -> (Seq<char>, Seq<char>, Option<Seq<char>>, Seq<char>) {
    (
        c.before@,
        c.whole@,
        match c.group {
            Some(g) => Some(g@),
            None => None,
        },
        c.after@,
    )
}

/// The plain value of what `regex_captures` returns.
pub open spec fn captures_view(r: Result<Option<CaptureSplit>, String>) -> Result<
    Option<(Seq<char>, Seq<char>, Option<Seq<char>>, Seq<char>)>,
    Seq<char>,
> {
    match r {
        Ok(Some(c)) => Ok(Some(split_view(c))),
        Ok(None) => Ok(None),
        Err(e) => Err(e@),
    }
}

/// What `Regex::new(pattern)` followed by `captures(haystack)` gives, split
/// around the leftmost-first overall match, with capture group `group`;
/// where the pattern does not compile, the text of the error.
pub uninterp spec fn regex_capture(pattern: Seq<char>, haystack: Seq<char>, group: int) -> Result<
    Option<(Seq<char>, Seq<char>, Option<Seq<char>>, Seq<char>)>,
    Seq<char>,
>;

/// What `Regex::new(pattern)` followed by `replace_all(haystack, rep)` gives;
/// where the pattern does not compile, the text of the error.
pub uninterp spec fn regex_replaced(pattern: Seq<char>, haystack: Seq<char>, rep: Seq<char>) -> Result<
    Seq<char>,
    Seq<char>,
>;

/// Compiles `pattern` with `regex::Regex::new` and runs `Regex::captures` on
/// `haystack`. Claimed: the result is the named `regex_capture` of the
/// arguments (an error becomes its `Display` text), and, as the crate documents that capture group 0 is the
/// overall match, the text before it, the match and the text after it make
/// up the haystack.
#[verifier::external_body]
pub(crate) fn regex_captures(pattern: &str, haystack: &str, group: usize) -> (r: Result<
    Option<CaptureSplit>,
    String,
>)
    ensures
        captures_view(r) == regex_capture(pattern@, haystack@, group as int),
        r matches Ok(Some(c)) ==> c.before@ + c.whole@ + c.after@ == haystack@,
{
    let re = Regex::new(pattern).map_err(|e| e.to_string())?;
    Ok(
        re.captures(haystack).map(|caps| {
            let m = caps.get(0).unwrap();
            CaptureSplit {
                before: haystack[..m.start()].to_string(),
                whole: m.as_str().to_string(),
                group: caps.get(group).map(|g| g.as_str().to_string()),
                after: haystack[m.end()..].to_string(),
            }
        }),
    )
}

/// The plain value of what `regex_replace_all` returns.
pub open spec fn replaced_view(r: Result<String, String>) -> Result<Seq<char>, Seq<char>> {
    match r {
        Ok(s) => Ok(s@),
        Err(e) => Err(e@),
    }
}

/// Compiles `pattern` with `regex::Regex::new` and runs
/// `Regex::replace_all(haystack, rep)`. Claimed: the result is the named
/// `regex_replaced` of the arguments (an error becomes its `Display` text).
#[verifier::external_body]
pub(crate) fn regex_replace_all(pattern: &str, haystack: &str, rep: &str) -> (r: Result<String, String>)
    ensures
        replaced_view(r) == regex_replaced(pattern@, haystack@, rep@),
{
    let re = Regex::new(pattern).map_err(|e| e.to_string())?;
    Ok(re.replace_all(haystack, rep).into_owned())
}

} // verus!
