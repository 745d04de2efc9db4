//! HTML text: escaping and unescaping, the `<body>` of a compiled page, and
//! the removal of a leading heading that repeats the post's title.

use crate::matcher::{split_view, regex_capture, regex_captures, regex_replace_all, regex_replaced};
use crate::text::{
    chars_of, is_whitespace, is_ws, push_chars, push_str, replace, replace_str, string_of, trim_start,
    trim_start_exec, vec_eq,
};
use vstd::prelude::*;

verus! {

/// The escaping that `escape_html` applies: `&`, `<`, `>`, `"` and `'`, each
/// in its own pass, in that order.
pub open spec fn escape_html_spec(s: Seq<char>) -> Seq<char> {
    replace(
        replace(
            replace(replace(replace(s, "&"@, "&amp;"@), "<"@, "&lt;"@), ">"@, "&gt;"@),
            "\""@,
            "&quot;"@,
        ),
        "'"@,
        "&#x27;"@,
    )
}

/// The unescaping that `unescape_html` applies, one pass per entity, `&amp;`
/// last.
pub open spec fn unescape_html_spec(s: Seq<char>) -> Seq<char> {
    replace(
        replace(
            replace(
                replace(
                    replace(replace(s, "&lt;"@, "<"@), "&gt;"@, ">"@),
                    "&quot;"@,
                    "\""@,
                ),
                "&#x27;"@,
                "'"@,
            ),
            "&#39;"@,
            "'"@,
        ),
        "&amp;"@,
        "&"@,
    )
}

/// Escapes the five HTML-special characters of `s`.
pub fn escape_html(s: &str) -> (r: String)
    ensures
        r@ == escape_html_spec(s@),
{
    let v = escape_chars(&chars_of(s));
    string_of(&v)
}

/// `escape_html` on characters.
pub fn escape_chars(s: &Vec<char>) -> (r: Vec<char>)
    ensures
        r@ == escape_html_spec(s@),
{
    proof {
        reveal_strlit("&");
        reveal_strlit("<");
        reveal_strlit(">");
        reveal_strlit("\"");
        reveal_strlit("'");
    }
    let a = replace_str(s, "&", "&amp;");
    let b = replace_str(&a, "<", "&lt;");
    let c = replace_str(&b, ">", "&gt;");
    let d = replace_str(&c, "\"", "&quot;");
    replace_str(&d, "'", "&#x27;")
}

/// Replaces the HTML entities for `<`, `>`, `"`, `'` and `&` in `s` by the
/// characters they stand for.
pub fn unescape_html(s: &str) -> (r: String)
    ensures
        r@ == unescape_html_spec(s@),
{
    let v = unescape_chars(&chars_of(s));
    string_of(&v)
}

/// `unescape_html` on characters.
pub fn unescape_chars(s: &Vec<char>) -> (r: Vec<char>)
    ensures
        r@ == unescape_html_spec(s@),
{
    proof {
        reveal_strlit("&lt;");
        reveal_strlit("&gt;");
        reveal_strlit("&quot;");
        reveal_strlit("&#x27;");
        reveal_strlit("&#39;");
        reveal_strlit("&amp;");
    }
    let a = replace_str(s, "&lt;", "<");
    let b = replace_str(&a, "&gt;", ">");
    let c = replace_str(&b, "&quot;", "\"");
    let d = replace_str(&c, "&#x27;", "'");
    let e = replace_str(&d, "&#39;", "'");
    replace_str(&e, "&amp;", "&")
}

/// The pattern that finds the content of a page's `<body>`.
pub const BODY_PATTERN: &'static str = "(?is)<body>\\s*(.*?)\\s*</body>";

/// The pattern of a heading at the start of an article.
pub const HEADING_PATTERN: &'static str = "(?is)^\\s*<h[1-6][^>]*>(.*?)</h[1-6]>\\s*";

/// The pattern of an HTML tag.
pub const TAG_PATTERN: &'static str = "(?is)<[^>]+>";

/// Why an HTML text could not be processed.
#[derive(Debug, PartialEq, Eq)]
pub enum HtmlError {
    /// The page has no `<body>` element.
    MissingBody,
    /// A pattern was refused by the regex engine, with its message.
    BadPattern(String),
}

/// The plain value of an `HtmlError`.
pub open spec fn html_error_view(e: HtmlError) -> Option<Seq<char>> {
    match e {
        HtmlError::MissingBody => None,
        HtmlError::BadPattern(m) => Some(m@),
    }
}

/// What `extract_body` returns for `document`: the first capture group of
/// `BODY_PATTERN`, or the reason there is none.
pub open spec fn extract_body_spec(document: Seq<char>) -> Result<Seq<char>, Option<Seq<char>>> {
    match regex_capture(BODY_PATTERN@, document, 1) {
        Ok(Some((_, _, Some(g), _))) => Ok(g),
        Ok(Some((_, _, None, _))) => Err(None),
        Ok(None) => Err(None),
        Err(m) => Err(Some(m)),
    }
}

/// The plain value of an HTML text result.
pub open spec fn html_result_view(r: Result<String, HtmlError>) -> Result<Seq<char>, Option<Seq<char>>> {
    match r {
        Ok(s) => Ok(s@),
        Err(e) => Err(html_error_view(e)),
    }
}

/// The content of the `<body>` element of `document`, without the white
/// space that surrounds it.
pub fn extract_body(document: &str) -> (r: Result<String, HtmlError>)
    ensures
        html_result_view(r) == extract_body_spec(document@),
{
    match regex_captures(BODY_PATTERN, document, 1) {
        Ok(Some(c)) => match c.group {
            Some(g) => Ok(g),
            None => Err(HtmlError::MissingBody),
        },
        Ok(None) => Err(HtmlError::MissingBody),
        Err(m) => Err(HtmlError::BadPattern(m)),
    }
}

/// The number of characters in the run of non-white-space characters at the
/// start of `s`.
pub open spec fn word_len(s: Seq<char>) -> nat
    decreases s.len(),
{
    if s.len() > 0 && !is_ws(s[0]) {
        1 + word_len(s.drop_first())
    } else {
        0
    }
}

/// The white-space-separated words of `s` (`str::split_whitespace`).
pub open spec fn words(s: Seq<char>) -> Seq<Seq<char>>
    decreases s.len(),
{
    if s.len() == 0 {
        Seq::empty()
    } else if is_ws(s[0]) {
        words(s.drop_first())
    } else {
        let n = word_len(s);
        proof {
            lemma_word_len_bound(s);
        }
        seq![s.take(n as int)] + words(s.skip(n as int))
    }
}

/// The items of `ws` joined by `sep` (`[T]::join`).
pub open spec fn join(ws: Seq<Seq<char>>, sep: Seq<char>) -> Seq<char>
    decreases ws.len(),
{
    if ws.len() == 0 {
        Seq::empty()
    } else if ws.len() == 1 {
        ws[0]
    } else {
        join(ws.drop_last(), sep) + sep + ws.last()
    }
}

/// `s` with its white-space runs collapsed to single spaces and its ends
/// trimmed: its words joined by one space.
pub open spec fn normalize_ws(s: Seq<char>) -> Seq<char> {
    join(words(s), " "@)
}

/// A leading word is no longer than `s`, and empty only where `s` starts
/// with white space or is empty.
pub proof fn lemma_word_len_bound(s: Seq<char>)
    ensures
        word_len(s) <= s.len(),
        word_len(s) > 0 <==> (s.len() > 0 && !is_ws(s[0])),
    decreases s.len(),
{
    if s.len() > 0 && !is_ws(s[0]) {
        lemma_word_len_bound(s.drop_first());
    }
}

/// The words of `s`.
pub fn split_whitespace(s: &Vec<char>) -> (r: Vec<Vec<char>>)
    ensures
        r@.map_values(|w: Vec<char>| w@) == words(s@),
{
    let mut out: Vec<Vec<char>> = Vec::new();
    let mut i: usize = 0;
    assert(s@.skip(0) =~= s@);
    while i < s.len()
        invariant
            i <= s.len(),
            words(s@) == out@.map_values(|w: Vec<char>| w@) + words(s@.skip(i as int)),
        decreases s.len() - i,
    {
        let ghost t = s@.skip(i as int);
        if is_whitespace(s[i]) {
            assert(t.drop_first() =~= s@.skip(i + 1));
            i = i + 1;
        } else {
            let mut j: usize = i;
            assert(s@.skip(j as int) =~= t);
            while j < s.len() && !is_whitespace(s[j])
                invariant
                    i <= j <= s.len(),
                    word_len(t) == (j - i) + word_len(s@.skip(j as int)),
                decreases s.len() - j,
            {
                assert(s@.skip(j as int).drop_first() =~= s@.skip(j + 1));
                j = j + 1;
            }
            assert(word_len(s@.skip(j as int)) == 0);
            proof {
                lemma_word_len_bound(t);
            }
            let mut w: Vec<char> = Vec::new();
            let mut k: usize = i;
            while k < j
                invariant
                    i <= k <= j <= s.len(),
                    w@ == s@.subrange(i as int, k as int),
                decreases j - k,
            {
                w.push(s[k]);
                k = k + 1;
                assert(s@.subrange(i as int, k as int) =~= s@.subrange(i as int, k - 1) + seq![
                    s@[k - 1],
                ]);
            }
            let ghost before = out@;
            out.push(w);
            assert(t.take((j - i) as int) =~= s@.subrange(i as int, j as int));
            assert(t.skip((j - i) as int) =~= s@.skip(j as int));
            assert(out@.map_values(|w: Vec<char>| w@) =~= before.map_values(|w: Vec<char>| w@)
                + seq![s@.subrange(i as int, j as int)]);
            i = j;
        }
    }
    assert(s@.skip(i as int) =~= Seq::<char>::empty());
    assert(words(s@.skip(i as int)) =~= Seq::<Seq<char>>::empty());
    assert(out@.map_values(|w: Vec<char>| w@) + Seq::<Seq<char>>::empty() =~= out@.map_values(
        |w: Vec<char>| w@,
    ));
    out
}

/// The items of `ws` joined by `sep`.
pub fn join_exec(ws: &Vec<Vec<char>>, sep: &str) -> (r: Vec<char>)
    ensures
        r@ == join(ws@.map_values(|w: Vec<char>| w@), sep@),
{
    let ghost m = ws@.map_values(|w: Vec<char>| w@);
    let mut out: Vec<char> = Vec::new();
    let mut i: usize = 0;
    while i < ws.len()
        invariant
            i <= ws.len(),
            m == ws@.map_values(|w: Vec<char>| w@),
            out@ == join(m.take(i as int), sep@),
        decreases ws.len() - i,
    {
        assert(m.take(i + 1).drop_last() =~= m.take(i as int));
        if i > 0 {
            push_str(&mut out, sep);
        } else {
            assert(m.take(0) =~= Seq::<Seq<char>>::empty());
        }
        push_chars(&mut out, &ws[i]);
        i = i + 1;
    }
    assert(m.take(ws.len() as int) =~= m);
    out
}

/// `s` with its white space normalized.
pub fn normalize_ws_exec(s: &Vec<char>) -> (r: Vec<char>)
    ensures
        r@ == normalize_ws(s@),
{
    let ws = split_whitespace(s);
    join_exec(&ws, " ")
}

/// Removing leading white space removes a prefix.
pub proof fn lemma_trim_start_is_skip(s: Seq<char>) -> (k: int)
    ensures
        0 <= k <= s.len(),
        trim_start(s) == s.skip(k),
    decreases s.len(),
{
    if s.len() > 0 && is_ws(s[0]) {
        let j = lemma_trim_start_is_skip(s.drop_first());
        assert(s.drop_first().skip(j) =~= s.skip(j + 1));
        j + 1
    } else {
        assert(s.skip(0) =~= s);
        0
    }
}

/// What `strip_duplicate_title` returns for `body` and `title`.
pub open spec fn strip_duplicate_title_spec(body: Seq<char>, title: Seq<char>) -> Result<
    Seq<char>,
    Option<Seq<char>>,
> {
    match regex_capture(HEADING_PATTERN@, body, 1) {
        Err(m) => Err(Some(m)),
        Ok(None) => Ok(body),
        Ok(Some((_, _, group, after))) => {
            let heading_html = match group {
                Some(g) => g,
                None => Seq::empty(),
            };
            match regex_replaced(TAG_PATTERN@, heading_html, ""@) {
                Err(m) => Err(Some(m)),
                Ok(heading_text) => if normalize_ws(unescape_html_spec(heading_text))
                    == normalize_ws(title) {
                    Ok(trim_start(after))
                } else {
                    Ok(body)
                },
            }
        },
    }
}

/// Removes a heading at the start of `body` whose text, once its tags are
/// removed, its entities unescaped and its white space normalized, equals
/// the normalized `title`; the white space that follows the heading goes
/// too. Any other body is returned as it is.
pub fn strip_duplicate_title(body: &str, title: &str) -> (r: Result<String, HtmlError>)
    ensures
        html_result_view(r) == strip_duplicate_title_spec(body@, title@),
        r matches Ok(a) ==> exists|k: int| 0 <= k <= body@.len() && a@ == body@.skip(k),
{
    let caps = match regex_captures(HEADING_PATTERN, body, 1) {
        Err(m) => {
            return Err(HtmlError::BadPattern(m));
        },
        Ok(None) => {
            assert(body@.skip(0) =~= body@);
            return Ok(string_of(&chars_of(body)));
        },
        Ok(Some(c)) => c,
    };
    proof {
        reveal_strlit("");
    }
    let heading_html = match &caps.group {
        Some(g) => g.as_str(),
        None => "",
    };
    assert(heading_html@ == (match split_view(caps).2 {
        Some(g) => g,
        None => Seq::<char>::empty(),
    }));
    let heading_text = match regex_replace_all(TAG_PATTERN, heading_html, "") {
        Err(m) => {
            return Err(HtmlError::BadPattern(m));
        },
        Ok(t) => t,
    };
    let unescaped = unescape_chars(&chars_of(heading_text.as_str()));
    let normalized_heading = normalize_ws_exec(&unescaped);
    let normalized_title = normalize_ws_exec(&chars_of(title));
    if vec_eq(&normalized_heading, &normalized_title) {
        let rest = trim_start_exec(&chars_of(caps.after.as_str()));
        proof {
            let k: int = (caps.before@.len() + caps.whole@.len()) as int;
            assert(caps.after@ =~= body@.skip(k));
            let j = lemma_trim_start_is_skip(caps.after@);
            assert(body@.skip(k).skip(j) =~= body@.skip(k + j));
        }
        Ok(string_of(&rest))
    } else {
        assert(body@.skip(0) =~= body@);
        Ok(string_of(&chars_of(body)))
    }
}

/// The text of the heading at the start of `body`, as the regex crate
/// finds it and removes its tags, with its entities unescaped and its white
/// space normalized.
pub open spec fn leading_heading_text(body: Seq<char>) -> Option<Seq<char>> {
    match regex_capture(HEADING_PATTERN@, body, 1) {
        Ok(Some((_, _, group, _))) => match regex_replaced(
            TAG_PATTERN@,
            match group {
                Some(g) => g,
                None => Seq::empty(),
            },
            ""@,
        ) {
            Ok(t) => Some(normalize_ws(unescape_html_spec(t))),
            Err(_) => None,
        },
        _ => None,
    }
}

/// A heading is dropped only when it repeats the title: whenever
/// `strip_duplicate_title` returns something other than the body, the
/// body starts with a heading whose text equals the title, white space
/// normalized on both sides; where the texts differ, the body comes back
/// unchanged; where they are equal, what follows the heading comes back,
/// without its leading white space.
pub proof fn law_heading_dropped_only_for_the_title(body: Seq<char>, title: Seq<char>)
    ensures
        strip_duplicate_title_spec(body, title) matches Ok(r) && r != body ==> leading_heading_text(
            body,
        ) == Some(normalize_ws(title)),
        leading_heading_text(body) matches Some(h) && h != normalize_ws(title)
            ==> strip_duplicate_title_spec(body, title) == Ok::<Seq<char>, Option<Seq<char>>>(body),
        leading_heading_text(body) == Some(normalize_ws(title)) ==> (regex_capture(
            HEADING_PATTERN@,
            body,
            1,
        ) matches Ok(Some((_, _, _, after))) && strip_duplicate_title_spec(body, title) == Ok::<
            Seq<char>,
            Option<Seq<char>>,
        >(trim_start(after))),
{
}

/// Of two titles whose normalized texts differ, at most one has its
/// heading dropped from a body: the heading is compared with the whole
/// title, not a part of it.
pub proof fn law_one_title_per_heading(body: Seq<char>, t1: Seq<char>, t2: Seq<char>)
    requires
        strip_duplicate_title_spec(body, t1) matches Ok(r1) && r1 != body,
        strip_duplicate_title_spec(body, t2) matches Ok(r2) && r2 != body,
    ensures
        normalize_ws(t1) == normalize_ws(t2),
{
    law_heading_dropped_only_for_the_title(body, t1);
    law_heading_dropped_only_for_the_title(body, t2);
}

/// Titles that differ only in their white space are treated alike.
pub proof fn law_title_white_space_is_ignored(body: Seq<char>, t1: Seq<char>, t2: Seq<char>)
    requires
        normalize_ws(t1) == normalize_ws(t2),
    ensures
        strip_duplicate_title_spec(body, t1) == strip_duplicate_title_spec(body, t2),
{
}

} // verus!
