//! The Markdown copy of a post: the Typst source without its metadata block,
//! handed to pandoc, and the YAML front matter put before pandoc's output.

use crate::config::SiteConfigFile;
use crate::date::{formatted_date, iso_date, ISO_DATE_FORMAT};
use crate::html::{join, join_exec};
use crate::matcher::{regex_capture, regex_captures};
use crate::post::Post;
use crate::render::absolute_url_spec;
use crate::text::{
    chars_of, contains, contains_exec, is_ws, push_chars, push_str, repeat, repeat_exec, replace,
    replace_str, string_of, trim, trim_end_exec, trim_start, trim_start_exec,
};
use vstd::prelude::*;

verus! {

/// The length of the first line of `s`: the characters before its first
/// `\n`, or all of `s` where there is none.
pub open spec fn line_len(s: Seq<char>) -> nat
    decreases s.len(),
{
    if s.len() == 0 || s[0] == '\n' {
        0
    } else {
        1 + line_len(s.drop_first())
    }
}

/// The lines of `s` (`str::lines`): split after each `\n`, each line that a
/// `\n` ends losing that `\n` and then one `\r` before it; a last line
/// without `\n` is kept as it is, and nothing follows a final `\n`.
pub open spec fn lines(s: Seq<char>) -> Seq<Seq<char>>
    decreases s.len(),
{
    if s.len() == 0 {
        Seq::empty()
    } else {
        let n = line_len(s);
        if n < s.len() {
            let line = s.take(n as int);
            let line = if line.len() > 0 && line.last() == '\r' {
                line.drop_last()
            } else {
                line
            };
            proof {
                lemma_line_len(s);
            }
            seq![line] + lines(s.skip(n as int + 1))
        } else {
            seq![s]
        }
    }
}

/// The first line of `s` ends at its first `\n`, or at its end.
pub proof fn lemma_line_len(s: Seq<char>)
    ensures
        line_len(s) <= s.len(),
        line_len(s) < s.len() ==> s[line_len(s) as int] == '\n',
        forall|k: int| 0 <= k < line_len(s) ==> s[k] != '\n',
    decreases s.len(),
{
    if s.len() > 0 && s[0] != '\n' {
        lemma_line_len(s.drop_first());
        assert forall|k: int| 0 <= k < line_len(s) implies s[k] != '\n' by {
            if k > 0 {
                assert(s[k] == s.drop_first()[k - 1]);
            }
        }
    }
}

/// The lines of `s` that are kept once the `#metadata(` block is removed,
/// `skipping` telling whether a block is open: a line whose trimmed start is
/// `#metadata(` opens a block (unless one is open), a line holding
/// `<post-meta>` closes it, and the lines of a block, its first and last
/// included, are dropped.
pub open spec fn kept_lines(lines: Seq<Seq<char>>, skipping: bool) -> Seq<Seq<char>>
    decreases lines.len(),
{
    if lines.len() == 0 {
        Seq::empty()
    } else {
        let line = lines[0];
        let rest = lines.drop_first();
        let closes = contains(line, "<post-meta>"@);
        if !skipping && "#metadata("@.is_prefix_of(trim_start(line)) {
            kept_lines(rest, !closes)
        } else if skipping {
            kept_lines(rest, !closes)
        } else {
            seq![line] + kept_lines(rest, false)
        }
    }
}

/// No kept line opens a metadata block.
pub proof fn law_kept_lines_open_no_block(lines: Seq<Seq<char>>, skipping: bool)
    ensures
        forall|i: int|
            0 <= i < kept_lines(lines, skipping).len() ==> !"#metadata("@.is_prefix_of(
                trim_start(#[trigger] kept_lines(lines, skipping)[i]),
            ),
    decreases lines.len(),
{
    if lines.len() > 0 {
        let line = lines[0];
        let rest = lines.drop_first();
        let closes = contains(line, "<post-meta>"@);
        law_kept_lines_open_no_block(rest, !closes);
        law_kept_lines_open_no_block(rest, false);
        if skipping || "#metadata("@.is_prefix_of(trim_start(line)) {
            let k = kept_lines(lines, skipping);
            assert(k == kept_lines(rest, !closes));
            assert forall|i: int| 0 <= i < k.len() implies !"#metadata("@.is_prefix_of(
                trim_start(#[trigger] k[i]),
            ) by {
                assert(k[i] == kept_lines(rest, !closes)[i]);
            }
        } else {
            let k = kept_lines(lines, skipping);
            assert forall|i: int| 0 <= i < k.len() implies !"#metadata("@.is_prefix_of(
                trim_start(#[trigger] k[i]),
            ) by {
                if i > 0 {
                    assert(k[i] == kept_lines(rest, false)[i - 1]);
                }
            }
        }
    }
}

/// A source without a metadata block keeps all its lines.
pub proof fn law_no_block_keeps_every_line(lines: Seq<Seq<char>>)
    requires
        forall|i: int| 0 <= i < lines.len() ==> !"#metadata("@.is_prefix_of(trim_start(#[trigger] lines[i])),
    ensures
        kept_lines(lines, false) == lines,
    decreases lines.len(),
{
    if lines.len() > 0 {
        let rest = lines.drop_first();
        assert forall|i: int| 0 <= i < rest.len() implies !"#metadata("@.is_prefix_of(
            trim_start(#[trigger] rest[i]),
        ) by {
            assert(rest[i] == lines[i + 1]);
        }
        law_no_block_keeps_every_line(rest);
        assert(!"#metadata("@.is_prefix_of(trim_start(lines[0])));
        assert(seq![lines[0]] + rest =~= lines);
    }
}

/// The Typst source `source` without its metadata block, its leading white
/// space removed and a newline added.
pub open spec fn strip_post_metadata_spec(source: Seq<char>) -> Seq<char> {
    trim_start(join(kept_lines(lines(source), false), "\n"@)) + "\n"@
}

/// Whether no character of `s` is a line feed.
pub open spec fn no_newline(s: Seq<char>) -> bool {
    forall|i: int| 0 <= i < s.len() ==> s[i] != '\n'
}

/// Whether `s` does not end with a carriage return.
pub open spec fn no_cr_end(s: Seq<char>) -> bool {
    !(s.len() > 0 && s.last() == '\r')
}

/// The first line of `a`, a line feed, then `b`, is `a`.
proof fn lemma_line_len_of_line(a: Seq<char>, b: Seq<char>)
    requires
        no_newline(a),
    ensures
        line_len(a + "\n"@ + b) == a.len(),
    decreases a.len(),
{
    reveal_strlit("\n");
    if a.len() > 0 {
        assert((a + "\n"@ + b).drop_first() =~= a.drop_first() + "\n"@ + b);
        lemma_line_len_of_line(a.drop_first(), b);
    }
}

/// No line of `s` holds a line feed.
proof fn lemma_lines_no_newline(s: Seq<char>)
    ensures
        forall|i: int| 0 <= i < lines(s).len() ==> no_newline(#[trigger] lines(s)[i]),
    decreases s.len(),
{
    if s.len() > 0 {
        let n = line_len(s);
        lemma_line_len(s);
        if n < s.len() {
            lemma_lines_no_newline(s.skip(n as int + 1));
            let line = s.take(n as int);
            assert(no_newline(line));
            assert(no_newline(line.drop_last()) || line.len() == 0);
            assert forall|i: int| 0 <= i < lines(s).len() implies no_newline(#[trigger] lines(s)[i]) by {
                if i > 0 {
                    assert(lines(s)[i] == lines(s.skip(n as int + 1))[i - 1]);
                }
            }
        }
    }
}

/// Every kept line is one of the lines.
proof fn lemma_kept_lines_are_lines(ls: Seq<Seq<char>>, skipping: bool)
    ensures
        forall|i: int|
            0 <= i < kept_lines(ls, skipping).len() ==> ls.contains(#[trigger] kept_lines(ls, skipping)[i]),
    decreases ls.len(),
{
    if ls.len() > 0 {
        let rest = ls.drop_first();
        let closes = contains(ls[0], "<post-meta>"@);
        lemma_kept_lines_are_lines(rest, !closes);
        lemma_kept_lines_are_lines(rest, false);
        let k = kept_lines(ls, skipping);
        assert forall|i: int| 0 <= i < k.len() implies ls.contains(#[trigger] k[i]) by {
            if skipping || "#metadata("@.is_prefix_of(trim_start(ls[0])) {
                let j = choose|j: int| 0 <= j < rest.len() && rest[j] == kept_lines(rest, !closes)[i];
                assert(ls[j + 1] == k[i]);
            } else if i == 0 {
                assert(ls[0] == k[0]);
            } else {
                let j = choose|j: int| 0 <= j < rest.len() && rest[j] == kept_lines(rest, false)[i - 1];
                assert(ls[j + 1] == k[i]);
            }
        }
    }
}

/// `join` taken apart at its first piece.
proof fn lemma_join_front(ws: Seq<Seq<char>>, sep: Seq<char>)
    requires
        ws.len() >= 2,
    ensures
        join(ws, sep) == ws[0] + sep + join(ws.drop_first(), sep),
    decreases ws.len(),
{
    let dl = ws.drop_last();
    let df = ws.drop_first();
    if ws.len() == 2 {
        assert(join(dl, sep) == dl[0]);
        assert(join(df, sep) == df[0]);
        assert(dl[0] == ws[0] && df[0] == ws.last());
    } else {
        lemma_join_front(dl, sep);
        assert(dl.drop_first() =~= df.drop_last());
        assert(df.last() == ws.last());
        assert(dl[0] == ws[0]);
        let j = join(dl.drop_first(), sep);
        assert(ws[0] + sep + j + sep + ws.last() =~= ws[0] + sep + (j + sep + ws.last()));
    }
}

/// Leading white space that covers all of `a` is removed together with
/// that of `b`.
proof fn lemma_trim_start_blank(a: Seq<char>, b: Seq<char>)
    requires
        trim_start(a).len() == 0,
    ensures
        trim_start(a + b) == trim_start(b),
    decreases a.len(),
{
    if a.len() > 0 {
        assert((a + b).drop_first() =~= a.drop_first() + b);
        lemma_trim_start_blank(a.drop_first(), b);
    } else {
        assert(a + b =~= b);
    }
}

/// Where `a` holds more than white space, trimming `a + b` trims `a` only.
proof fn lemma_trim_start_prefix(a: Seq<char>, b: Seq<char>)
    requires
        trim_start(a).len() > 0,
    ensures
        trim_start(a + b) == trim_start(a) + b,
    decreases a.len(),
{
    if a.len() > 0 && is_ws(a[0]) {
        assert((a + b).drop_first() =~= a.drop_first() + b);
        lemma_trim_start_prefix(a.drop_first(), b);
    }
}

/// Trimming twice trims once.
proof fn lemma_trim_start_twice(a: Seq<char>)
    ensures
        trim_start(trim_start(a)) == trim_start(a),
    decreases a.len(),
{
    if a.len() > 0 && is_ws(a[0]) {
        lemma_trim_start_twice(a.drop_first());
    }
}

/// The lines that remain once the leading white space of the lines `k`,
/// joined, is removed: the blank lines at the start go, and the first other
/// line loses its leading white space; one empty line where nothing else
/// remains.
pub open spec fn trimmed_lines(k: Seq<Seq<char>>) -> Seq<Seq<char>>
    decreases k.len(),
{
    if k.len() == 0 {
        seq![Seq::empty()]
    } else if trim_start(k[0]).len() == 0 {
        if k.len() == 1 {
            seq![Seq::empty()]
        } else {
            trimmed_lines(k.drop_first())
        }
    } else {
        seq![trim_start(k[0])] + k.drop_first()
    }
}

/// Removing the leading white space of joined lines leaves the trimmed
/// lines, joined.
proof fn lemma_trim_start_join(k: Seq<Seq<char>>)
    ensures
        trim_start(join(k, "\n"@)) == join(trimmed_lines(k), "\n"@),
    decreases k.len(),
{
    reveal_strlit("\n");
    if k.len() >= 2 {
        lemma_join_front(k, "\n"@);
        let rest = join(k.drop_first(), "\n"@);
        assert(k[0] + "\n"@ + rest =~= k[0] + ("\n"@ + rest));
        if trim_start(k[0]).len() == 0 {
            lemma_trim_start_blank(k[0], "\n"@ + rest);
            assert(("\n"@ + rest).drop_first() =~= rest);
            lemma_trim_start_join(k.drop_first());
        } else {
            lemma_trim_start_prefix(k[0], "\n"@ + rest);
            let t = seq![trim_start(k[0])] + k.drop_first();
            lemma_join_front(t, "\n"@);
            assert(t.drop_first() =~= k.drop_first());
            assert(trim_start(k[0]) + ("\n"@ + rest) =~= trim_start(k[0]) + "\n"@ + rest);
        }
    }
}

/// Trimmed lines keep what the lines had: no line feed, no carriage return
/// at the end, no opening of a metadata block; and there is at least one.
proof fn lemma_trimmed_lines_keep(k: Seq<Seq<char>>)
    requires
        forall|i: int| 0 <= i < k.len() ==> no_newline(#[trigger] k[i]) && no_cr_end(k[i]),
        forall|i: int| 0 <= i < k.len() ==> !"#metadata("@.is_prefix_of(trim_start(#[trigger] k[i])),
    ensures
        trimmed_lines(k).len() > 0,
        forall|i: int|
            0 <= i < trimmed_lines(k).len() ==> no_newline(#[trigger] trimmed_lines(k)[i]) && no_cr_end(
                trimmed_lines(k)[i],
            ),
        forall|i: int|
            0 <= i < trimmed_lines(k).len() ==> !"#metadata("@.is_prefix_of(
                trim_start(#[trigger] trimmed_lines(k)[i]),
            ),
    decreases k.len(),
{
    reveal_strlit("#metadata(");
    let t = trimmed_lines(k);
    if k.len() == 0 || (trim_start(k[0]).len() == 0 && k.len() == 1) {
        assert(t[0] =~= Seq::<char>::empty());
        assert(trim_start(Seq::<char>::empty()) =~= Seq::<char>::empty());
    } else if trim_start(k[0]).len() == 0 {
        let rest = k.drop_first();
        assert forall|i: int| 0 <= i < rest.len() implies no_newline(#[trigger] rest[i]) && no_cr_end(
            rest[i],
        ) && !"#metadata("@.is_prefix_of(trim_start(rest[i])) by {
            assert(rest[i] == k[i + 1]);
        }
        lemma_trimmed_lines_keep(rest);
    } else {
        let j = crate::html::lemma_trim_start_is_skip(k[0]);
        let first = trim_start(k[0]);
        assert(no_newline(first)) by {
            assert forall|i: int| 0 <= i < first.len() implies first[i] != '\n' by {
                assert(first[i] == k[0][i + j]);
            }
        }
        assert(first.last() == k[0].last());
        lemma_trim_start_twice(k[0]);
        assert forall|i: int| 0 <= i < t.len() implies no_newline(#[trigger] t[i]) && no_cr_end(t[i])
            && !"#metadata("@.is_prefix_of(trim_start(t[i])) by {
            if i > 0 {
                assert(t[i] == k[i]);
            }
        }
    }
}

/// The lines of joined lines, with a line feed after the last, are those
/// lines, where none holds a line feed or ends with a carriage return.
proof fn lemma_lines_of_join(m: Seq<Seq<char>>)
    requires
        m.len() > 0,
        forall|i: int| 0 <= i < m.len() ==> no_newline(#[trigger] m[i]) && no_cr_end(m[i]),
    ensures
        lines(join(m, "\n"@) + "\n"@) == m,
    decreases m.len(),
{
    reveal_strlit("\n");
    let x = join(m, "\n"@) + "\n"@;
    if m.len() == 1 {
        lemma_line_len_of_line(m[0], Seq::empty());
        assert(m[0] + "\n"@ + Seq::<char>::empty() =~= x);
        assert(x.take(m[0].len() as int) =~= m[0]);
        assert(x.skip(m[0].len() as int + 1) =~= Seq::<char>::empty());
        assert(line_len(x) == m[0].len());
        assert(lines(Seq::<char>::empty()) =~= Seq::<Seq<char>>::empty());
        assert(lines(x) =~= seq![m[0]] + lines(x.skip(m[0].len() as int + 1)));
        assert(lines(x) =~= m);
    } else {
        lemma_join_front(m, "\n"@);
        let rest = join(m.drop_first(), "\n"@) + "\n"@;
        assert(x =~= m[0] + "\n"@ + rest);
        lemma_line_len_of_line(m[0], rest);
        assert(x.take(m[0].len() as int) =~= m[0]);
        assert(x.skip(m[0].len() as int + 1) =~= rest);
        assert forall|i: int| 0 <= i < m.drop_first().len() implies no_newline(
            #[trigger] m.drop_first()[i],
        ) && no_cr_end(m.drop_first()[i]) by {
            assert(m.drop_first()[i] == m[i + 1]);
        }
        lemma_lines_of_join(m.drop_first());
        assert(lines(x) =~= seq![m[0]] + m.drop_first());
        assert(seq![m[0]] + m.drop_first() =~= m);
    }
}

/// Removing the metadata block twice removes it once, for a source none of
/// whose lines ends with a carriage return.
pub proof fn law_strip_post_metadata_idempotent(source: Seq<char>)
    requires
        forall|i: int| 0 <= i < lines(source).len() ==> no_cr_end(#[trigger] lines(source)[i]),
    ensures
        strip_post_metadata_spec(strip_post_metadata_spec(source)) == strip_post_metadata_spec(source),
{
    reveal_strlit("\n");
    let ls = lines(source);
    let k = kept_lines(ls, false);
    lemma_lines_no_newline(source);
    lemma_kept_lines_are_lines(ls, false);
    law_kept_lines_open_no_block(ls, false);
    assert forall|i: int| 0 <= i < k.len() implies no_newline(#[trigger] k[i]) && no_cr_end(k[i]) by {
        let j = choose|j: int| 0 <= j < ls.len() && ls[j] == k[i];
        assert(no_newline(ls[j]) && no_cr_end(ls[j]));
    }
    lemma_trimmed_lines_keep(k);
    let m = trimmed_lines(k);
    lemma_trim_start_join(k);
    let t = join(m, "\n"@);
    let r = strip_post_metadata_spec(source);
    assert(r == t + "\n"@);
    lemma_lines_of_join(m);
    law_no_block_keeps_every_line(m);
    lemma_trim_start_twice(join(k, "\n"@));
}

/// The lines of `s`.
pub fn split_lines(s: &Vec<char>) -> (r: Vec<Vec<char>>)
    ensures
        r@.map_values(|w: Vec<char>| w@) == lines(s@),
{
    let mut out: Vec<Vec<char>> = Vec::new();
    let mut i: usize = 0;
    assert(s@.skip(0) =~= s@);
    while i < s.len()
        invariant
            i <= s.len(),
            lines(s@) == out@.map_values(|w: Vec<char>| w@) + lines(s@.skip(i as int)),
        decreases s.len() - i,
    {
        let ghost t = s@.skip(i as int);
        let mut j: usize = i;
        assert(s@.skip(j as int) =~= t);
        while j < s.len() && s[j] != '\n'
            invariant
                i <= j <= s.len(),
                line_len(t) == (j - i) + line_len(s@.skip(j as int)),
            decreases s.len() - j,
        {
            assert(s@.skip(j as int).drop_first() =~= s@.skip(j + 1));
            j = j + 1;
        }
        assert(line_len(s@.skip(j as int)) == 0);
        proof {
            lemma_line_len(t);
        }
        let ghost before = out@;
        if j < s.len() {
            let mut end = j;
            if end > i && s[end - 1] == '\r' {
                end = end - 1;
            }
            let mut w: Vec<char> = Vec::new();
            let mut k: usize = i;
            while k < end
                invariant
                    i <= k <= end <= j < s.len(),
                    w@ == s@.subrange(i as int, k as int),
                decreases end - k,
            {
                w.push(s[k]);
                k = k + 1;
                assert(s@.subrange(i as int, k as int) =~= s@.subrange(i as int, k - 1) + seq![
                    s@[k - 1],
                ]);
            }
            proof {
                let line = t.take((j - i) as int);
                assert(line =~= s@.subrange(i as int, j as int));
                if line.len() > 0 && line.last() == '\r' {
                    assert(line.drop_last() =~= w@);
                } else {
                    assert(line =~= w@);
                }
                assert(t.skip((j - i) + 1) =~= s@.skip(j + 1));
            }
            out.push(w);
            assert(out@.map_values(|w: Vec<char>| w@) =~= before.map_values(|w: Vec<char>| w@)
                + seq![out@[before.len() as int]@]);
            i = j + 1;
        } else {
            let mut w: Vec<char> = Vec::new();
            let mut k: usize = i;
            while k < j
                invariant
                    i <= k <= j <= s.len(),
                    w@ == s@.subrange(i as int, k as int),
                decreases j - k,
            {
                w.push(s[k]);
                k = k + 1;
                assert(s@.subrange(i as int, k as int) =~= s@.subrange(i as int, k - 1) + seq![
                    s@[k - 1],
                ]);
            }
            assert(w@ =~= t);
            out.push(w);
            assert(out@.map_values(|w: Vec<char>| w@) =~= before.map_values(|w: Vec<char>| w@)
                + seq![t]);
            i = j;
            assert(s@.skip(i as int) =~= Seq::<char>::empty());
        }
    }
    assert(s@.skip(i as int) =~= Seq::<char>::empty());
    assert(out@.map_values(|w: Vec<char>| w@) + Seq::<Seq<char>>::empty() =~= out@.map_values(
        |w: Vec<char>| w@,
    ));
    out
}

/// Whether `p` is a prefix of `s`.
fn starts_with_exec(s: &Vec<char>, p: &Vec<char>) -> (r: bool)
    ensures
        r == p@.is_prefix_of(s@),
{
    if p.len() > s.len() {
        return false;
    }
    let mut j: usize = 0;
    while j < p.len()
        invariant
            j <= p.len() <= s.len(),
            forall|k: int| 0 <= k < j ==> s@[k] == p@[k],
        decreases p.len() - j,
    {
        if s[j] != p[j] {
            assert(s@.subrange(0, p.len() as int)[j as int] != p@[j as int]);
            return false;
        }
        j = j + 1;
    }
    assert(p@ =~= s@.subrange(0, p.len() as int));
    true
}

/// Removes the `#metadata(...) <post-meta>` block from a post's Typst
/// source, so that pandoc sees only the text.
pub fn strip_post_metadata(source: &str) -> (r: String)
    ensures
        r@ == strip_post_metadata_spec(source@),
{
    let all = split_lines(&chars_of(source));
    let ghost ls = all@.map_values(|w: Vec<char>| w@);
    let opener = chars_of("#metadata(");
    let closer = chars_of("<post-meta>");
    let mut kept: Vec<Vec<char>> = Vec::new();
    let mut skip = false;
    let mut i: usize = 0;
    assert(ls.skip(0) =~= ls);
    while i < all.len()
        invariant
            i <= all.len(),
            ls == all@.map_values(|w: Vec<char>| w@),
            opener@ == "#metadata("@,
            closer@ == "<post-meta>"@,
            kept_lines(ls, false) == kept@.map_values(|w: Vec<char>| w@) + kept_lines(
                ls.skip(i as int),
                skip,
            ),
        decreases all.len() - i,
    {
        let ghost t = ls.skip(i as int);
        assert(t[0] == all@[i as int]@);
        assert(t.drop_first() =~= ls.skip(i + 1));
        let line = &all[i];
        let closes = contains_exec(line, &closer);
        if !skip && starts_with_exec(&trim_start_exec(line), &opener) {
            skip = !closes;
        } else if skip {
            skip = !closes;
        } else {
            let mut copy: Vec<char> = Vec::new();
            push_chars(&mut copy, line);
            let ghost before = kept@;
            kept.push(copy);
            assert(kept@.map_values(|w: Vec<char>| w@) =~= before.map_values(|w: Vec<char>| w@)
                + seq![t[0]]);
            assert(before.map_values(|w: Vec<char>| w@) + (seq![t[0]] + kept_lines(ls.skip(i + 1), false))
                =~= kept@.map_values(|w: Vec<char>| w@) + kept_lines(ls.skip(i + 1), false));
        }
        i = i + 1;
    }
    assert(ls.skip(i as int) =~= Seq::<Seq<char>>::empty());
    assert(kept@.map_values(|w: Vec<char>| w@) + Seq::<Seq<char>>::empty() =~= kept@.map_values(
        |w: Vec<char>| w@,
    ));
    let joined = join_exec(&kept, "\n");
    let mut out = trim_start_exec(&joined);
    push_str(&mut out, "\n");
    string_of(&out)
}

/// `value` made safe inside a double-quoted YAML string: backslashes
/// doubled, then double quotes preceded by a backslash.
pub open spec fn yaml_quote_spec(value: Seq<char>) -> Seq<char> {
    replace(replace(value, "\\"@, "\\\\"@), "\""@, "\\\""@)
}

/// `value` made safe inside a double-quoted YAML string.
pub fn yaml_quote(value: &str) -> (r: String)
    ensures
        r@ == yaml_quote_spec(value@),
{
    let v = yaml_quote_chars(&chars_of(value));
    string_of(&v)
}

/// `yaml_quote` on characters.
fn yaml_quote_chars(value: &Vec<char>) -> (r: Vec<char>)
    ensures
        r@ == yaml_quote_spec(value@),
{
    proof {
        reveal_strlit("\\");
        reveal_strlit("\"");
    }
    let a = replace_str(value, "\\", "\\\\");
    replace_str(&a, "\"", "\\\"")
}

/// The lines that list the tags in the front matter: one quoted item per
/// tag, or `  []` where there are none.
pub open spec fn tag_lines(tags: Seq<Seq<char>>) -> Seq<Seq<char>> {
    if tags.len() == 0 {
        seq!["  []"@]
    } else {
        tags.map_values(|t: Seq<char>| "  - \""@ + yaml_quote_spec(t) + "\""@)
    }
}

/// The front matter of the Markdown copy of `post`: its title, date and
/// tags, and, where the site has an address, the address of the post's
/// page.
pub open spec fn front_matter(site: SiteConfigFile, post: Post) -> Seq<Seq<char>> {
    let source_url = absolute_url_spec(site.base_url@, "posts/"@ + post.slug@ + "/"@);
    let head = seq![
        "---"@,
        "title: \""@ + yaml_quote_spec(post.title@) + "\""@,
        "date: \""@ + formatted_date(post.date.year as int, post.date.month as int, post.date.day as int, ISO_DATE_FORMAT@) + "\""@,
        "tags:"@,
    ] + tag_lines(post.tags@.map_values(|t: String| t@));
    let with_source = if source_url.len() == 0 {
        head
    } else {
        head + seq!["source: \""@ + yaml_quote_spec(source_url) + "\""@]
    };
    with_source + seq!["---"@]
}

/// The Markdown copy of `post`: its front matter, a blank line, and pandoc's
/// output `body` trimmed, ending with a newline.
pub open spec fn markdown_spec(site: SiteConfigFile, post: Post, body: Seq<char>) -> Seq<char> {
    join(front_matter(site, post), "\n"@) + "\n\n"@ + trim(body) + "\n"@
}

/// Appends `w` to the list `v` of lines.
fn push_line(v: &mut Vec<Vec<char>>, w: Vec<char>)
    ensures
        final(v)@.map_values(|x: Vec<char>| x@) == old(v)@.map_values(|x: Vec<char>| x@) + seq![w@],
{
    let ghost before = v@;
    v.push(w);
    assert(v@.map_values(|x: Vec<char>| x@) =~= before.map_values(|x: Vec<char>| x@) + seq![w@]);
}

/// The line `prefix`, `value` made safe for YAML, and a closing quote.
fn quoted_line(prefix: &str, value: &Vec<char>) -> (r: Vec<char>)
    ensures
        r@ == prefix@ + yaml_quote_spec(value@) + "\""@,
{
    let mut l = chars_of(prefix);
    push_chars(&mut l, &yaml_quote_chars(value));
    push_str(&mut l, "\"");
    l
}

/// The Markdown copy of `post` on `site`, around pandoc's output `body`.
pub fn render_markdown(post: &Post, site: &SiteConfigFile, body: &str) -> (r: String)
    ensures
        r@ == markdown_spec(*site, *post, body@),
{
    let mut path = chars_of("posts/");
    push_str(&mut path, post.slug.as_str());
    push_str(&mut path, "/");
    let source_url = crate::render::absolute_url(site, string_of(&path).as_str());
    let mut fm: Vec<Vec<char>> = Vec::new();
    push_line(&mut fm, chars_of("---"));
    push_line(&mut fm, quoted_line("title: \"", &chars_of(post.title.as_str())));
    let mut date_line = chars_of("date: \"");
    push_str(&mut date_line, iso_date(&post.date).as_str());
    push_str(&mut date_line, "\"");
    push_line(&mut fm, date_line);
    push_line(&mut fm, chars_of("tags:"));
    let ghost head = fm@.map_values(|x: Vec<char>| x@);
    let ghost tags = post.tags@.map_values(|t: String| t@);
    let ghost source_url_spec = absolute_url_spec(site.base_url@, "posts/"@ + post.slug@ + "/"@);
    assert(source_url@ == source_url_spec);
    assert(head =~= seq![
        "---"@,
        "title: \""@ + yaml_quote_spec(post.title@) + "\""@,
        "date: \""@ + formatted_date(post.date.year as int, post.date.month as int, post.date.day as int, ISO_DATE_FORMAT@) + "\""@,
        "tags:"@,
    ]);
    if post.tags.len() > 0 {
        let mut i: usize = 0;
        while i < post.tags.len()
            invariant
                i <= post.tags.len(),
                tags == post.tags@.map_values(|t: String| t@),
                fm@.map_values(|x: Vec<char>| x@) == head + tags.map_values(
                    |t: Seq<char>| "  - \""@ + yaml_quote_spec(t) + "\""@,
                ).take(i as int),
            decreases post.tags.len() - i,
        {
            let ghost want = tags.map_values(|t: Seq<char>| "  - \""@ + yaml_quote_spec(t) + "\""@);
            push_line(&mut fm, quoted_line("  - \"", &chars_of(post.tags[i].as_str())));
            assert(want.take(i + 1) =~= want.take(i as int) + seq![want[i as int]]);
            assert(head + want.take(i as int) + seq![want[i as int]] =~= head + want.take(i + 1));
            i = i + 1;
        }
        assert(tags.map_values(|t: Seq<char>| "  - \""@ + yaml_quote_spec(t) + "\""@).take(
            post.tags.len() as int,
        ) =~= tags.map_values(|t: Seq<char>| "  - \""@ + yaml_quote_spec(t) + "\""@));
    } else {
        push_line(&mut fm, chars_of("  []"));
    }
    assert(fm@.map_values(|x: Vec<char>| x@) == head + tag_lines(tags));
    let ghost with_tags = fm@.map_values(|x: Vec<char>| x@);
    if !source_url.as_str().is_empty() {
        push_line(&mut fm, quoted_line("source: \"", &chars_of(source_url.as_str())));
    }
    assert(fm@.map_values(|x: Vec<char>| x@) == if source_url_spec.len() == 0 {
        with_tags
    } else {
        with_tags + seq!["source: \""@ + yaml_quote_spec(source_url_spec) + "\""@]
    });
    push_line(&mut fm, chars_of("---"));
    assert(fm@.map_values(|x: Vec<char>| x@) == front_matter(*site, *post));
    let mut out = join_exec(&fm, "\n");
    push_str(&mut out, "\n\n");
    push_chars(&mut out, &trim_end_exec(&trim_start_exec(&chars_of(body))));
    push_str(&mut out, "\n");
    string_of(&out)
}

/// The pattern of a Typst heading line: its `=` marks, white space, and its
/// title.
pub const HEADING_LINE_PATTERN: &'static str = "^(=+)\\s+(.*)$";

/// A line of the Markdown written without pandoc: a Typst heading line
/// becomes a Markdown heading of the same level, any other line stays as it
/// is.
pub open spec fn fallback_line(line: Seq<char>) -> Seq<char> {
    match (
        regex_capture(HEADING_LINE_PATTERN@, line, 1),
        regex_capture(HEADING_LINE_PATTERN@, line, 2),
    ) {
        (Ok(Some((_, _, Some(marks), _))), Ok(Some((_, _, Some(title), _)))) => repeat(
            "#"@,
            marks.len(),
        ) + " "@ + title,
        _ => line,
    }
}

/// The Markdown written for the Typst text `source` where pandoc is not
/// installed: its lines with their headings turned into Markdown, joined,
/// trimmed, and ended with a newline.
pub open spec fn markdown_fallback_spec(source: Seq<char>) -> Seq<char> {
    trim(join(lines(source).map_values(|l: Seq<char>| fallback_line(l)), "\n"@)) + "\n"@
}

/// A line of the Markdown written without pandoc.
fn fallback_line_exec(line: &Vec<char>) -> (r: Vec<char>)
    ensures
        r@ == fallback_line(line@),
{
    let s = string_of(line);
    let marks = regex_captures(HEADING_LINE_PATTERN, s.as_str(), 1);
    let title = regex_captures(HEADING_LINE_PATTERN, s.as_str(), 2);
    if let (Ok(Some(m)), Ok(Some(t))) = (&marks, &title) {
        if let (Some(g1), Some(g2)) = (&m.group, &t.group) {
            let n = chars_of(g1.as_str()).len();
            let mut out = repeat_exec("#", n);
            push_str(&mut out, " ");
            push_str(&mut out, g2.as_str());
            return out;
        }
    }
    let mut out: Vec<char> = Vec::new();
    push_chars(&mut out, line);
    out
}

/// The Markdown written for the Typst text `source` where pandoc is not
/// installed.
pub fn markdown_fallback(source: &str) -> (r: String)
    ensures
        r@ == markdown_fallback_spec(source@),
{
    let ls = split_lines(&chars_of(source));
    let ghost want = lines(source@).map_values(|l: Seq<char>| fallback_line(l));
    let mut out: Vec<Vec<char>> = Vec::new();
    let mut i: usize = 0;
    while i < ls.len()
        invariant
            i <= ls.len(),
            ls@.map_values(|w: Vec<char>| w@) == lines(source@),
            want == lines(source@).map_values(|l: Seq<char>| fallback_line(l)),
            out@.map_values(|w: Vec<char>| w@) == want.take(i as int),
        decreases ls.len() - i,
    {
        let line = fallback_line_exec(&ls[i]);
        let ghost before = out@;
        out.push(line);
        assert(ls@[i as int]@ == lines(source@)[i as int]);
        assert(out@.map_values(|w: Vec<char>| w@) =~= before.map_values(|w: Vec<char>| w@) + seq![
            want[i as int],
        ]);
        assert(want.take(i + 1) =~= want.take(i as int) + seq![want[i as int]]);
        i = i + 1;
    }
    assert(want.take(i as int) =~= want);
    let joined = join_exec(&out, "\n");
    let mut text = trim_end_exec(&trim_start_exec(&joined));
    push_str(&mut text, "\n");
    string_of(&text)
}

} // verus!
