//! What escaping promises: escaped text holds none of `<`, `>`, `"`, `'`
//! (every `&` in it starts an entity), and unescaping escaped text gives the
//! text back.

use crate::html::{escape_html_spec, unescape_html_spec};
use crate::text::{occurs_at, replace};
use vstd::prelude::*;

verus! {

/// The pieces `f(c)` of the characters `c` of `s`, one after the other.
pub open spec fn flat(s: Seq<char>, f: spec_fn(char) -> Seq<char>) -> Seq<char>
    decreases s.len(),
{
    if s.len() == 0 {
        Seq::empty()
    } else {
        f(s[0]) + flat(s.drop_first(), f)
    }
}

/// Pointwise equal pieces give the same text.
proof fn lemma_flat_ext(s: Seq<char>, f: spec_fn(char) -> Seq<char>, g: spec_fn(char) -> Seq<char>)
    requires
        forall|x: char| #[trigger] f(x) == g(x),
    ensures
        flat(s, f) == flat(s, g),
    decreases s.len(),
{
    if s.len() > 0 {
        lemma_flat_ext(s.drop_first(), f, g);
        assert(f(s[0]) == g(s[0]));
    }
}

/// Each character as its own piece gives the text back.
proof fn lemma_flat_unit(s: Seq<char>)
    ensures
        flat(s, |x: char| seq![x]) == s,
    decreases s.len(),
{
    if s.len() > 0 {
        lemma_flat_unit(s.drop_first());
        assert(seq![s[0]] + s.drop_first() =~= s);
    }
}

/// Whether no occurrence of `p` in a text that starts with `a` can begin
/// inside `a` and end past it.
pub open spec fn no_straddle(a: Seq<char>, p: Seq<char>) -> bool {
    forall|i: int| 0 <= i < a.len() && i + p.len() > a.len() ==> !(#[trigger] a.skip(i)).is_prefix_of(p)
}

proof fn lemma_replace_empty(p: Seq<char>, r: Seq<char>)
    ensures
        replace(Seq::<char>::empty(), p, r) == Seq::<char>::empty(),
{
}

/// Replacement distributes over a concatenation that no occurrence spans.
proof fn lemma_replace_concat(a: Seq<char>, b: Seq<char>, p: Seq<char>, r: Seq<char>)
    requires
        p.len() > 0,
        no_straddle(a, p),
    ensures
        replace(a + b, p, r) == replace(a, p, r) + replace(b, p, r),
    decreases a.len(),
{
    let ab = a + b;
    if a.len() == 0 {
        assert(ab =~= b);
        assert(replace(a, p, r) + replace(b, p, r) =~= replace(b, p, r));
    } else if p.is_prefix_of(ab) {
        if p.len() <= a.len() {
            assert(a.subrange(0, p.len() as int) =~= ab.subrange(0, p.len() as int));
            assert(p.is_prefix_of(a));
            let a2 = a.skip(p.len() as int);
            assert(ab.skip(p.len() as int) =~= a2 + b);
            assert forall|i: int| 0 <= i < a2.len() && i + p.len() > a2.len() implies !(
            #[trigger] a2.skip(i)).is_prefix_of(p) by {
                assert(a2.skip(i) =~= a.skip(i + p.len()));
                assert(!a.skip(i + p.len()).is_prefix_of(p));
            }
            lemma_replace_concat(a2, b, p, r);
            assert(r + (replace(a2, p, r) + replace(b, p, r)) =~= (r + replace(a2, p, r))
                + replace(b, p, r));
        } else {
            assert(a.skip(0) =~= a);
            assert(a =~= p.subrange(0, a.len() as int)) by {
                assert forall|k: int| 0 <= k < a.len() implies a[k] == p[k] by {
                    assert(ab.subrange(0, p.len() as int)[k] == ab[k]);
                }
            }
            assert(a.skip(0).is_prefix_of(p));
            assert(false);
        }
    } else {
        if p.len() <= a.len() && p.is_prefix_of(a) {
            assert(a.subrange(0, p.len() as int) =~= ab.subrange(0, p.len() as int));
        }
        let a2 = a.drop_first();
        assert(ab.drop_first() =~= a2 + b);
        assert forall|i: int| 0 <= i < a2.len() && i + p.len() > a2.len() implies !(
        #[trigger] a2.skip(i)).is_prefix_of(p) by {
            assert(a2.skip(i) =~= a.skip(i + 1));
            assert(!a.skip(i + 1).is_prefix_of(p));
        }
        lemma_replace_concat(a2, b, p, r);
        assert(ab[0] == a[0]);
        assert(seq![a[0]] + (replace(a2, p, r) + replace(b, p, r)) =~= (seq![a[0]] + replace(
            a2,
            p,
            r,
        )) + replace(b, p, r));
    }
}

/// Replacement in a text made of pieces, where no occurrence spans pieces,
/// is replacement in each piece.
proof fn lemma_replace_flat(s: Seq<char>, f: spec_fn(char) -> Seq<char>, p: Seq<char>, r: Seq<char>)
    requires
        p.len() > 0,
        forall|x: char| no_straddle(#[trigger] f(x), p),
    ensures
        replace(flat(s, f), p, r) == flat(s, |x: char| replace(f(x), p, r)),
    decreases s.len(),
{
    if s.len() > 0 {
        assert(no_straddle(f(s[0]), p));
        lemma_replace_concat(f(s[0]), flat(s.drop_first(), f), p, r);
        lemma_replace_flat(s.drop_first(), f, p, r);
    }
}

/// A text in which `p` does not occur is left as it is.
proof fn lemma_replace_absent(a: Seq<char>, p: Seq<char>, r: Seq<char>)
    requires
        p.len() > 0,
        forall|i: int| !#[trigger] occurs_at(a, p, i),
    ensures
        replace(a, p, r) == a,
    decreases a.len(),
{
    if a.len() > 0 {
        if p.is_prefix_of(a) {
            assert(a.subrange(0, p.len() as int) =~= p);
            assert(occurs_at(a, p, 0));
        }
        let a2 = a.drop_first();
        assert forall|i: int| !#[trigger] occurs_at(a2, p, i) by {
            if occurs_at(a2, p, i) {
                assert(a.subrange(i + 1, i + 1 + p.len()) =~= a2.subrange(i, i + p.len()));
                assert(occurs_at(a, p, i + 1));
            }
        }
        lemma_replace_absent(a2, p, r);
        assert(seq![a[0]] + a2 =~= a);
    }
}

/// A text equal to the pattern becomes the replacement.
proof fn lemma_replace_whole(p: Seq<char>, r: Seq<char>)
    requires
        p.len() > 0,
    ensures
        replace(p, p, r) == r,
{
    assert(p.subrange(0, p.len() as int) =~= p);
    assert(p.skip(p.len() as int) =~= Seq::<char>::empty());
    lemma_replace_empty(p, r);
    assert(r + Seq::<char>::empty() =~= r);
}

/// A character that is not the first of `p` is left as it is.
proof fn lemma_replace_other_char(x: char, p: Seq<char>, r: Seq<char>)
    requires
        p.len() > 0,
        x != p[0],
    ensures
        replace(seq![x], p, r) == seq![x],
{
    assert forall|i: int| !#[trigger] occurs_at(seq![x], p, i) by {
        if occurs_at(seq![x], p, i) {
            assert(seq![x].subrange(i, i + p.len())[0] == p[0]);
        }
    }
    lemma_replace_absent(seq![x], p, r);
}

/// A text with no character of the one-character pattern `p` is left as it
/// is.
proof fn lemma_replace_char_absent(a: Seq<char>, c: char, r: Seq<char>)
    requires
        forall|i: int| 0 <= i < a.len() ==> a[i] != c,
    ensures
        replace(a, seq![c], r) == a,
{
    assert forall|i: int| !#[trigger] occurs_at(a, seq![c], i) by {
        if occurs_at(a, seq![c], i) {
            assert(a.subrange(i, i + 1)[0] == a[i]);
        }
    }
    lemma_replace_absent(a, seq![c], r);
}

/// Whether `p` is an HTML entity: `&`, then at least one character that is
/// neither `&` nor `;`, then `;`.
pub open spec fn is_entity(p: Seq<char>) -> bool {
    &&& p.len() >= 2
    &&& p[0] == '&'
    &&& p.last() == ';'
    &&& forall|i: int| 0 < i < p.len() ==> #[trigger] p[i] != '&'
    &&& forall|i: int| 0 <= i < p.len() - 1 ==> #[trigger] p[i] != ';'
}

/// Whether `p` is an entity or a single character other than `&`: the
/// pieces of escaped text.
pub open spec fn is_piece(p: Seq<char>) -> bool {
    is_entity(p) || (p.len() == 1 && p[0] != '&')
}

/// No occurrence of an entity spans a piece.
proof fn lemma_entity_no_straddle(a: Seq<char>, p: Seq<char>)
    requires
        is_entity(p),
        is_piece(a),
    ensures
        no_straddle(a, p),
{
    assert forall|i: int| 0 <= i < a.len() && i + p.len() > a.len() implies !(
    #[trigger] a.skip(i)).is_prefix_of(p) by {
        if a.skip(i).is_prefix_of(p) {
            assert(a.skip(i)[0] == p[0]);
            assert(a[i] == '&');
            assert(i == 0);
            assert(is_entity(a));
            assert(a.skip(0) =~= a);
            assert(a[a.len() - 1] == p[a.len() - 1]) by {
                assert(p.subrange(0, a.len() as int)[a.len() - 1] == p[a.len() - 1]);
            }
        }
    }
}

/// Replacing an entity in a piece turns the piece into the replacement if
/// it is that entity, and leaves it as it is otherwise.
proof fn lemma_entity_replace(a: Seq<char>, p: Seq<char>, r: Seq<char>)
    requires
        is_entity(p),
        is_piece(a),
    ensures
        replace(a, p, r) == if a == p {
            r
        } else {
            a
        },
{
    if a == p {
        lemma_replace_whole(p, r);
    } else {
        assert forall|i: int| !#[trigger] occurs_at(a, p, i) by {
            if occurs_at(a, p, i) {
                let w = a.subrange(i, i + p.len());
                assert(w[0] == a[i]);
                assert(a[i] == '&');
                assert(i == 0);
                assert(w[p.len() - 1] == a[p.len() - 1]);
                assert(a[p.len() - 1] == ';');
                assert(p.len() == a.len());
                assert(a =~= w);
            }
        }
        lemma_replace_absent(a, p, r);
    }
}

proof fn lemma_entities()
    ensures
        is_entity("&amp;"@),
        is_entity("&lt;"@),
        is_entity("&gt;"@),
        is_entity("&quot;"@),
        is_entity("&#x27;"@),
        is_entity("&#39;"@),
        "&amp;"@ != "&lt;"@,
        "&amp;"@ != "&gt;"@,
        "&amp;"@ != "&quot;"@,
        "&amp;"@ != "&#x27;"@,
        "&amp;"@ != "&#39;"@,
        "&lt;"@ != "&gt;"@,
        "&lt;"@ != "&quot;"@,
        "&lt;"@ != "&#x27;"@,
        "&lt;"@ != "&#39;"@,
        "&gt;"@ != "&quot;"@,
        "&gt;"@ != "&#x27;"@,
        "&gt;"@ != "&#39;"@,
        "&quot;"@ != "&#x27;"@,
        "&quot;"@ != "&#39;"@,
        "&#x27;"@ != "&#39;"@,
{
    reveal_strlit("&amp;");
    reveal_strlit("&lt;");
    reveal_strlit("&gt;");
    reveal_strlit("&quot;");
    reveal_strlit("&#x27;");
    reveal_strlit("&#39;");
    let amp = "&amp;"@;
    let lt = "&lt;"@;
    let gt = "&gt;"@;
    let quot = "&quot;"@;
    let apos = "&#x27;"@;
    let apos2 = "&#39;"@;
    assert(amp[1] != lt[1] && amp[1] != gt[1] && amp[1] != quot[1] && amp[1] != apos[1] && amp[1]
        != apos2[1]);
    assert(lt[1] != gt[1] && lt[1] != quot[1] && lt[1] != apos[1] && lt[1] != apos2[1]);
    assert(gt[1] != quot[1] && gt[1] != apos[1] && gt[1] != apos2[1]);
    assert(quot[1] != apos[1] && quot[1] != apos2[1]);
    assert(apos[2] != apos2[2]);
    assert forall|i: int| 0 < i < amp.len() implies #[trigger] amp[i] != '&' by {}
    assert forall|i: int| 0 <= i < amp.len() - 1 implies #[trigger] amp[i] != ';' by {}
    assert forall|i: int| 0 < i < lt.len() implies #[trigger] lt[i] != '&' by {}
    assert forall|i: int| 0 <= i < lt.len() - 1 implies #[trigger] lt[i] != ';' by {}
    assert forall|i: int| 0 < i < gt.len() implies #[trigger] gt[i] != '&' by {}
    assert forall|i: int| 0 <= i < gt.len() - 1 implies #[trigger] gt[i] != ';' by {}
    assert forall|i: int| 0 < i < quot.len() implies #[trigger] quot[i] != '&' by {}
    assert forall|i: int| 0 <= i < quot.len() - 1 implies #[trigger] quot[i] != ';' by {}
    assert forall|i: int| 0 < i < apos.len() implies #[trigger] apos[i] != '&' by {}
    assert forall|i: int| 0 <= i < apos.len() - 1 implies #[trigger] apos[i] != ';' by {}
    assert forall|i: int| 0 < i < apos2.len() implies #[trigger] apos2[i] != '&' by {}
    assert forall|i: int| 0 <= i < apos2.len() - 1 implies #[trigger] apos2[i] != ';' by {}
}

/// Whether `c` is one of the characters that escaping removes.
pub open spec fn is_special(c: char) -> bool {
    c == '<' || c == '>' || c == '"' || c == '\''
}

/// The piece of `x` after the first `k` escaping passes.
pub open spec fn escaped_piece(k: int, x: char) -> Seq<char> {
    if x == '&' && k >= 1 {
        "&amp;"@
    } else if x == '<' && k >= 2 {
        "&lt;"@
    } else if x == '>' && k >= 3 {
        "&gt;"@
    } else if x == '"' && k >= 4 {
        "&quot;"@
    } else if x == '\'' && k >= 5 {
        "&#x27;"@
    } else {
        seq![x]
    }
}

/// The piece of an escaped `x` after the first `k` unescaping passes.
pub open spec fn unescaped_piece(k: int, x: char) -> Seq<char> {
    if x == '&' && k < 6 {
        "&amp;"@
    } else if x == '<' && k < 1 {
        "&lt;"@
    } else if x == '>' && k < 2 {
        "&gt;"@
    } else if x == '"' && k < 3 {
        "&quot;"@
    } else if x == '\'' && k < 4 {
        "&#x27;"@
    } else {
        seq![x]
    }
}

/// One escaping pass on the piece of `x`.
proof fn lemma_escape_piece(k: int, x: char, c: char, r: Seq<char>)
    requires
        1 <= k <= 5,
        c == (if k == 1 {
            '&'
        } else if k == 2 {
            '<'
        } else if k == 3 {
            '>'
        } else if k == 4 {
            '"'
        } else {
            '\''
        }),
        r == (if k == 1 {
            "&amp;"@
        } else if k == 2 {
            "&lt;"@
        } else if k == 3 {
            "&gt;"@
        } else if k == 4 {
            "&quot;"@
        } else {
            "&#x27;"@
        }),
    ensures
        replace(escaped_piece(k - 1, x), seq![c], r) == escaped_piece(k, x),
{
    reveal_strlit("&amp;");
    reveal_strlit("&lt;");
    reveal_strlit("&gt;");
    reveal_strlit("&quot;");
    reveal_strlit("&#x27;");
    let piece = escaped_piece(k - 1, x);
    if piece == seq![x] {
        if x == c {
            assert(seq![x].subrange(0, 1) =~= seq![c]);
            assert(seq![x].skip(1) =~= Seq::<char>::empty());
            lemma_replace_empty(seq![c], r);
            assert(r + Seq::<char>::empty() =~= r);
        } else {
            lemma_replace_other_char(x, seq![c], r);
        }
    } else {
        assert forall|i: int| 0 <= i < piece.len() implies piece[i] != c by {}
        lemma_replace_char_absent(piece, c, r);
    }
}

/// One escaping pass, from `k - 1` passes done to `k`.
proof fn lemma_escape_pass(s: Seq<char>, k: int, c: char, r: Seq<char>)
    requires
        1 <= k <= 5,
        c == (if k == 1 {
            '&'
        } else if k == 2 {
            '<'
        } else if k == 3 {
            '>'
        } else if k == 4 {
            '"'
        } else {
            '\''
        }),
        r == (if k == 1 {
            "&amp;"@
        } else if k == 2 {
            "&lt;"@
        } else if k == 3 {
            "&gt;"@
        } else if k == 4 {
            "&quot;"@
        } else {
            "&#x27;"@
        }),
    ensures
        replace(flat(s, |x: char| escaped_piece(k - 1, x)), seq![c], r) == flat(
            s,
            |x: char| escaped_piece(k, x),
        ),
{
    lemma_entities();
    let f = |x: char| escaped_piece(k - 1, x);
    assert forall|x: char| no_straddle(#[trigger] f(x), seq![c]) by {
        let a = f(x);
        assert(seq![c].len() == 1);
        assert forall|i: int| 0 <= i < a.len() && i + seq![c].len() > a.len() implies !(
        #[trigger] a.skip(i)).is_prefix_of(seq![c]) by {}
    }
    lemma_replace_flat(s, f, seq![c], r);
    assert forall|x: char|
        #[trigger] replace(f(x), seq![c], r) == escaped_piece(k, x) by {
        lemma_escape_piece(k, x, c, r);
    }
    lemma_flat_ext(s, |x: char| replace(f(x), seq![c], r), |x: char| escaped_piece(k, x));
}

/// One unescaping pass, from `k - 1` passes done to `k`.
proof fn lemma_unescape_pass(s: Seq<char>, k: int, p: Seq<char>, r: Seq<char>)
    requires
        1 <= k <= 6,
        p == (if k == 1 {
            "&lt;"@
        } else if k == 2 {
            "&gt;"@
        } else if k == 3 {
            "&quot;"@
        } else if k == 4 {
            "&#x27;"@
        } else if k == 5 {
            "&#39;"@
        } else {
            "&amp;"@
        }),
        r == (if k == 1 {
            seq!['<']
        } else if k == 2 {
            seq!['>']
        } else if k == 3 {
            seq!['"']
        } else if k == 4 || k == 5 {
            seq!['\'']
        } else {
            seq!['&']
        }),
    ensures
        replace(flat(s, |x: char| unescaped_piece(k - 1, x)), p, r) == flat(
            s,
            |x: char| unescaped_piece(k, x),
        ),
{
    lemma_entities();
    let f = |x: char| unescaped_piece(k - 1, x);
    assert forall|x: char| is_piece(#[trigger] f(x)) by {}
    assert forall|x: char| no_straddle(#[trigger] f(x), p) by {
        lemma_entity_no_straddle(f(x), p);
    }
    lemma_replace_flat(s, f, p, r);
    assert forall|x: char| #[trigger] replace(f(x), p, r) == unescaped_piece(k, x) by {
        lemma_entity_replace(f(x), p, r);
    }
    lemma_flat_ext(s, |x: char| replace(f(x), p, r), |x: char| unescaped_piece(k, x));
}

/// Escaped text is the text with each character replaced by its escape.
pub proof fn lemma_escape_is_flat(s: Seq<char>)
    ensures
        escape_html_spec(s) == flat(s, |x: char| escaped_piece(5, x)),
{
    reveal_strlit("&");
    reveal_strlit("<");
    reveal_strlit(">");
    reveal_strlit("\"");
    reveal_strlit("'");
    assert("&"@ =~= seq!['&']);
    assert("<"@ =~= seq!['<']);
    assert(">"@ =~= seq!['>']);
    assert("\""@ =~= seq!['"']);
    assert("'"@ =~= seq!['\'']);
    lemma_flat_unit(s);
    lemma_flat_ext(s, |x: char| seq![x], |x: char| escaped_piece(0, x));
    lemma_escape_pass(s, 1, '&', "&amp;"@);
    lemma_escape_pass(s, 2, '<', "&lt;"@);
    lemma_escape_pass(s, 3, '>', "&gt;"@);
    lemma_escape_pass(s, 4, '"', "&quot;"@);
    lemma_escape_pass(s, 5, '\'', "&#x27;"@);
}

/// The characters of every piece satisfy `ok`, so those of the text do.
proof fn lemma_flat_all(s: Seq<char>, f: spec_fn(char) -> Seq<char>, ok: spec_fn(char) -> bool)
    requires
        forall|x: char, i: int| 0 <= i < f(x).len() ==> ok(#[trigger] f(x)[i]),
    ensures
        forall|i: int| 0 <= i < flat(s, f).len() ==> ok(#[trigger] flat(s, f)[i]),
    decreases s.len(),
{
    if s.len() > 0 {
        lemma_flat_all(s.drop_first(), f, ok);
        let a = f(s[0]);
        let b = flat(s.drop_first(), f);
        assert forall|i: int| 0 <= i < (a + b).len() implies ok(#[trigger] (a + b)[i]) by {
            if i < a.len() {
                assert((a + b)[i] == a[i]);
            } else {
                assert((a + b)[i] == b[i - a.len()]);
            }
        }
    }
}

/// Escaped text holds no `<`, `>`, `"` or `'`.
pub proof fn law_escape_removes_specials(s: Seq<char>)
    ensures
        forall|i: int| 0 <= i < escape_html_spec(s).len() ==> !is_special(#[trigger] escape_html_spec(s)[i]),
{
    lemma_escape_is_flat(s);
    reveal_strlit("&amp;");
    reveal_strlit("&lt;");
    reveal_strlit("&gt;");
    reveal_strlit("&quot;");
    reveal_strlit("&#x27;");
    let f = |x: char| escaped_piece(5, x);
    let ok = |c: char| !is_special(c);
    assert forall|x: char, i: int| 0 <= i < f(x).len() implies ok(#[trigger] f(x)[i]) by {}
    lemma_flat_all(s, f, ok);
}

/// Unescaping escaped text gives the text back.
pub proof fn law_unescape_escape(s: Seq<char>)
    ensures
        unescape_html_spec(escape_html_spec(s)) == s,
{
    lemma_escape_is_flat(s);
    lemma_flat_ext(s, |x: char| escaped_piece(5, x), |x: char| unescaped_piece(0, x));
    reveal_strlit("<");
    reveal_strlit(">");
    reveal_strlit("\"");
    reveal_strlit("'");
    reveal_strlit("&");
    assert("<"@ =~= seq!['<']);
    assert(">"@ =~= seq!['>']);
    assert("\""@ =~= seq!['"']);
    assert("'"@ =~= seq!['\'']);
    assert("&"@ =~= seq!['&']);
    lemma_unescape_pass(s, 1, "&lt;"@, seq!['<']);
    lemma_unescape_pass(s, 2, "&gt;"@, seq!['>']);
    lemma_unescape_pass(s, 3, "&quot;"@, seq!['"']);
    lemma_unescape_pass(s, 4, "&#x27;"@, seq!['\'']);
    lemma_unescape_pass(s, 5, "&#39;"@, seq!['\'']);
    lemma_unescape_pass(s, 6, "&amp;"@, seq!['&']);
    lemma_flat_ext(s, |x: char| unescaped_piece(6, x), |x: char| seq![x]);
    lemma_flat_unit(s);
}

} // verus!
