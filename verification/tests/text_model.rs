use blog_builder::html::{escape_html, unescape_html};
use blog_builder::markdown::{strip_post_metadata, yaml_quote};
use blog_builder::text::is_whitespace;

const SAMPLES: &[&str] = &[
    "",
    "plain",
    "<p class=\"x\">Tom & Jerry's</p>",
    "&amp;&lt;&gt;&quot;&#x27;&#39;",
    "&&lt;;&amp;amp;",
    "\\\"quoted\\\"",
    "  lead\r\n#metadata((a)) <post-meta>\nbody\n\n",
    "#metadata((\n  slug: \"a\",\n  tags: (\"x\",),\n)) <post-meta>\n\n= Title\n\ntext\n",
    "a\n  #metadata((\nstill meta <post-meta> end\nafter\n#metadata(x) <post-meta>\nlast",
    "\u{3000}全角空白\u{a0}and\u{2029}\n",
];

/// The escaping as five `str::replace` passes.
fn escape_by_replace(s: &str) -> String {
    s.replace('&', "&amp;")
        .replace('<', "&lt;")
        .replace('>', "&gt;")
        .replace('"', "&quot;")
        .replace('\'', "&#x27;")
}

/// The unescaping as six `str::replace` passes.
fn unescape_by_replace(s: &str) -> String {
    s.replace("&lt;", "<")
        .replace("&gt;", ">")
        .replace("&quot;", "\"")
        .replace("&#x27;", "'")
        .replace("&#39;", "'")
        .replace("&amp;", "&")
}

/// Metadata removal with `str::lines`, `trim_start`, `starts_with` and
/// `contains`.
fn strip_by_lines(source: &str) -> String {
    let mut output = Vec::new();
    let mut skip = false;
    for line in source.lines() {
        if !skip && line.trim_start().starts_with("#metadata(") {
            skip = !line.contains("<post-meta>");
            continue;
        }
        if skip {
            skip = !line.contains("<post-meta>");
            continue;
        }
        output.push(line);
    }
    format!("{}\n", output.join("\n").trim_start())
}

#[test]
fn whitespace_matches_char_is_whitespace() {
    for code in 0u32..0x3100 {
        if let Some(c) = char::from_u32(code) {
            assert_eq!(is_whitespace(c), c.is_whitespace(), "U+{code:04X}");
        }
    }
    assert!(!is_whitespace('\u{feff}'));
}

#[test]
fn escape_matches_replace_passes() {
    for s in SAMPLES {
        assert_eq!(escape_html(s), escape_by_replace(s));
    }
}

#[test]
fn unescape_matches_replace_passes() {
    for s in SAMPLES {
        assert_eq!(unescape_html(s), unescape_by_replace(s));
        assert_eq!(unescape_html(&escape_html(s)), *s);
    }
}

#[test]
fn yaml_quote_matches_replace_passes() {
    for s in SAMPLES {
        assert_eq!(yaml_quote(s), s.replace('\\', "\\\\").replace('"', "\\\""));
    }
}

#[test]
fn strip_post_metadata_matches_line_scan() {
    for s in SAMPLES {
        assert_eq!(strip_post_metadata(s), strip_by_lines(s), "{s:?}");
    }
    assert_eq!(strip_post_metadata("x\r"), "x\r\n");
}
