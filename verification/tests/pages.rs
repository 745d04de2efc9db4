use blog_builder::config::SiteConfigFile;
use blog_builder::date::{format_date, iso_date, Date};
use blog_builder::html::{escape_html, extract_body, strip_duplicate_title, unescape_html, HtmlError};
use blog_builder::markdown::{markdown_fallback, render_markdown, strip_post_metadata, yaml_quote};
use blog_builder::post::Post;
use blog_builder::render::{
    absolute_url, render_feed, render_index_page, render_post_page, render_robots, render_shell,
    render_sitemap, render_typst_html,
};

fn site(base_url: &str) -> SiteConfigFile {
    SiteConfigFile::new(
        "My <Blog>".to_string(),
        "Notes & thoughts".to_string(),
        "xmoon".to_string(),
        "zh-CN".to_string(),
        base_url.to_string(),
        None,
    )
}

fn post(slug: &str, title: &str, year: i32, month: u32, day: u32, tags: &[&str], draft: bool) -> Post {
    Post {
        source: format!("posts/{slug}.typ"),
        slug: slug.to_string(),
        title: title.to_string(),
        date: Date { year, month, day },
        description: format!("About {title}"),
        tags: tags.iter().map(|t| t.to_string()).collect(),
        draft,
    }
}

/// The page frame, written with `format!` as a template.
fn expected_shell(
    site: &SiteConfigFile,
    title: &str,
    description: &str,
    depth: usize,
    body: &str,
    canonical: &str,
) -> String {
    let prefix = "../".repeat(depth);
    let home_href = if prefix.is_empty() { "./" } else { &prefix };
    let canonical_tag = if canonical.is_empty() {
        String::new()
    } else {
        format!(r#"<link rel="canonical" href="{}">"#, escape_html(canonical))
    };
    format!(
        r#"
        <!doctype html>
        <html lang="{}">
        <head>
          <meta charset="utf-8">
          <meta name="viewport" content="width=device-width, initial-scale=1">
          <title>{}</title>
          <meta name="description" content="{}">
          {}
          <link rel="alternate" type="application/rss+xml" title="{}" href="{}feed.xml">
          <link rel="stylesheet" href="{}assets/style.css">
        </head>
        <body>
          <header class="site-header">
            <p class="site-title"><a href="{}">{}</a></p>
            <p class="site-description">{}</p> </header>
        {}
          <footer class="site-footer">
            <span>{}</span>
          </footer>
        </body>
        </html>
"#,
        escape_html(&site.language),
        escape_html(title),
        escape_html(description),
        canonical_tag,
        escape_html(&site.title),
        prefix,
        prefix,
        home_href,
        escape_html(&site.title),
        escape_html(&site.description),
        body.trim_end(),
        escape_html(&site.author)
    )
    .trim_start()
    .to_string()
}

#[test]
fn escape_html_escapes_the_five_characters() {
    assert_eq!(
        escape_html("<a href=\"x\">'&'</a>"),
        "&lt;a href=&quot;x&quot;&gt;&#x27;&amp;&#x27;&lt;/a&gt;"
    );
    assert_eq!(escape_html(""), "");
    assert_eq!(escape_html("plain 文本"), "plain 文本");
}

#[test]
fn escaped_text_holds_no_special_characters() {
    let e = escape_html("<<>>\"\"''&&");
    assert!(!e.contains('<') && !e.contains('>') && !e.contains('"') && !e.contains('\''));
}

#[test]
fn unescape_html_replaces_entities_in_order() {
    assert_eq!(unescape_html("&lt;b&gt; &quot;x&quot; &#x27;y&#39;"), "<b> \"x\" 'y'");
    assert_eq!(unescape_html("&amp;lt;"), "&lt;");
    assert_eq!(unescape_html("&unknown;"), "&unknown;");
}

#[test]
fn unescape_undoes_escape() {
    for s in ["", "a<b>c", "&lt;", "&amp;amp;", "\"'&<>", "Tom & Jerry's <show>", "&#39;"] {
        assert_eq!(unescape_html(&escape_html(s)), s);
    }
}

#[test]
fn extract_body_takes_the_trimmed_body() {
    let doc = "<html><head></head><BODY>\n   <p>Hi</p>\n  </body></html>";
    assert_eq!(extract_body(doc).unwrap(), "<p>Hi</p>");
    assert_eq!(extract_body("<body></body>").unwrap(), "");
}

#[test]
fn extract_body_without_body_fails() {
    assert_eq!(extract_body("<html><p>no body</p></html>"), Err(HtmlError::MissingBody));
}

#[test]
fn strip_duplicate_title_removes_a_repeated_heading() {
    let body = "  <h1 id=\"t\">Hello   <em>World</em></h1>\n\n<p>text</p>";
    assert_eq!(strip_duplicate_title(body, "Hello World").unwrap(), "<p>text</p>");
    let body = "<h2>A &amp; B</h2> rest";
    assert_eq!(strip_duplicate_title(body, " A  &  B ").unwrap(), "rest");
}

#[test]
fn strip_duplicate_title_keeps_other_bodies() {
    let body = "<h1>Other</h1><p>text</p>";
    assert_eq!(strip_duplicate_title(body, "Hello").unwrap(), body);
    let body = "<p>first</p><h1>Hello</h1>";
    assert_eq!(strip_duplicate_title(body, "Hello").unwrap(), body);
}

#[test]
fn render_typst_html_extracts_and_strips() {
    let p = post("a", "Hello", 2026, 5, 5, &[], false);
    let doc = "<html><body>\n<h1>Hello</h1>\n<p>x</p>\n</body></html>";
    assert_eq!(render_typst_html(&p, doc).unwrap(), "<p>x</p>");
    assert_eq!(render_typst_html(&p, "<html></html>"), Err("解析失败".to_string()));
}

#[test]
fn absolute_url_joins_base_and_path() {
    let s = site("https://x.org");
    assert_eq!(absolute_url(&s, "/posts/a/"), "https://x.org/posts/a");
    assert_eq!(absolute_url(&s, "///"), "https://x.org/");
    assert_eq!(absolute_url(&s, ""), "https://x.org/");
    assert_eq!(absolute_url(&site(""), "posts/a"), "");
}

#[test]
fn render_shell_matches_the_template() {
    let s = site("https://x.org");
    let got = render_shell(&s, "T <1>", "D", 2, "<main>x</main>\n\n", Some("posts/a"));
    assert_eq!(got, expected_shell(&s, "T <1>", "D", 2, "<main>x</main>", "https://x.org/posts/a"));
    assert!(got.starts_with("<!doctype html>"));
    assert!(got.contains("href=\"../../feed.xml\""));
    let home = render_shell(&s, "T", "D", 0, "b", None);
    assert_eq!(home, expected_shell(&s, "T", "D", 0, "b", "https://x.org"));
    assert!(home.contains("<a href=\"./\">"));
}

#[test]
fn render_shell_without_address_has_no_canonical_link() {
    let s = site("");
    let got = render_shell(&s, "T", "D", 0, "b", Some("posts/a"));
    assert!(!got.contains("canonical"));
    assert_eq!(got, expected_shell(&s, "T", "D", 0, "b", ""));
}

#[test]
fn render_post_page_matches_the_template() {
    let s = site("https://x.org");
    let p = post("hello", "Hi & bye", 2026, 5, 5, &["rust", "<x>"], false);
    let body = format!(
        r#"
<main>
  <article>
    <header>
      <h1 class="post-title">{}</h1>
      <div class="post-meta">
        <time datetime="{}">{}</time>
        {}
      </div>
    </header>
    <div class="post-body">
      {}
    </div>
    <nav class="post-actions" aria-label="文章操作">
      <a href="../../">返回首页</a>
      <a href="../../downloads/{}.md">Markdown 版本</a>
    </nav>
  </article>
</main>
"#,
        "Hi &amp; bye", "2026-05-05", "2026年5月5日", "<span>#rust</span> <span>#&lt;x&gt;</span>", "<p>a</p>", "hello"
    );
    let want = expected_shell(&s, "Hi & bye | My <Blog>", "About Hi & bye", 2, &body, "https://x.org/posts/hello");
    assert_eq!(render_post_page(&s, &p, "<p>a</p>".to_string()), want);
}

#[test]
fn render_index_page_lists_posts() {
    let s = site("https://x.org");
    let a = post("a", "A", 2024, 1, 2, &[], false);
    let b = post("b", "B<", 2025, 12, 31, &[], false);
    let item = |p: &Post, iso: &str, cn: &str| {
        format!(
            "<li>\n  <h2><a href=\"posts/{}/\">{}</a></h2>\n  <time datetime=\"{}\">{}</time>\n  <p>{}</p>\n</li>",
            escape_html(&p.slug),
            escape_html(&p.title),
            iso,
            cn,
            escape_html(&p.description)
        )
    };
    let items = format!("{}\n{}", item(&a, "2024-01-02", "2024年1月2日"), item(&b, "2025-12-31", "2025年12月31日"));
    let body = format!(
        "<main>\n  <h1>{}</h1>\n  <p>{}</p>\n  <ul class=\"post-list\">\n    {}\n  </ul>\n</main>",
        escape_html(&s.title),
        escape_html(&s.description),
        items
    );
    let want = expected_shell(&s, &s.title, &s.description, 0, &body, "https://x.org");
    assert_eq!(render_index_page(&s, &vec![&a, &b]), want);
}

#[test]
fn render_index_page_without_posts_says_so() {
    let s = site("");
    let page = render_index_page(&s, &vec![]);
    assert!(page.contains("<ul class=\"post-list\">\n    <li>暂无文章。</li>\n  </ul>"));
}

#[test]
fn render_robots_names_the_sitemap_when_the_address_is_known() {
    assert_eq!(
        render_robots(&site("https://x.org")),
        "User-agent: *\nAllow: /\nSitemap: https://x.org/sitemap.xml\n"
    );
    assert_eq!(render_robots(&site("")), "User-agent: *\nAllow: /\n");
}

#[test]
fn render_feed_lists_the_channel_and_its_items() {
    let s = site("https://x.org");
    let a = post("b-post", "B & \"quotes\"", 2024, 1, 2, &[], false);
    let b = post("a-post", "<A>", 2023, 12, 31, &[], false);
    let today = Date { year: 2030, month: 1, day: 1 };
    let want = [
        "<rss version=\"2.0\"><channel>",
        "<title>My &lt;Blog&gt;</title><description>Notes &amp; thoughts</description>",
        "<link>https://x.org</link><language>zh-CN</language>",
        "<lastBuildDate>Tue, 2 Jan 2024 00:00:00 +0000</lastBuildDate>",
        "<item><title>B &amp; &quot;quotes&quot;</title><link>https://x.org/posts/b-post</link>",
        "<guid>https://x.org/posts/b-post</guid><pubDate>Tue, 2 Jan 2024 00:00:00 +0000</pubDate>",
        "<description>About B &amp; &quot;quotes&quot;</description></item>",
        "<item><title>&lt;A&gt;</title><link>https://x.org/posts/a-post</link>",
        "<guid>https://x.org/posts/a-post</guid><pubDate>Sun, 31 Dec 2023 00:00:00 +0000</pubDate>",
        "<description>About &lt;A&gt;</description></item>",
        "</channel></rss>"
    ]
    .concat();
    assert_eq!(render_feed(&s, &vec![&a, &b], &today), want);
}

#[test]
fn render_feed_without_an_address_uses_relative_links() {
    let s = site("");
    let a = post("x", "X", 2026, 5, 5, &[], false);
    let feed = render_feed(&s, &vec![&a], &Date { year: 2000, month: 1, day: 1 });
    assert!(feed.contains("<link></link>"));
    assert!(feed.contains("<item><title>X</title><link>posts/x/</link><guid>posts/x/</guid>"));
    assert!(feed.contains("<lastBuildDate>Tue, 5 May 2026 00:00:00 +0000</lastBuildDate>"));
}

#[test]
fn render_sitemap_lists_the_home_page_and_the_posts() {
    let s = site("https://x.org/blog");
    let a = post("first", "F", 2026, 5, 5, &[], false);
    let b = post("second", "S", 2025, 1, 9, &[], false);
    assert_eq!(
        render_sitemap(&s, &vec![&a, &b]),
        [
            "<urlset xmlns=\"http://www.sitemaps.org/schemas/sitemap/0.9\">",
            "<url><loc>https://x.org/blog/</loc></url>",
            "<url><loc>https://x.org/blog/posts/first</loc><lastmod>2026-05-05</lastmod></url>",
            "<url><loc>https://x.org/blog/posts/second</loc><lastmod>2025-01-09</lastmod></url>",
            "</urlset>"
        ]
        .concat()
    );
}

#[test]
fn dates_are_formatted_by_chrono() {
    let d = Date { year: 2026, month: 5, day: 5 };
    assert_eq!(format_date(&d), "2026年5月5日");
    assert_eq!(iso_date(&d), "2026-05-05");
    let d = Date { year: 2024, month: 12, day: 25 };
    assert_eq!(format_date(&d), "2024年12月25日");
    assert_eq!(iso_date(&Date { year: 2024, month: 2, day: 30 }), "");
}

#[test]
fn dates_are_padded_as_the_patterns_say() {
    let d = Date { year: 7, month: 3, day: 9 };
    assert_eq!(iso_date(&d), "0007-03-09");
    assert_eq!(format_date(&d), "0007年3月9日");
    assert_eq!(iso_date(&Date { year: 2024, month: 2, day: 29 }), "2024-02-29");
    assert_eq!(iso_date(&Date { year: 2023, month: 2, day: 29 }), "");
    assert_eq!(format_date(&Date { year: 2100, month: 2, day: 29 }), "");
    assert_eq!(format_date(&Date { year: 2000, month: 2, day: 29 }), "2000年2月29日");
    assert_eq!(iso_date(&Date { year: 2026, month: 13, day: 1 }), "");
}

#[test]
fn feed_times_name_the_weekday_and_month() {
    let s = site("");
    let a = post("a", "A", 4, 2, 29, &[], false);
    let b = post("b", "B", 1999, 12, 31, &[], false);
    let feed = render_feed(&s, &vec![&a, &b], &Date { year: 2000, month: 1, day: 1 });
    assert!(feed.contains("<lastBuildDate>Sun, 29 Feb 0004 00:00:00 +0000</lastBuildDate>"));
    assert!(feed.contains("<pubDate>Fri, 31 Dec 1999 00:00:00 +0000</pubDate>"));
    let c = post("c", "C", 2026, 2, 30, &[], false);
    assert!(render_feed(&s, &vec![&c], &Date { year: 2000, month: 1, day: 1 }).contains("<pubDate></pubDate>"));
}

#[test]
fn slashes_around_a_path_do_not_change_its_address() {
    let s = site("https://x.org");
    for p in ["posts/a", "", "//", "a/b"] {
        assert_eq!(absolute_url(&s, &format!("/{p}/")), absolute_url(&s, p));
    }
}

#[test]
fn strip_post_metadata_removes_the_block() {
    let src = "#metadata((\n  slug: \"a\",\n  title: \"T\",\n)) <post-meta>\n\n= T\n\nBody.\n";
    assert_eq!(strip_post_metadata(src), "= T\n\nBody.\n");
    let one_line = "  #metadata((slug: \"a\")) <post-meta>\nText\r\nMore";
    assert_eq!(strip_post_metadata(one_line), "Text\nMore\n");
}

#[test]
fn strip_post_metadata_keeps_a_source_without_block() {
    assert_eq!(strip_post_metadata("\n\n  Hello\nworld\n"), "Hello\nworld\n");
    assert_eq!(strip_post_metadata(""), "\n");
}

#[test]
fn strip_post_metadata_drops_an_unclosed_block() {
    assert_eq!(strip_post_metadata("a\n#metadata((\nx\ny"), "a\n");
}

#[test]
fn yaml_quote_escapes_backslashes_and_quotes() {
    assert_eq!(yaml_quote("a\\b\"c"), "a\\\\b\\\"c");
    assert_eq!(yaml_quote("plain"), "plain");
}

#[test]
fn render_markdown_writes_front_matter() {
    let s = site("https://x.org");
    let p = post("hello", "Say \"hi\"", 2026, 5, 5, &["a", "b\\c"], false);
    assert_eq!(
        render_markdown(&p, &s, "\n\n# Body\n\n"),
        "---\ntitle: \"Say \\\"hi\\\"\"\ndate: \"2026-05-05\"\ntags:\n  - \"a\"\n  - \"b\\\\c\"\nsource: \"https://x.org/posts/hello\"\n---\n\n# Body\n"
    );
    let p = post("x", "X", 2026, 1, 9, &[], false);
    assert_eq!(
        render_markdown(&p, &site(""), "text"),
        "---\ntitle: \"X\"\ndate: \"2026-01-09\"\ntags:\n  []\n---\n\ntext\n"
    );
}

#[test]
fn markdown_fallback_turns_headings_into_markdown() {
    assert_eq!(
        markdown_fallback("\n= Title\n\nSome text\n== Part  two\n===\n=x\n\n"),
        "# Title\n\nSome text\n## Part  two\n===\n=x\n"
    );
    assert_eq!(markdown_fallback(""), "\n");
    assert_eq!(markdown_fallback("plain"), "plain\n");
}

#[test]
fn stripping_the_metadata_twice_changes_nothing() {
    let src = "  \n#metadata((\n  slug: \"a\",\n)) <post-meta>\n\n= Hello\n\nbody\n";
    let once = strip_post_metadata(src);
    assert_eq!(once, "= Hello\n\nbody\n");
    assert_eq!(strip_post_metadata(&once), once);
}
