use blog_builder::config::{Config, SiteConfigFile};
use blog_builder::date::Date;
use blog_builder::post::{
    discovery_order, is_newer, is_typst_source, publish_order, text_before, Field, JsonValue, Post, PostError,
};
use blog_builder::site_build::{join_path_exec, run, Action, Event, Stage};

fn args(items: &[&str]) -> Vec<String> {
    items.iter().map(|s| s.to_string()).collect()
}

fn site(base_url: &str) -> SiteConfigFile {
    SiteConfigFile::new(
        "Blog".to_string(),
        "Desc".to_string(),
        "me".to_string(),
        "en".to_string(),
        base_url.to_string(),
        None,
    )
}

fn post(slug: &str, year: i32, month: u32, day: u32, draft: bool) -> Post {
    Post {
        source: format!("posts/{slug}.typ"),
        slug: slug.to_string(),
        title: slug.to_uppercase(),
        date: Date { year, month, day },
        description: String::new(),
        tags: vec![],
        draft,
    }
}

fn s(text: &str) -> JsonValue {
    JsonValue::Str(text.to_string())
}

fn meta(fields: Vec<(&str, JsonValue)>) -> JsonValue {
    JsonValue::Object(vec![
        ("func".to_string(), s("metadata")),
        (
            "value".to_string(),
            JsonValue::Object(fields.into_iter().map(|(k, v)| (k.to_string(), v)).collect()),
        ),
        ("label".to_string(), s("<post-meta>")),
    ])
}

fn good_fields() -> Vec<(&'static str, JsonValue)> {
    vec![
        ("slug", s("hello-world")),
        ("title", s("Hello")),
        ("date", s("2026-05-05")),
        ("description", s("A post.")),
        ("tags", JsonValue::Array(vec![s("rust"), s("blog")])),
        ("draft", JsonValue::Bool(false)),
    ]
}

#[test]
fn config_defaults_without_options() {
    let c = Config::new(args(&["builder"])).unwrap();
    assert!(!c.check);
    assert_eq!(c.site_dir, "_site");
    assert_eq!(c.dist_dir, "dist");
    let c = Config::new(vec![]).unwrap();
    assert_eq!(c.site_dir, "_site");
}

#[test]
fn config_reads_every_option() {
    let c = Config::new(args(&["builder", "--check", "-s", "out", "--dist-dir", "md"])).unwrap();
    assert!(c.check);
    assert_eq!(c.site_dir, "out");
    assert_eq!(c.dist_dir, "md");
    let c = Config::new(args(&["builder", "-c", "--site-dir", "a", "-d", "b", "-s", "c"])).unwrap();
    assert_eq!(c.site_dir, "c");
    assert_eq!(c.dist_dir, "b");
}

#[test]
fn config_refuses_a_missing_path() {
    assert_eq!(Config::new(args(&["builder", "--site-dir"])).unwrap_err(), "--site-dir requires a path");
    assert_eq!(Config::new(args(&["builder", "-d"])).unwrap_err(), "--dist-dir requires a path");
}

#[test]
fn config_refuses_an_unknown_option() {
    assert_eq!(Config::new(args(&["builder", "-c", "--watch"])).unwrap_err(), "unknown argument: --watch");
    assert_eq!(Config::new(args(&["builder", "out"])).unwrap_err(), "unknown argument: out");
}

#[test]
fn site_url_overrides_the_file_address() {
    let c = SiteConfigFile::new(
        "t".into(),
        "d".into(),
        "a".into(),
        "l".into(),
        "https://file.org/".into(),
        Some("https://env.org//".into()),
    );
    assert_eq!(c.base_url, "https://env.org");
    assert_eq!(c.title, "t");
}

#[test]
fn blank_site_url_keeps_the_file_address() {
    let c = SiteConfigFile::new("t".into(), "d".into(), "a".into(), "l".into(), "https://file.org/".into(), Some(" \t ".into()));
    assert_eq!(c.base_url, "https://file.org");
    let c = SiteConfigFile::new("t".into(), "d".into(), "a".into(), "l".into(), "/".into(), None);
    assert_eq!(c.base_url, "");
}

#[test]
fn post_new_reads_the_metadata() {
    let p = Post::new("posts/hello.typ".into(), &meta(good_fields())).unwrap();
    assert_eq!(p.source, "posts/hello.typ");
    assert_eq!(p.slug, "hello-world");
    assert_eq!(p.title, "Hello");
    assert_eq!(p.date, Date { year: 2026, month: 5, day: 5 });
    assert_eq!(p.description, "A post.");
    assert_eq!(p.tags, vec!["rust".to_string(), "blog".to_string()]);
    assert!(!p.draft);
}

#[test]
fn post_new_without_value_fails() {
    let out = JsonValue::Object(vec![("func".into(), s("metadata"))]);
    let e = Post::new("x.typ".into(), &out).unwrap_err();
    assert_eq!(e, PostError::MissingValue);
    assert_eq!(e.message(), "JSON 中没有 value 字段");
    assert_eq!(Post::new("x.typ".into(), &JsonValue::Null).unwrap_err(), PostError::MissingValue);
}

#[test]
fn post_new_reports_the_first_bad_field() {
    let mut f = good_fields();
    f[2].1 = JsonValue::Number("20260505".into());
    f[4].1 = s("not a list");
    let e = Post::new("x.typ".into(), &meta(f)).unwrap_err();
    assert_eq!(e, PostError::InvalidField(Field::Date));
    assert_eq!(e.message(), "metadata 中没有有效的 date 字段");
    let mut f = good_fields();
    f[4].1 = s("rust");
    assert_eq!(Post::new("x.typ".into(), &meta(f)).unwrap_err(), PostError::InvalidField(Field::Tags));
}

#[test]
fn post_new_without_draft_is_not_a_draft() {
    let f: Vec<_> = good_fields().into_iter().filter(|(k, _)| *k != "draft").collect();
    let p = Post::new("x.typ".into(), &meta(f)).unwrap();
    assert!(!p.draft);
    assert_eq!(p.slug, "hello-world");
}

#[test]
fn post_new_refuses_a_slug_that_is_not_kebab_case() {
    for bad in ["Hello World", "hello_world", "-a", "a-", "a--b", "", "Ab"] {
        let mut f = good_fields();
        f[0].1 = s(bad);
        let e = Post::new("x.typ".into(), &meta(f)).unwrap_err();
        assert_eq!(e, PostError::InvalidSlug(bad.to_string()));
        assert_eq!(e.message(), format!("slug 只能使用小写 ASCII、数字和短横线: {bad}"));
    }
    for good in ["a", "a-b", "2026-notes", "x1-y2-z3"] {
        let mut f = good_fields();
        f[0].1 = s(good);
        assert_eq!(Post::new("x.typ".into(), &meta(f)).unwrap().slug, good);
    }
}

#[test]
fn post_new_refuses_a_tag_that_is_not_a_string() {
    let mut f = good_fields();
    f[4].1 = JsonValue::Array(vec![s("ok"), JsonValue::Bool(true)]);
    let e = Post::new("x.typ".into(), &meta(f)).unwrap_err();
    assert_eq!(e, PostError::NonStringTag);
    assert_eq!(e.message(), "tags 中存在非字符串项");
}

#[test]
fn post_new_refuses_a_bad_date_after_the_other_fields() {
    let mut f = good_fields();
    f[2].1 = s("2026-13-01");
    match Post::new("x.typ".into(), &meta(f)).unwrap_err() {
        PostError::BadDate(m) => assert!(!m.is_empty()),
        other => panic!("unexpected {other:?}"),
    }
    let mut f = good_fields();
    f[2].1 = s("yesterday");
    f[5].1 = JsonValue::Null;
    assert_eq!(Post::new("x.typ".into(), &meta(f)).unwrap_err(), PostError::InvalidField(Field::Draft));
}

#[test]
fn typst_sources_are_found_by_extension() {
    assert!(is_typst_source("hello.typ"));
    assert!(is_typst_source("..typ"));
    assert!(is_typst_source("a.b.typ"));
    assert!(!is_typst_source(".typ"));
    assert!(!is_typst_source("typ"));
    assert!(!is_typst_source("a.typst"));
    assert!(!is_typst_source("a.md"));
}

#[test]
fn drafts_are_not_published_and_posts_go_by_date() {
    let posts = vec![
        post("c", 2025, 3, 1, false),
        post("draft", 2020, 1, 1, true),
        post("a", 2024, 12, 31, false),
        post("b", 2025, 3, 1, false),
        post("d", 2025, 2, 28, false),
    ];
    assert_eq!(publish_order(&posts), vec![0, 3, 4, 2]);
    assert_eq!(publish_order(&vec![post("x", 2020, 1, 1, true)]), Vec::<usize>::new());
}

#[test]
fn posts_of_one_date_go_by_slug_descending() {
    let posts = vec![post("alpha", 2026, 5, 5, false), post("beta", 2026, 5, 5, false), post("b", 2026, 5, 5, false)];
    assert_eq!(publish_order(&posts), vec![1, 2, 0]);
    assert!(is_newer(&posts[1], &posts[0]));
    assert!(!is_newer(&posts[0], &posts[0]));
    assert!(is_newer(&post("a", 2026, 5, 6, false), &post("z", 2026, 5, 5, false)));
}

#[test]
fn texts_compare_as_str_does() {
    assert!(text_before("a", "b"));
    assert!(text_before("a", "ab"));
    assert!(!text_before("ab", "a"));
    assert!(!text_before("a", "a"));
    assert!(text_before("", "a"));
    assert!(text_before("Z", "a"));
    assert_eq!(text_before("日本", "中文"), "日本" < "中文");
}

#[test]
fn typst_sources_are_listed_by_name() {
    let names: Vec<String> = ["zeta.typ", "notes.md", "alpha.typ", "beta.typ", ".typ", "Beta.typ"]
        .iter()
        .map(|s| s.to_string())
        .collect();
    assert_eq!(discovery_order(&names), vec![5, 2, 3, 0]);
    assert_eq!(discovery_order(&vec![]), Vec::<usize>::new());
}

#[test]
fn join_path_follows_path_push() {
    assert_eq!(join_path_exec("_site", "posts"), "_site/posts");
    assert_eq!(join_path_exec("_site/", "posts"), "_site/posts");
    assert_eq!(join_path_exec("", "posts"), "posts");
    assert_eq!(join_path_exec("_site", "/abs"), "/abs");
}

fn expect_write(a: &Action, path: &str) -> String {
    match a {
        Action::WriteFile { path: p, content, .. } => {
            assert_eq!(p, path);
            content.clone()
        }
        other => panic!("expected a write to {path}, got {other:?}"),
    }
}

#[test]
fn a_build_publishes_every_non_draft_post() {
    let config = Config::new(args(&["builder"])).unwrap();
    let (mut b, a) = run(config);
    assert!(matches!(a, Action::LoadSettings));
    let a = b.step(Event::Settings(site("https://x.org")));
    assert!(matches!(a, Action::DiscoverPosts));
    let mut found = post("hello", 2026, 5, 5, false);
    found.title = "Hello".into();
    let a = b.step(Event::Posts(vec![post("wip", 2026, 1, 1, true), found]));
    assert!(matches!(&a, Action::CleanDir(d) if d == "_site"));
    let a = b.step(Event::Done);
    assert!(matches!(&a, Action::CleanDir(d) if d == "dist"));
    let a = b.step(Event::Done);
    assert!(matches!(&a, Action::CopyTree { from, to } if from == "assets" && to == "_site/assets"));
    let a = b.step(Event::Done);
    assert!(matches!(&a, Action::CreateDir { path, required: true } if path == "_site/downloads"));
    let a = b.step(Event::Done);
    assert!(matches!(&a, Action::CreateDir { path, required: false } if path == "dist/md"));
    let a = b.step(Event::Done);
    assert!(matches!(&a, Action::CompileHtml { source, slug } if source == "posts/hello.typ" && slug == "hello"));
    let a = b.step(Event::Text("<html><body><h1>Hello</h1><p>hi</p></body></html>".into()));
    assert!(matches!(&a, Action::ReadSource(p) if p == "posts/hello.typ"));
    let a = b.step(Event::Text("#metadata((slug: \"hello\")) <post-meta>\n= Hello\nhi\n".into()));
    assert!(matches!(&a, Action::ConvertMarkdown { text, .. } if text == "= Hello\nhi\n"));
    let a = b.step(Event::Text("# Hello\n\nhi\n".into()));
    assert!(matches!(&a, Action::CreateDir { path, required: true } if path == "_site/posts/hello"));
    let a = b.step(Event::Done);
    let page = expect_write(&a, "_site/posts/hello/index.html");
    assert!(page.contains("<p>hi</p>") && !page.contains("<h1>Hello</h1><p>"));
    let a = b.step(Event::Done);
    let md = expect_write(&a, "_site/downloads/hello.md");
    assert!(md.starts_with("---\ntitle: \"Hello\"\n") && md.ends_with("\n\n# Hello\n\nhi\n"));
    let a = b.step(Event::Done);
    assert_eq!(expect_write(&a, "dist/md/hello.md"), md);
    let a = b.step(Event::Done);
    let index = expect_write(&a, "_site/index.html");
    assert!(index.contains("posts/hello/") && !index.contains("posts/wip/"));
    let a = b.step(Event::Done);
    assert!(matches!(a, Action::ReadToday));
    let a = b.step(Event::Today(Date { year: 2026, month: 6, day: 1 }));
    let feed = expect_write(&a, "_site/feed.xml");
    assert!(feed.starts_with("<rss version=\"2.0\"><channel><title>Blog</title><description>Desc</description><link>https://x.org</link><language>en</language><lastBuildDate>Tue, 5 May 2026 00:00:00 +0000</lastBuildDate>"));
    assert!(feed.ends_with("<item><title>Hello</title><link>https://x.org/posts/hello</link><guid>https://x.org/posts/hello</guid><pubDate>Tue, 5 May 2026 00:00:00 +0000</pubDate><description></description></item></channel></rss>"));
    let a = b.step(Event::Done);
    assert_eq!(
        expect_write(&a, "_site/sitemap.xml"),
        "<urlset xmlns=\"http://www.sitemaps.org/schemas/sitemap/0.9\"><url><loc>https://x.org/</loc></url><url><loc>https://x.org/posts/hello</loc><lastmod>2026-05-05</lastmod></url></urlset>"
    );
    let a = b.step(Event::Done);
    assert_eq!(expect_write(&a, "_site/robots.txt"), "User-agent: *\nAllow: /\nSitemap: https://x.org/sitemap.xml\n");
    let a = b.step(Event::Done);
    assert!(matches!(&a, Action::CreateEmptyFile(p) if p == "_site/.nojekyll"));
    let a = b.step(Event::Done);
    assert!(matches!(a, Action::Finish(Ok(()))));
    assert_eq!(b.stage, Stage::Finished(true));
}

#[test]
fn a_failed_step_ends_the_build_with_its_message() {
    let (mut b, _) = run(Config::new(args(&["builder", "-s", "out"])).unwrap());
    let a = b.step(Event::Failed("没有找到 site.toml".into()));
    assert!(matches!(&a, Action::Finish(Err(m)) if m == "没有找到 site.toml"));
    let a = b.step(Event::Done);
    assert!(matches!(&a, Action::Finish(Err(m)) if m == "没有找到 site.toml"));
}

#[test]
fn a_page_without_body_ends_the_build() {
    let (mut b, _) = run(Config::new(args(&["builder"])).unwrap());
    b.step(Event::Settings(site("")));
    b.step(Event::Posts(vec![post("a", 2026, 1, 1, false)]));
    for _ in 0..5 {
        b.step(Event::Done);
    }
    let a = b.step(Event::Text("<html></html>".into()));
    assert!(matches!(&a, Action::Finish(Err(m)) if m == "解析失败"));
}

#[test]
fn an_answer_that_does_not_fit_ends_the_build() {
    let (mut b, _) = run(Config::new(args(&["builder"])).unwrap());
    let a = b.step(Event::Done);
    assert!(matches!(&a, Action::Finish(Err(m)) if m == "the answer does not fit the step that was asked for"));
}

#[test]
fn a_build_without_posts_goes_to_the_index() {
    let (mut b, _) = run(Config::new(args(&["builder"])).unwrap());
    b.step(Event::Settings(site("")));
    b.step(Event::Posts(vec![post("d", 2026, 1, 1, true)]));
    let mut a = b.step(Event::Done);
    for _ in 0..4 {
        a = b.step(Event::Done);
    }
    let index = expect_write(&a, "_site/index.html");
    assert!(index.contains("<li>暂无文章。</li>"));
}

#[test]
fn a_check_build_works_in_its_temporary_directory() {
    let (mut b, a) = run(Config::new(args(&["builder", "--check", "-s", "public", "-d", "out"])).unwrap());
    assert!(matches!(a, Action::CreateTempDir));
    assert_eq!(b.stage, Stage::TempDir);
    let a = b.step(Event::Text("/tmp/blog-check-x1".into()));
    assert!(matches!(a, Action::LoadSettings));
    assert_eq!(b.site_dir, "/tmp/blog-check-x1/_site");
    assert_eq!(b.dist_dir, "/tmp/blog-check-x1/dist");
    b.step(Event::Settings(site("")));
    let a = b.step(Event::Posts(vec![post("a", 2026, 1, 1, false)]));
    assert!(matches!(&a, Action::CleanDir(d) if d == "/tmp/blog-check-x1/_site"));
    let a = b.step(Event::Done);
    assert!(matches!(&a, Action::CleanDir(d) if d == "/tmp/blog-check-x1/dist"));
    b.step(Event::Done);
    b.step(Event::Done);
    let a = b.step(Event::Done);
    assert!(matches!(&a, Action::CreateDir { path, .. } if path == "/tmp/blog-check-x1/dist/md"));
}

#[test]
fn a_check_build_refuses_a_relative_temporary_directory() {
    let (mut b, _) = run(Config::new(args(&["builder", "-c"])).unwrap());
    let a = b.step(Event::Text("blog-check-x1".into()));
    assert!(matches!(&a, Action::Finish(Err(m)) if m == "the temporary directory is not an absolute path"));
}

#[test]
fn posts_with_one_slug_end_the_build() {
    let (mut b, _) = run(Config::new(args(&["builder"])).unwrap());
    b.step(Event::Settings(site("")));
    let mut second = post("a", 2026, 1, 2, true);
    second.source = "posts/other.typ".into();
    let a = b.step(Event::Posts(vec![post("b", 2026, 1, 1, false), post("a", 2026, 1, 1, false), second]));
    assert!(matches!(&a, Action::Finish(Err(m)) if m == "duplicate slug a: posts/a.typ and posts/other.typ"));
}

#[test]
fn a_post_with_a_bad_slug_ends_the_build() {
    let (mut b, _) = run(Config::new(args(&["builder"])).unwrap());
    b.step(Event::Settings(site("")));
    let a = b.step(Event::Posts(vec![post("Bad Slug", 2026, 1, 1, true)]));
    assert!(matches!(&a, Action::Finish(Err(m)) if m == "slug 只能使用小写 ASCII、数字和短横线: Bad Slug"));
}

#[test]
fn a_published_date_beyond_rfc_2822_ends_the_build() {
    let (mut b, _) = run(Config::new(args(&["builder"])).unwrap());
    b.step(Event::Settings(site("")));
    let a = b.step(Event::Posts(vec![post("far", 10000, 1, 1, false)]));
    assert!(matches!(&a, Action::Finish(Err(m)) if m == "date cannot be represented by RFC 2822"));
    let (mut b, _) = run(Config::new(args(&["builder"])).unwrap());
    b.step(Event::Settings(site("")));
    let a = b.step(Event::Posts(vec![post("far", 10000, 1, 1, true)]));
    assert!(matches!(&a, Action::CleanDir(_)));
}

#[test]
fn a_feed_without_posts_is_dated_today() {
    let (mut b, _) = run(Config::new(args(&["builder"])).unwrap());
    b.step(Event::Settings(site("")));
    b.step(Event::Posts(vec![]));
    for _ in 0..5 {
        b.step(Event::Done);
    }
    let a = b.step(Event::Done);
    assert!(matches!(a, Action::ReadToday));
    let a = b.step(Event::Today(Date { year: 2026, month: 5, day: 5 }));
    assert_eq!(
        expect_write(&a, "_site/feed.xml"),
        "<rss version=\"2.0\"><channel><title>Blog</title><description>Desc</description><link></link><language>en</language><lastBuildDate>Tue, 5 May 2026 00:00:00 +0000</lastBuildDate></channel></rss>"
    );
    let a = b.step(Event::Done);
    assert_eq!(
        expect_write(&a, "_site/sitemap.xml"),
        "<urlset xmlns=\"http://www.sitemaps.org/schemas/sitemap/0.9\"><url><loc>./</loc></url></urlset>"
    );
}

#[test]
fn without_pandoc_the_markdown_is_written_by_the_fallback() {
    let (mut b, _) = run(Config::new(args(&["builder"])).unwrap());
    b.step(Event::Settings(site("")));
    let mut p = post("a", 2026, 1, 1, false);
    p.title = "A".into();
    b.step(Event::Posts(vec![p]));
    for _ in 0..5 {
        b.step(Event::Done);
    }
    b.step(Event::Text("<html><body><p>x</p></body></html>".into()));
    b.step(Event::Text("= Intro\ntext\n".into()));
    b.step(Event::Unavailable);
    b.step(Event::Done);
    let a = b.step(Event::Done);
    let md = expect_write(&a, "_site/downloads/a.md");
    assert!(md.ends_with("---\n\n# Intro\ntext\n"));
}

#[test]
fn an_unavailable_tool_elsewhere_ends_the_build() {
    let (mut b, _) = run(Config::new(args(&["builder"])).unwrap());
    let a = b.step(Event::Unavailable);
    assert!(matches!(&a, Action::Finish(Err(m)) if m == "the answer does not fit the step that was asked for"));
}
