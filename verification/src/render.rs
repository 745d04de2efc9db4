//! The HTML pages of the site (the page frame, each post's page and the
//! index), the absolute addresses in them, `robots.txt`, the feed and the
//! sitemap.

use crate::config::SiteConfigFile;
use crate::date::{format_date, formatted_date, iso_date, Date, ISO_DATE_FORMAT, READER_DATE_FORMAT};
use crate::html::{
    escape_chars, escape_html_spec, extract_body, extract_body_spec, join, join_exec,
    strip_duplicate_title, strip_duplicate_title_spec, HtmlError,
};
use crate::post::Post;
use crate::text::{
    chars_of, push_chars, push_str, repeat, repeat_exec, string_of, trim_end, trim_end_char,
    trim_end_char_exec, trim_end_exec, trim_start, trim_start_char, trim_start_char_exec,
    trim_start_exec,
};
use crate::xml::{
    element, rfc2822, rfc2822_text, text_element, xml_element, xml_text_element,
};
use vstd::prelude::*;

verus! {

/// The page template around a body, with its fields filled in, before its leading white space is trimmed.
pub open spec fn shell_text(language: Seq<char>, title: Seq<char>, description: Seq<char>, canonical_tag: Seq<char>, site_title: Seq<char>, prefix: Seq<char>, home_href: Seq<char>, site_description: Seq<char>, body: Seq<char>, author: Seq<char>) -> Seq<char> {
    "\n        <!doctype html>\n        <html lang=\""@ + language + "\">\n        <head>\n          <meta charset=\"utf-8\">\n          <meta name=\"viewport\" content=\"width=device-width, initial-scale=1\">\n          <title>"@ + title + "</title>\n          <meta name=\"description\" content=\""@ + description + "\">\n          "@ + canonical_tag + "\n          <link rel=\"alternate\" type=\"application/rss+xml\" title=\""@ + site_title + "\" href=\""@ + prefix + "feed.xml\">\n          <link rel=\"stylesheet\" href=\""@ + prefix + "assets/style.css\">\n        </head>\n        <body>\n          <header class=\"site-header\">\n            <p class=\"site-title\"><a href=\""@ + home_href + "\">"@ + site_title + "</a></p>\n            <p class=\"site-description\">"@ + site_description + "</p> </header>\n        "@ + body + "\n          <footer class=\"site-footer\">\n            <span>"@ + author + "</span>\n          </footer>\n        </body>\n        </html>\n"@
}

/// Fills in the page template.
fn fill_shell(language: &Vec<char>, title: &Vec<char>, description: &Vec<char>, canonical_tag: &Vec<char>, site_title: &Vec<char>, prefix: &Vec<char>, home_href: &Vec<char>, site_description: &Vec<char>, body: &Vec<char>, author: &Vec<char>) -> (r: Vec<char>)
    ensures
        r@ == shell_text(language@, title@, description@, canonical_tag@, site_title@, prefix@, home_href@, site_description@, body@, author@),
{
    let mut out = chars_of("\n        <!doctype html>\n        <html lang=\"");
    push_chars(&mut out, language);
    push_str(&mut out, "\">\n        <head>\n          <meta charset=\"utf-8\">\n          <meta name=\"viewport\" content=\"width=device-width, initial-scale=1\">\n          <title>");
    push_chars(&mut out, title);
    push_str(&mut out, "</title>\n          <meta name=\"description\" content=\"");
    push_chars(&mut out, description);
    push_str(&mut out, "\">\n          ");
    push_chars(&mut out, canonical_tag);
    push_str(&mut out, "\n          <link rel=\"alternate\" type=\"application/rss+xml\" title=\"");
    push_chars(&mut out, site_title);
    push_str(&mut out, "\" href=\"");
    push_chars(&mut out, prefix);
    push_str(&mut out, "feed.xml\">\n          <link rel=\"stylesheet\" href=\"");
    push_chars(&mut out, prefix);
    push_str(&mut out, "assets/style.css\">\n        </head>\n        <body>\n          <header class=\"site-header\">\n            <p class=\"site-title\"><a href=\"");
    push_chars(&mut out, home_href);
    push_str(&mut out, "\">");
    push_chars(&mut out, site_title);
    push_str(&mut out, "</a></p>\n            <p class=\"site-description\">");
    push_chars(&mut out, site_description);
    push_str(&mut out, "</p> </header>\n        ");
    push_chars(&mut out, body);
    push_str(&mut out, "\n          <footer class=\"site-footer\">\n            <span>");
    push_chars(&mut out, author);
    push_str(&mut out, "</span>\n          </footer>\n        </body>\n        </html>\n");
    out
}

/// The body of a post page, with its fields filled in.
pub open spec fn post_body_text(title: Seq<char>, iso_date: Seq<char>, reader_date: Seq<char>, tags: Seq<char>, article: Seq<char>, slug: Seq<char>) -> Seq<char> {
    "\n<main>\n  <article>\n    <header>\n      <h1 class=\"post-title\">"@ + title + "</h1>\n      <div class=\"post-meta\">\n        <time datetime=\""@ + iso_date + "\">"@ + reader_date + "</time>\n        "@ + tags + "\n      </div>\n    </header>\n    <div class=\"post-body\">\n      "@ + article + "\n    </div>\n    <nav class=\"post-actions\" aria-label=\"文章操作\">\n      <a href=\"../../\">返回首页</a>\n      <a href=\"../../downloads/"@ + slug + ".md\">Markdown 版本</a>\n    </nav>\n  </article>\n</main>\n"@
}

/// Fills in the body of a post page.
fn fill_post_body(title: &Vec<char>, iso_date: &Vec<char>, reader_date: &Vec<char>, tags: &Vec<char>, article: &Vec<char>, slug: &Vec<char>) -> (r: Vec<char>)
    ensures
        r@ == post_body_text(title@, iso_date@, reader_date@, tags@, article@, slug@),
{
    let mut out = chars_of("\n<main>\n  <article>\n    <header>\n      <h1 class=\"post-title\">");
    push_chars(&mut out, title);
    push_str(&mut out, "</h1>\n      <div class=\"post-meta\">\n        <time datetime=\"");
    push_chars(&mut out, iso_date);
    push_str(&mut out, "\">");
    push_chars(&mut out, reader_date);
    push_str(&mut out, "</time>\n        ");
    push_chars(&mut out, tags);
    push_str(&mut out, "\n      </div>\n    </header>\n    <div class=\"post-body\">\n      ");
    push_chars(&mut out, article);
    push_str(&mut out, "\n    </div>\n    <nav class=\"post-actions\" aria-label=\"文章操作\">\n      <a href=\"../../\">返回首页</a>\n      <a href=\"../../downloads/");
    push_chars(&mut out, slug);
    push_str(&mut out, ".md\">Markdown 版本</a>\n    </nav>\n  </article>\n</main>\n");
    out
}

/// The list item of one post on the index page.
pub open spec fn index_item_text(slug: Seq<char>, title: Seq<char>, iso_date: Seq<char>, reader_date: Seq<char>, description: Seq<char>) -> Seq<char> {
    "<li>\n  <h2><a href=\"posts/"@ + slug + "/\">"@ + title + "</a></h2>\n  <time datetime=\""@ + iso_date + "\">"@ + reader_date + "</time>\n  <p>"@ + description + "</p>\n</li>"@
}

/// Fills in an index list item.
fn fill_index_item(slug: &Vec<char>, title: &Vec<char>, iso_date: &Vec<char>, reader_date: &Vec<char>, description: &Vec<char>) -> (r: Vec<char>)
    ensures
        r@ == index_item_text(slug@, title@, iso_date@, reader_date@, description@),
{
    let mut out = chars_of("<li>\n  <h2><a href=\"posts/");
    push_chars(&mut out, slug);
    push_str(&mut out, "/\">");
    push_chars(&mut out, title);
    push_str(&mut out, "</a></h2>\n  <time datetime=\"");
    push_chars(&mut out, iso_date);
    push_str(&mut out, "\">");
    push_chars(&mut out, reader_date);
    push_str(&mut out, "</time>\n  <p>");
    push_chars(&mut out, description);
    push_str(&mut out, "</p>\n</li>");
    out
}

/// The body of the index page.
pub open spec fn index_body_text(site_title: Seq<char>, site_description: Seq<char>, items: Seq<char>) -> Seq<char> {
    "<main>\n  <h1>"@ + site_title + "</h1>\n  <p>"@ + site_description + "</p>\n  <ul class=\"post-list\">\n    "@ + items + "\n  </ul>\n</main>"@
}

/// Fills in the body of the index page.
fn fill_index_body(site_title: &Vec<char>, site_description: &Vec<char>, items: &Vec<char>) -> (r: Vec<char>)
    ensures
        r@ == index_body_text(site_title@, site_description@, items@),
{
    let mut out = chars_of("<main>\n  <h1>");
    push_chars(&mut out, site_title);
    push_str(&mut out, "</h1>\n  <p>");
    push_chars(&mut out, site_description);
    push_str(&mut out, "</p>\n  <ul class=\"post-list\">\n    ");
    push_chars(&mut out, items);
    push_str(&mut out, "\n  </ul>\n</main>");
    out
}

/// `s` without its leading and trailing slashes (`str::trim_matches('/')`).
pub open spec fn trim_slashes(s: Seq<char>) -> Seq<char> {
    trim_end_char(trim_start_char(s, '/'), '/')
}

/// The absolute address of `path` on a site whose address is `base`: empty
/// where the site has no address, else the address, a slash, and the path
/// without its surrounding slashes.
pub open spec fn absolute_url_spec(base: Seq<char>, path: Seq<char>) -> Seq<char> {
    let p = trim_slashes(path);
    if base.len() == 0 {
        Seq::empty()
    } else if p.len() == 0 {
        base + "/"@
    } else {
        base + "/"@ + p
    }
}

/// Removing the leading `c`s of `a + b`: those of `a`, and those of `b` too
/// where `a` holds nothing else.
proof fn lemma_trim_start_char_append(a: Seq<char>, b: Seq<char>, c: char)
    ensures
        trim_start_char(a, c).len() > 0 ==> trim_start_char(a + b, c) == trim_start_char(a, c) + b,
        trim_start_char(a, c).len() == 0 ==> trim_start_char(a + b, c) == trim_start_char(b, c),
    decreases a.len(),
{
    if a.len() > 0 && a[0] == c {
        assert((a + b).drop_first() =~= a.drop_first() + b);
        lemma_trim_start_char_append(a.drop_first(), b, c);
    } else if a.len() == 0 {
        assert(a + b =~= b);
    }
}

/// Slashes around a path do not change its absolute address.
pub proof fn law_absolute_url_ignores_outer_slashes(base: Seq<char>, path: Seq<char>)
    ensures
        absolute_url_spec(base, "/"@ + path + "/"@) == absolute_url_spec(base, path),
{
    reveal_strlit("/");
    let wrapped = "/"@ + path + "/"@;
    assert(wrapped.drop_first() =~= path + "/"@);
    assert(trim_start_char(wrapped, '/') == trim_start_char(path + "/"@, '/'));
    lemma_trim_start_char_append(path, "/"@, '/');
    let t = trim_start_char(path, '/');
    if t.len() > 0 {
        assert((t + "/"@).drop_last() =~= t);
    } else {
        assert(("/"@).drop_first() =~= Seq::<char>::empty());
        assert(trim_start_char("/"@, '/') == trim_start_char(Seq::<char>::empty(), '/'));
    }
}

/// The absolute address of `path` on `site`.
pub fn absolute_url(site: &SiteConfigFile, path: &str) -> (r: String)
    ensures
        r@ == absolute_url_spec(site.base_url@, path@),
{
    let v = absolute_url_chars(&chars_of(site.base_url.as_str()), &chars_of(path));
    string_of(&v)
}

/// `absolute_url` on characters.
fn absolute_url_chars(base: &Vec<char>, path: &Vec<char>) -> (r: Vec<char>)
    ensures
        r@ == absolute_url_spec(base@, path@),
{
    let p = trim_end_char_exec(&trim_start_char_exec(path, '/'), '/');
    if base.len() == 0 {
        return Vec::new();
    }
    let mut out: Vec<char> = Vec::new();
    push_chars(&mut out, base);
    push_str(&mut out, "/");
    if p.len() > 0 {
        push_chars(&mut out, &p);
    } else {
        assert(out@ =~= base@ + "/"@);
    }
    out
}

/// The canonical address of a page: the site's address where the page
/// names no path, else the absolute address of its path.
pub open spec fn canonical_url(base: Seq<char>, canonical_path: Option<Seq<char>>) -> Seq<char> {
    let p = match canonical_path {
        Some(p) => p,
        None => Seq::empty(),
    };
    if p.len() == 0 {
        base
    } else {
        absolute_url_spec(base, p)
    }
}

/// The `<link rel="canonical">` tag for `url`; nothing where `url` is empty.
pub open spec fn canonical_tag(url: Seq<char>) -> Seq<char> {
    if url.len() == 0 {
        Seq::empty()
    } else {
        "<link rel=\"canonical\" href=\""@ + escape_html_spec(url) + "\">"@
    }
}

/// The link to the home page from a page `prefix` levels below it.
pub open spec fn home_href(prefix: Seq<char>) -> Seq<char> {
    if prefix.len() == 0 {
        "./"@
    } else {
        prefix
    }
}

/// The plain value of an optional string.
pub open spec fn opt_view(o: Option<&str>) -> Option<Seq<char>> {
    match o {
        Some(s) => Some(s@),
        None => None,
    }
}

/// A complete page of `site`: the frame filled with the escaped settings,
/// title and description, the canonical link, relative links for a page
/// `depth` directories below the root, and `body` without its trailing
/// white space; the whole without its leading white space.
pub open spec fn render_shell_spec(
    site: SiteConfigFile,
    title: Seq<char>,
    description: Seq<char>,
    depth: nat,
    body: Seq<char>,
    canonical_path: Option<Seq<char>>,
) -> Seq<char> {
    let prefix = repeat("../"@, depth);
    trim_start(
        shell_text(
            escape_html_spec(site.language@),
            escape_html_spec(title),
            escape_html_spec(description),
            canonical_tag(canonical_url(site.base_url@, canonical_path)),
            escape_html_spec(site.title@),
            prefix,
            home_href(prefix),
            escape_html_spec(site.description@),
            trim_end(body),
            escape_html_spec(site.author@),
        ),
    )
}

/// Wraps `body` in the site's page frame.
pub fn render_shell(
    site: &SiteConfigFile,
    title: &str,
    description: &str,
    depth: usize,
    body: &str,
    canonical_path: Option<&str>,
) -> (r: String)
    ensures
        r@ == render_shell_spec(*site, title@, description@, depth as nat, body@, opt_view(canonical_path)),
{
    let v = shell_chars(
        site,
        &chars_of(title),
        &chars_of(description),
        depth,
        &chars_of(body),
        match canonical_path {
            Some(p) => Some(chars_of(p)),
            None => None,
        },
    );
    string_of(&v)
}

/// `render_shell` on characters.
fn shell_chars(
    site: &SiteConfigFile,
    title: &Vec<char>,
    description: &Vec<char>,
    depth: usize,
    body: &Vec<char>,
    canonical_path: Option<Vec<char>>,
) -> (r: Vec<char>)
    ensures
        r@ == render_shell_spec(
            *site,
            title@,
            description@,
            depth as nat,
            body@,
            match canonical_path {
                Some(p) => Some(p@),
                None => None,
            },
        ),
{
    proof {
        reveal_strlit("./");
    }
    let prefix = repeat_exec("../", depth);
    let home = if prefix.len() == 0 {
        chars_of("./")
    } else {
        chars_of_vec(&prefix)
    };
    let path = match canonical_path {
        Some(p) => p,
        None => Vec::new(),
    };
    let base = chars_of(site.base_url.as_str());
    let canonical = if path.len() == 0 {
        base
    } else {
        absolute_url_chars(&base, &path)
    };
    let tag = if canonical.len() == 0 {
        Vec::new()
    } else {
        let mut t = chars_of("<link rel=\"canonical\" href=\"");
        push_chars(&mut t, &escape_chars(&canonical));
        push_str(&mut t, "\">");
        t
    };
    let site_title = escape_chars(&chars_of(site.title.as_str()));
    let full = fill_shell(
        &escape_chars(&chars_of(site.language.as_str())),
        &escape_chars(title),
        &escape_chars(description),
        &tag,
        &site_title,
        &prefix,
        &home,
        &escape_chars(&chars_of(site.description.as_str())),
        &trim_end_exec(body),
        &escape_chars(&chars_of(site.author.as_str())),
    );
    trim_start_exec(&full)
}

/// A copy of `v`.
fn chars_of_vec(v: &Vec<char>) -> (r: Vec<char>)
    ensures
        r@ == v@,
{
    let mut out: Vec<char> = Vec::new();
    push_chars(&mut out, v);
    out
}

/// The tags of a post as the post page shows them: each as an escaped
/// `<span>#tag</span>`, separated by spaces.
pub open spec fn tags_html(tags: Seq<Seq<char>>) -> Seq<char> {
    join(tags.map_values(|t: Seq<char>| "<span>#"@ + escape_html_spec(t) + "</span>"@), " "@)
}

/// The page of `post` on `site`, around the article HTML `article_html`.
pub open spec fn post_page_spec(site: SiteConfigFile, post: Post, article_html: Seq<char>) -> Seq<char> {
    render_shell_spec(
        site,
        post.title@ + " | "@ + site.title@,
        post.description@,
        2,
        post_body_text(
            escape_html_spec(post.title@),
            formatted_date(post.date.year as int, post.date.month as int, post.date.day as int, ISO_DATE_FORMAT@),
            formatted_date(post.date.year as int, post.date.month as int, post.date.day as int, READER_DATE_FORMAT@),
            tags_html(post.tags@.map_values(|t: String| t@)),
            article_html,
            post.slug@,
        ),
        Some("posts/"@ + post.slug@),
    )
}

/// The HTML of the tags of a post.
fn tags_html_exec(tags: &Vec<String>) -> (r: Vec<char>)
    ensures
        r@ == tags_html(tags@.map_values(|t: String| t@)),
{
    let ghost want = tags@.map_values(|t: String| t@).map_values(
        |t: Seq<char>| "<span>#"@ + escape_html_spec(t) + "</span>"@,
    );
    let mut spans: Vec<Vec<char>> = Vec::new();
    let mut i: usize = 0;
    while i < tags.len()
        invariant
            i <= tags.len(),
            want == tags@.map_values(|t: String| t@).map_values(
                |t: Seq<char>| "<span>#"@ + escape_html_spec(t) + "</span>"@,
            ),
            spans@.map_values(|w: Vec<char>| w@) == want.take(i as int),
        decreases tags.len() - i,
    {
        let mut s = chars_of("<span>#");
        push_chars(&mut s, &escape_chars(&chars_of(tags[i].as_str())));
        push_str(&mut s, "</span>");
        let ghost before = spans@;
        spans.push(s);
        assert(spans@.map_values(|w: Vec<char>| w@) =~= before.map_values(|w: Vec<char>| w@) + seq![
            want[i as int],
        ]);
        assert(want.take(i + 1) =~= want.take(i as int) + seq![want[i as int]]);
        i = i + 1;
    }
    assert(want.take(tags.len() as int) =~= want);
    join_exec(&spans, " ")
}

/// The page of `post` on `site`, around the compiled article
/// `article_html`.
pub fn render_post_page(site: &SiteConfigFile, post: &Post, article_html: String) -> (r: String)
    ensures
        r@ == post_page_spec(*site, *post, article_html@),
{
    let body = fill_post_body(
        &escape_chars(&chars_of(post.title.as_str())),
        &chars_of(iso_date(&post.date).as_str()),
        &chars_of(format_date(&post.date).as_str()),
        &tags_html_exec(&post.tags),
        &chars_of(article_html.as_str()),
        &chars_of(post.slug.as_str()),
    );
    let mut title = chars_of(post.title.as_str());
    push_str(&mut title, " | ");
    push_str(&mut title, site.title.as_str());
    let mut path = chars_of("posts/");
    push_str(&mut path, post.slug.as_str());
    let v = shell_chars(site, &title, &chars_of(post.description.as_str()), 2, &body, Some(path));
    string_of(&v)
}

/// The list item of `post` on the index page.
pub open spec fn index_item(post: Post) -> Seq<char> {
    index_item_text(
        escape_html_spec(post.slug@),
        escape_html_spec(post.title@),
        formatted_date(post.date.year as int, post.date.month as int, post.date.day as int, ISO_DATE_FORMAT@),
        formatted_date(post.date.year as int, post.date.month as int, post.date.day as int, READER_DATE_FORMAT@),
        escape_html_spec(post.description@),
    )
}

/// The list of posts on the index page: their items, one per line, or a
/// note that there are none.
pub open spec fn index_items(posts: Seq<&Post>) -> Seq<char> {
    let items = join(posts.map_values(|p: &Post| index_item(*p)), "\n"@);
    if items.len() == 0 {
        "<li>暂无文章。</li>"@
    } else {
        items
    }
}

/// The index page of `site`, listing `posts` in their order.
pub open spec fn index_page_spec(site: SiteConfigFile, posts: Seq<&Post>) -> Seq<char> {
    render_shell_spec(
        site,
        site.title@,
        site.description@,
        0,
        index_body_text(escape_html_spec(site.title@), escape_html_spec(site.description@), index_items(posts)),
        None,
    )
}

/// The index page of `site`, listing `posts` in their order.
pub fn render_index_page(site: &SiteConfigFile, posts: &Vec<&Post>) -> (r: String)
    ensures
        r@ == index_page_spec(*site, posts@),
{
    let ghost want = posts@.map_values(|p: &Post| index_item(*p));
    let mut items: Vec<Vec<char>> = Vec::new();
    let mut i: usize = 0;
    while i < posts.len()
        invariant
            i <= posts.len(),
            want == posts@.map_values(|p: &Post| index_item(*p)),
            items@.map_values(|w: Vec<char>| w@) == want.take(i as int),
        decreases posts.len() - i,
    {
        let p: &Post = posts[i];
        let item = fill_index_item(
            &escape_chars(&chars_of(p.slug.as_str())),
            &escape_chars(&chars_of(p.title.as_str())),
            &chars_of(iso_date(&p.date).as_str()),
            &chars_of(format_date(&p.date).as_str()),
            &escape_chars(&chars_of(p.description.as_str())),
        );
        let ghost before = items@;
        items.push(item);
        assert(items@.map_values(|w: Vec<char>| w@) =~= before.map_values(|w: Vec<char>| w@) + seq![
            want[i as int],
        ]);
        assert(want.take(i + 1) =~= want.take(i as int) + seq![want[i as int]]);
        i = i + 1;
    }
    assert(want.take(posts.len() as int) =~= want);
    let joined = join_exec(&items, "\n");
    let list = if joined.len() == 0 {
        chars_of("<li>暂无文章。</li>")
    } else {
        joined
    };
    let site_title = escape_chars(&chars_of(site.title.as_str()));
    let body = fill_index_body(&site_title, &escape_chars(&chars_of(site.description.as_str())), &list);
    let v = shell_chars(site, &chars_of(site.title.as_str()), &chars_of(site.description.as_str()), 0, &body, None);
    string_of(&v)
}

/// `robots.txt` for a site whose address is `base`: every robot is allowed
/// everywhere, and where the address is known the sitemap is named.
pub open spec fn robots_spec(base: Seq<char>) -> Seq<char> {
    if base.len() == 0 {
        "User-agent: *\nAllow: /\n"@
    } else {
        "User-agent: *\nAllow: /\nSitemap: "@ + base + "/sitemap.xml\n"@
    }
}

/// `robots.txt` for `site`.
pub fn render_robots(site: &SiteConfigFile) -> (r: String)
    ensures
        r@ == robots_spec(site.base_url@),
{
    if site.base_url.as_str().is_empty() {
        return string_of(&chars_of("User-agent: *\nAllow: /\n"));
    }
    let mut v = chars_of("User-agent: *\nAllow: /\nSitemap: ");
    push_str(&mut v, site.base_url.as_str());
    push_str(&mut v, "/sitemap.xml\n");
    string_of(&v)
}

/// The message that reports an HTML error.
pub open spec fn html_error_text(e: Option<Seq<char>>) -> Seq<char> {
    match e {
        None => "missing body"@,
        Some(m) => m,
    }
}

/// The article HTML of a post whose title is `title`, from the page that
/// Typst compiled, `document`: the content of its `<body>` without a leading
/// heading that repeats the title; where the page has no body, the message
/// `解析失败`.
pub open spec fn typst_article_spec(title: Seq<char>, document: Seq<char>) -> Result<Seq<char>, Seq<char>> {
    match extract_body_spec(document) {
        Err(_) => Err("解析失败"@),
        Ok(body) => match strip_duplicate_title_spec(body, title) {
            Ok(a) => Ok(a),
            Err(e) => Err(html_error_text(e)),
        },
    }
}

/// The plain value of a text result.
pub open spec fn text_result_view(r: Result<String, String>) -> Result<Seq<char>, Seq<char>> {
    match r {
        Ok(s) => Ok(s@),
        Err(e) => Err(e@),
    }
}

/// The article HTML of `post`, from the page `document` that Typst
/// compiled from its source.
pub fn render_typst_html(post: &Post, document: &str) -> (r: Result<String, String>)
    ensures
        text_result_view(r) == typst_article_spec(post.title@, document@),
{
    let body = match extract_body(document) {
        Ok(b) => b,
        Err(_) => {
            return Err(string_of(&chars_of("解析失败")));
        },
    };
    match strip_duplicate_title(body.as_str(), post.title.as_str()) {
        Ok(a) => Ok(a),
        Err(HtmlError::MissingBody) => Err(string_of(&chars_of("missing body"))),
        Err(HtmlError::BadPattern(m)) => Err(m),
    }
}

/// The address of `path` on the site: absolute where the site's address is
/// known, else `path` relative to the site's root (`./` for the root).
pub open spec fn site_url(base: Seq<char>, path: Seq<char>) -> Seq<char> {
    if base.len() == 0 {
        if path.len() == 0 {
            "./"@
        } else {
            path
        }
    } else {
        absolute_url_spec(base, path)
    }
}

/// The address of `path` on `site`.
fn site_url_exec(site: &SiteConfigFile, path: &str) -> (r: String)
    ensures
        r@ == site_url(site.base_url@, path@),
{
    if site.base_url.as_str().is_empty() {
        if path.is_empty() {
            string_of(&chars_of("./"))
        } else {
            string_of(&chars_of(path))
        }
    } else {
        absolute_url(site, path)
    }
}

/// The path of the page of the post with this slug.
pub open spec fn post_path(slug: Seq<char>) -> Seq<char> {
    "posts/"@ + slug + "/"@
}

/// The path of the page of `post`.
fn post_path_exec(post: &Post) -> (r: String)
    ensures
        r@ == post_path(post.slug@),
{
    let mut v = chars_of("posts/");
    push_str(&mut v, post.slug.as_str());
    push_str(&mut v, "/");
    string_of(&v)
}

/// The RFC 2822 time of the start of `d`.
pub open spec fn rfc2822_of(d: Date) -> Seq<char> {
    rfc2822_text(d.year as int, d.month as int, d.day as int)
}

/// Whether chrono can write `d` as an RFC 2822 time: a year of at most four
/// digits that is not negative.
pub open spec fn rfc2822_writable(d: Date) -> bool {
    0 <= d.year <= 9999
}

/// The feed item of `post` on `site`.
pub open spec fn feed_item(site: SiteConfigFile, post: Post) -> Seq<char> {
    let url = site_url(site.base_url@, post_path(post.slug@));
    xml_element(
        "item"@,
        None,
        xml_text_element("title"@, post.title@) + xml_text_element("link"@, url)
            + xml_text_element("guid"@, url) + xml_text_element("pubDate"@, rfc2822_of(post.date))
            + xml_text_element("description"@, post.description@),
    )
}

/// The feed items of `posts`, in their order.
pub open spec fn feed_items(site: SiteConfigFile, posts: Seq<&Post>) -> Seq<char>
    decreases posts.len(),
{
    if posts.len() == 0 {
        Seq::empty()
    } else {
        feed_items(site, posts.drop_last()) + feed_item(site, *posts.last())
    }
}

/// The RSS 2.0 feed of `site` listing `posts` in their order: the site's
/// title, description, address and language, the time of the first post's
/// day (of `today` where there is no post), and one item per post.
pub open spec fn feed_spec(site: SiteConfigFile, posts: Seq<&Post>, today: Date) -> Seq<char> {
    let latest = if posts.len() > 0 {
        posts[0].date
    } else {
        today
    };
    xml_element(
        "rss"@,
        Some(("version"@, "2.0"@)),
        xml_element(
            "channel"@,
            None,
            xml_text_element("title"@, site.title@) + xml_text_element(
                "description"@,
                site.description@,
            ) + xml_text_element("link"@, site.base_url@) + xml_text_element(
                "language"@,
                site.language@,
            ) + xml_text_element("lastBuildDate"@, rfc2822_of(latest)) + feed_items(site, posts),
        ),
    )
}

/// The feed item of `post` on `site`.
fn render_feed_item(site: &SiteConfigFile, post: &Post) -> (r: String)
    requires
        rfc2822_writable(post.date),
    ensures
        r@ == feed_item(*site, *post),
{
    let url = site_url_exec(site, post_path_exec(post).as_str());
    let mut v = chars_of(text_element("title", post.title.as_str()).as_str());
    push_str(&mut v, text_element("link", url.as_str()).as_str());
    push_str(&mut v, text_element("guid", url.as_str()).as_str());
    push_str(&mut v, text_element("pubDate", rfc2822(&post.date).as_str()).as_str());
    push_str(&mut v, text_element("description", post.description.as_str()).as_str());
    element("item", None, string_of(&v).as_str())
}

/// The text of `feed.xml`: the RSS 2.0 feed of `site` listing `posts` in
/// their order, dated by the first post, or by `today` where there is none.
pub fn render_feed(site: &SiteConfigFile, posts: &Vec<&Post>, today: &Date) -> (r: String)
    requires
        forall|k: int| 0 <= k < posts.len() ==> rfc2822_writable(#[trigger] posts@[k].date),
        posts.len() == 0 ==> rfc2822_writable(*today),
    ensures
        r@ == feed_spec(*site, posts@, *today),
{
    let mut items: Vec<char> = Vec::new();
    let mut i: usize = 0;
    while i < posts.len()
        invariant
            i <= posts.len(),
            forall|k: int| 0 <= k < posts.len() ==> rfc2822_writable(#[trigger] posts@[k].date),
            items@ == feed_items(*site, posts@.take(i as int)),
        decreases posts.len() - i,
    {
        let item = render_feed_item(site, posts[i]);
        assert(posts@.take(i + 1).drop_last() =~= posts@.take(i as int));
        push_str(&mut items, item.as_str());
        i = i + 1;
    }
    assert(posts@.take(i as int) =~= posts@);
    let latest = if posts.len() > 0 {
        rfc2822(&posts[0].date)
    } else {
        rfc2822(today)
    };
    let mut channel = chars_of(text_element("title", site.title.as_str()).as_str());
    push_str(&mut channel, text_element("description", site.description.as_str()).as_str());
    push_str(&mut channel, text_element("link", site.base_url.as_str()).as_str());
    push_str(&mut channel, text_element("language", site.language.as_str()).as_str());
    push_str(&mut channel, text_element("lastBuildDate", latest.as_str()).as_str());
    push_chars(&mut channel, &items);
    let inner = element("channel", None, string_of(&channel).as_str());
    element("rss", Some(("version", "2.0")), inner.as_str())
}

/// The namespace of the sitemap protocol.
pub const SITEMAP_NAMESPACE: &'static str = "http://www.sitemaps.org/schemas/sitemap/0.9";

/// A sitemap entry: the page's address and, where given, the date of its
/// last change.
pub open spec fn sitemap_url(loc: Seq<char>, lastmod: Option<Seq<char>>) -> Seq<char> {
    xml_element(
        "url"@,
        None,
        xml_text_element("loc"@, loc) + match lastmod {
            Some(d) => xml_text_element("lastmod"@, d),
            None => Seq::empty(),
        },
    )
}

/// The sitemap entry of `post` on `site`, dated by the post.
pub open spec fn sitemap_entry(site: SiteConfigFile, post: Post) -> Seq<char> {
    sitemap_url(
        site_url(site.base_url@, post_path(post.slug@)),
        Some(
            formatted_date(
                post.date.year as int,
                post.date.month as int,
                post.date.day as int,
                ISO_DATE_FORMAT@,
            ),
        ),
    )
}

/// The sitemap entries of `posts`, in their order.
pub open spec fn sitemap_entries(site: SiteConfigFile, posts: Seq<&Post>) -> Seq<char>
    decreases posts.len(),
{
    if posts.len() == 0 {
        Seq::empty()
    } else {
        sitemap_entries(site, posts.drop_last()) + sitemap_entry(site, *posts.last())
    }
}

/// The sitemap of `site`: the home page, then the page of each post in
/// `posts`, in their order.
pub open spec fn sitemap_spec(site: SiteConfigFile, posts: Seq<&Post>) -> Seq<char> {
    xml_element(
        "urlset"@,
        Some(("xmlns"@, SITEMAP_NAMESPACE@)),
        sitemap_url(site_url(site.base_url@, Seq::empty()), None) + sitemap_entries(site, posts),
    )
}

/// The text of `sitemap.xml`: the home page and the page of each post in
/// `posts`, in their order.
pub fn render_sitemap(site: &SiteConfigFile, posts: &Vec<&Post>) -> (r: String)
    ensures
        r@ == sitemap_spec(*site, posts@),
{
    let mut entries: Vec<char> = Vec::new();
    let mut i: usize = 0;
    while i < posts.len()
        invariant
            i <= posts.len(),
            entries@ == sitemap_entries(*site, posts@.take(i as int)),
        decreases posts.len() - i,
    {
        let p = posts[i];
        let loc = site_url_exec(site, post_path_exec(p).as_str());
        let mut e = chars_of(text_element("loc", loc.as_str()).as_str());
        push_str(&mut e, text_element("lastmod", iso_date(&p.date).as_str()).as_str());
        let entry = element("url", None, string_of(&e).as_str());
        assert(posts@.take(i + 1).drop_last() =~= posts@.take(i as int));
        push_str(&mut entries, entry.as_str());
        i = i + 1;
    }
    assert(posts@.take(i as int) =~= posts@);
    let home = site_url_exec(site, "");
    let mut inner = chars_of(element("url", None, text_element("loc", home.as_str()).as_str()).as_str());
    proof {
        reveal_strlit("");
        assert(xml_text_element("loc"@, home@) + Seq::<char>::empty() =~= xml_text_element("loc"@, home@));
    }
    push_chars(&mut inner, &entries);
    element("urlset", Some(("xmlns", SITEMAP_NAMESPACE)), string_of(&inner).as_str())
}

} // verus!
