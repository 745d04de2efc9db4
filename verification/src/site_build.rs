//! A build of the site, as a sequence of decisions: each answer from the
//! outside world (the settings read, the posts found, a page compiled, a
//! file written) moves the build to its next stage, and each stage names
//! the one outside step to take next.

use crate::config::{str_eq, Config, SiteConfigFile};
use crate::date::Date;
use crate::markdown::{
    markdown_fallback, markdown_fallback_spec, markdown_spec, render_markdown, strip_post_metadata,
    strip_post_metadata_spec,
};
use crate::post::{
    is_publish_order, is_valid_slug, lemma_newer_asym, lists_published, newer, publish_order,
    valid_slug, Post,
};
use crate::render::{
    feed_spec, index_page_spec, post_page_spec, render_feed, render_index_page, render_post_page,
    render_robots, render_sitemap, render_typst_html, rfc2822_writable, robots_spec, sitemap_spec,
    typst_article_spec,
};
use crate::text::{chars_of, push_str, string_of};
use vstd::prelude::*;

verus! {

/// Where a build stands: the stage names the outside step that it waits on.
#[derive(Debug, Clone, Copy, PartialEq, Eq, Structural)]
pub enum Stage {
    /// Making the temporary directory of a check build.
    TempDir,
    /// Reading the site's settings.
    Settings,
    /// Finding the posts.
    Posts,
    /// Preparing the output directories, one of five steps.
    Setup(usize),
    /// Compiling the page of the published post with this rank.
    Compile(usize),
    /// Reading the Typst source of that post.
    Read(usize),
    /// Converting that source to Markdown.
    Convert(usize),
    /// Creating the directory of that post's page.
    PostDir(usize),
    /// Writing that post's page.
    PostPage(usize),
    /// Writing the downloadable Markdown copy of that post.
    Download(usize),
    /// Writing the distributed Markdown copy of that post.
    Dist(usize),
    /// Writing the index page.
    Index,
    /// Reading today's date, which dates a feed without posts.
    Clock,
    /// Writing the feed.
    Feed,
    /// Writing the sitemap.
    Sitemap,
    /// Writing `robots.txt`.
    Robots,
    /// Creating `.nojekyll`.
    NoJekyll,
    /// Done: successfully, or with the message in `Build::failure`.
    Finished(bool),
}

/// The outside step that a build asks for next.
#[derive(Debug)]
pub enum Action {
    /// Make a temporary directory with the prefix `blog-check-`, keep it
    /// until the build is over, and answer with its absolute path.
    CreateTempDir,
    /// Read `site.toml` and `SITE_URL`; answer with `Event::Settings`.
    LoadSettings,
    /// Read the metadata of every `.typ` file under `posts/`; answer with
    /// `Event::Posts`.
    DiscoverPosts,
    /// Remove this directory where it exists, then create it.
    CleanDir(String),
    /// Copy the directory tree `from` to `to`, replacing `to`; `from` must
    /// exist.
    CopyTree { from: String, to: String },
    /// Create this directory and its parents; where `required` is false a
    /// failure is ignored.
    CreateDir { path: String, required: bool },
    /// Compile this Typst source to HTML; answer with the page's text.
    CompileHtml { source: String, slug: String },
    /// Read this file; answer with its text.
    ReadSource(String),
    /// Convert this Typst text to GitHub Markdown with pandoc; answer with
    /// the Markdown, or with `Event::Unavailable` where pandoc is not
    /// installed.
    ConvertMarkdown { slug: String, text: String },
    /// Create the file `path` and write `content` to it; where `required` is
    /// false only the creation must succeed.
    WriteFile { path: String, content: String, required: bool },
    /// Create this empty file.
    CreateEmptyFile(String),
    /// Read today's date in UTC; answer with `Event::Today`.
    ReadToday,
    /// The build is over, with this outcome.
    Finish(Result<(), String>),
}

/// The answer to an outside step.
#[derive(Debug)]
pub enum Event {
    /// The step succeeded and has nothing to report.
    Done,
    /// The site's settings.
    Settings(SiteConfigFile),
    /// The posts found, in the order in which they were found.
    Posts(Vec<Post>),
    /// The text that the step produced.
    Text(String),
    /// Today's date.
    Today(Date),
    /// The tool that the step needs is not installed.
    Unavailable,
    /// The step failed; the message reports why.
    Failed(String),
}

/// The plain value of an `Action`.
pub enum ActionModel {
    CreateTempDir,
    LoadSettings,
    DiscoverPosts,
    CleanDir(Seq<char>),
    CopyTree(Seq<char>, Seq<char>),
    CreateDir(Seq<char>, bool),
    CompileHtml(Seq<char>, Seq<char>),
    ReadSource(Seq<char>),
    ConvertMarkdown(Seq<char>, Seq<char>),
    WriteFile(Seq<char>, Seq<char>, bool),
    CreateEmptyFile(Seq<char>),
    ReadToday,
    Finish(Result<(), Seq<char>>),
}

/// The plain value of `a`.
pub open spec fn action_view(a: Action) -> ActionModel {
    match a {
        Action::CreateTempDir => ActionModel::CreateTempDir,
        Action::LoadSettings => ActionModel::LoadSettings,
        Action::DiscoverPosts => ActionModel::DiscoverPosts,
        Action::CleanDir(p) => ActionModel::CleanDir(p@),
        Action::CopyTree { from, to } => ActionModel::CopyTree(from@, to@),
        Action::CreateDir { path, required } => ActionModel::CreateDir(path@, required),
        Action::CompileHtml { source, slug } => ActionModel::CompileHtml(source@, slug@),
        Action::ReadSource(p) => ActionModel::ReadSource(p@),
        Action::ConvertMarkdown { slug, text } => ActionModel::ConvertMarkdown(slug@, text@),
        Action::WriteFile { path, content, required } => ActionModel::WriteFile(
            path@,
            content@,
            required,
        ),
        Action::CreateEmptyFile(p) => ActionModel::CreateEmptyFile(p@),
        Action::ReadToday => ActionModel::ReadToday,
        Action::Finish(r) => ActionModel::Finish(
            match r {
                Ok(()) => Ok(()),
                Err(m) => Err(m@),
            },
        ),
    }
}

/// `base` joined with `part` as `PathBuf::push` joins them on Unix: an
/// absolute `part` replaces `base`, otherwise a separator is put between
/// them where `base` is not empty and does not end with one.
pub open spec fn join_path(base: Seq<char>, part: Seq<char>) -> Seq<char> {
    if part.len() > 0 && part[0] == '/' {
        part
    } else if base.len() > 0 && base.last() != '/' {
        base + "/"@ + part
    } else {
        base + part
    }
}

/// `base` joined with `part`.
pub fn join_path_exec(base: &str, part: &str) -> (r: String)
    ensures
        r@ == join_path(base@, part@),
{
    proof {
        reveal_strlit("/");
    }
    let b = chars_of(base);
    let p = chars_of(part);
    if p.len() > 0 && p[0] == '/' {
        return string_of(&p);
    }
    let mut out = chars_of(base);
    if b.len() > 0 && b[b.len() - 1] != '/' {
        push_str(&mut out, "/");
    }
    push_str(&mut out, part);
    string_of(&out)
}

/// The message of a build that got an answer that does not fit the step it
/// asked for.
pub open spec fn unexpected_answer() -> Seq<char> {
    "the answer does not fit the step that was asked for"@
}

/// The message of a check build whose temporary directory is not an
/// absolute path.
pub open spec fn relative_temp_dir() -> Seq<char> {
    "the temporary directory is not an absolute path"@
}

/// The message of a slug that is not valid.
pub open spec fn invalid_slug_message(slug: Seq<char>) -> Seq<char> {
    "slug 只能使用小写 ASCII、数字和短横线: "@ + slug
}

/// The message of two posts with one slug, found at `first` and `second`.
pub open spec fn duplicate_slug_message(slug: Seq<char>, first: Seq<char>, second: Seq<char>) -> Seq<char> {
    "duplicate slug "@ + slug + ": "@ + first + " and "@ + second
}

/// The message of a date that an RFC 2822 time cannot hold.
pub open spec fn unwritable_date_message() -> Seq<char> {
    "date cannot be represented by RFC 2822"@
}

/// What is wrong with the post `p`, found after the posts `before`: a slug
/// that is not valid, a slug that an earlier post has, or, for a post that
/// is published, a date that the feed cannot write.
pub open spec fn post_problem(before: Seq<Post>, p: Post) -> Option<Seq<char>> {
    if !is_valid_slug(p.slug@) {
        Some(invalid_slug_message(p.slug@))
    } else if exists|j: int| 0 <= j < before.len() && (#[trigger] before[j]).slug@ == p.slug@ {
        let j = choose|j: int| 0 <= j < before.len() && (#[trigger] before[j]).slug@ == p.slug@;
        Some(duplicate_slug_message(p.slug@, before[j].source@, p.source@))
    } else if !p.draft && !rfc2822_writable(p.date) {
        Some(unwritable_date_message())
    } else {
        None
    }
}

/// The first problem of the posts `ps`, in the order in which they were
/// found.
pub open spec fn posts_problem(ps: Seq<Post>) -> Option<Seq<char>>
    decreases ps.len(),
{
    if ps.len() == 0 {
        None
    } else {
        match posts_problem(ps.drop_last()) {
            Some(m) => Some(m),
            None => post_problem(ps.drop_last(), ps.last()),
        }
    }
}

/// Whether a build can work on the posts `ps`: every slug is valid, no two
/// posts share one, and the feed can write the date of every published
/// post.
#[verifier::opaque]
pub open spec fn posts_ok(ps: Seq<Post>) -> bool {
    &&& forall|i: int| 0 <= i < ps.len() ==> is_valid_slug(#[trigger] ps[i].slug@)
    &&& forall|i: int, j: int| 0 <= i < j < ps.len() ==> #[trigger] ps[i].slug@ != #[trigger] ps[j].slug@
    &&& forall|i: int| 0 <= i < ps.len() && !ps[i].draft ==> rfc2822_writable(#[trigger] ps[i].date)
}

/// A build of the site.
pub struct Build {
    /// Whether the build only checks the build chain, in a temporary
    /// directory.
    pub check: bool,
    /// The temporary directory of a check build, once made.
    pub temp_dir: String,
    /// Where the HTML site is written.
    pub site_dir: String,
    /// Where the Markdown copies are written.
    pub dist_dir: String,
    /// The site's settings, once read.
    pub site: Option<SiteConfigFile>,
    /// The posts found, in the order in which they were found.
    pub posts: Vec<Post>,
    /// The positions in `posts` of the published posts, in publishing
    /// order.
    pub order: Vec<usize>,
    /// Where the build stands.
    pub stage: Stage,
    /// The article HTML of the post being built.
    pub article: String,
    /// The Typst source of the post being built, without its metadata.
    pub source_text: String,
    /// The Markdown copy of the post being built.
    pub markdown: String,
    /// Today's date, once read.
    pub today: Date,
    /// Why the build failed, once it has.
    pub failure: String,
}

/// The published post with rank `k` in `b`.
pub open spec fn published(b: Build, k: int) -> Post {
    b.posts@[b.order@[k] as int]
}

/// The published posts of `b`, in publishing order.
pub open spec fn published_seq<'a>(b: &'a Build) -> Seq<&'a Post> {
    Seq::new(b.order@.len(), |k: int| &b.posts@[b.order@[k] as int])
}

/// The directory of the page of the published post with rank `k`.
pub open spec fn post_dir(b: Build, k: int) -> Seq<char> {
    join_path(join_path(b.site_dir@, "posts"@), published(b, k).slug@)
}

/// The directory of the distributed Markdown copies.
pub open spec fn md_dir(b: Build) -> Seq<char> {
    join_path(b.dist_dir@, "md"@)
}

/// The stage that follows the preparation of the directories.
pub open spec fn first_post_stage(b: Build) -> Stage {
    if b.order@.len() > 0 {
        Stage::Compile(0)
    } else {
        Stage::Index
    }
}

/// The stage that follows the last file of the post with rank `k`.
pub open spec fn after_post_stage(b: Build, k: usize) -> Stage {
    if k + 1 < b.order@.len() {
        Stage::Compile((k + 1) as usize)
    } else {
        Stage::Index
    }
}

/// Whether `path` is an absolute path.
pub open spec fn is_absolute(path: Seq<char>) -> bool {
    path.len() > 0 && path[0] == '/'
}

impl Build {
    /// Whether the build is well formed: its order lists the published
    /// posts in publishing order, its posts have valid and distinct slugs,
    /// its settings are known once read, a check build works inside its
    /// temporary directory, and its stage names a post and a preparation
    /// step that exist.
    pub open spec fn wf(self) -> bool {
        &&& is_publish_order(self.posts@, self.order@)
        &&& lists_published(self.posts@, self.order@)
        &&& posts_ok(self.posts@)
        &&& (self.stage != Stage::TempDir && self.stage != Stage::Settings && !(
        self.stage is Finished)) ==> self.site is Some
        &&& self.stage == Stage::TempDir ==> self.check
        &&& (self.check && self.stage != Stage::TempDir && !(self.stage is Finished)) ==> {
            &&& is_absolute(self.temp_dir@)
            &&& self.site_dir@ == join_path(self.temp_dir@, "_site"@)
            &&& self.dist_dir@ == join_path(self.temp_dir@, "dist"@)
        }
        &&& self.stage == Stage::Feed ==> rfc2822_writable(self.today)
        &&& match self.stage {
            Stage::Setup(i) => i < 5,
            Stage::Compile(k) => k < self.order@.len(),
            Stage::Read(k) => k < self.order@.len(),
            Stage::Convert(k) => k < self.order@.len(),
            Stage::PostDir(k) => k < self.order@.len(),
            Stage::PostPage(k) => k < self.order@.len(),
            Stage::Download(k) => k < self.order@.len(),
            Stage::Dist(k) => k < self.order@.len(),
            _ => true,
        }
    }
}

/// The outside step that a build at `b` asks for.
pub open spec fn stage_action(b: Build) -> ActionModel {
    let site = b.site.unwrap();
    match b.stage {
        Stage::TempDir => ActionModel::CreateTempDir,
        Stage::Settings => ActionModel::LoadSettings,
        Stage::Posts => ActionModel::DiscoverPosts,
        Stage::Setup(i) => if i == 0 {
            ActionModel::CleanDir(b.site_dir@)
        } else if i == 1 {
            ActionModel::CleanDir(b.dist_dir@)
        } else if i == 2 {
            ActionModel::CopyTree("assets"@, join_path(b.site_dir@, "assets"@))
        } else if i == 3 {
            ActionModel::CreateDir(join_path(b.site_dir@, "downloads"@), true)
        } else {
            ActionModel::CreateDir(md_dir(b), false)
        },
        Stage::Compile(k) => ActionModel::CompileHtml(
            published(b, k as int).source@,
            published(b, k as int).slug@,
        ),
        Stage::Read(k) => ActionModel::ReadSource(published(b, k as int).source@),
        Stage::Convert(k) => ActionModel::ConvertMarkdown(
            published(b, k as int).slug@,
            b.source_text@,
        ),
        Stage::PostDir(k) => ActionModel::CreateDir(post_dir(b, k as int), true),
        Stage::PostPage(k) => ActionModel::WriteFile(
            join_path(post_dir(b, k as int), "index.html"@),
            post_page_spec(site, published(b, k as int), b.article@),
            true,
        ),
        Stage::Download(k) => ActionModel::WriteFile(
            join_path(
                join_path(b.site_dir@, "downloads"@),
                published(b, k as int).slug@ + ".md"@,
            ),
            b.markdown@,
            true,
        ),
        Stage::Dist(k) => ActionModel::WriteFile(
            join_path(md_dir(b), published(b, k as int).slug@ + ".md"@),
            b.markdown@,
            true,
        ),
        Stage::Index => ActionModel::WriteFile(
            join_path(b.site_dir@, "index.html"@),
            index_page_spec(site, published_seq(&b)),
            false,
        ),
        Stage::Clock => ActionModel::ReadToday,
        Stage::Feed => ActionModel::WriteFile(
            join_path(b.site_dir@, "feed.xml"@),
            feed_spec(site, published_seq(&b), b.today),
            false,
        ),
        Stage::Sitemap => ActionModel::WriteFile(
            join_path(b.site_dir@, "sitemap.xml"@),
            sitemap_spec(site, published_seq(&b)),
            true,
        ),
        Stage::Robots => ActionModel::WriteFile(
            join_path(b.site_dir@, "robots.txt"@),
            robots_spec(site.base_url@),
            true,
        ),
        Stage::NoJekyll => ActionModel::CreateEmptyFile(join_path(b.site_dir@, ".nojekyll"@)),
        Stage::Finished(ok) => ActionModel::Finish(
            if ok {
                Ok(())
            } else {
                Err(b.failure@)
            },
        ),
    }
}

/// `n` is `b` moved to `stage`, all else kept.
pub open spec fn moved(b: Build, n: Build, stage: Stage) -> bool {
    n == Build { stage, ..b }
}

/// `n` is `b` finished with the failure `msg`, all else kept.
pub open spec fn failed(b: Build, n: Build, msg: Seq<char>) -> bool {
    &&& n.failure@ == msg
    &&& n == Build { stage: Stage::Finished(false), failure: n.failure, ..b }
}

/// What the answer `e` makes of a build at `b` that has not finished and
/// whose step did not fail.
pub open spec fn advance(b: Build, e: Event, n: Build) -> bool {
    match (b.stage, e) {
        (Stage::TempDir, Event::Text(t)) => if is_absolute(t@) {
            &&& n == Build {
                stage: Stage::Settings,
                temp_dir: t,
                site_dir: n.site_dir,
                dist_dir: n.dist_dir,
                ..b
            }
            &&& n.site_dir@ == join_path(t@, "_site"@)
            &&& n.dist_dir@ == join_path(t@, "dist"@)
        } else {
            failed(b, n, relative_temp_dir())
        },
        (Stage::Settings, Event::Settings(s)) => n == Build {
            stage: Stage::Posts,
            site: Some(s),
            ..b
        },
        (Stage::Posts, Event::Posts(ps)) => match posts_problem(ps@) {
            Some(m) => failed(b, n, m),
            None => {
                &&& n == Build { stage: Stage::Setup(0), posts: ps, order: n.order, ..b }
                &&& is_publish_order(ps@, n.order@)
                &&& lists_published(ps@, n.order@)
            },
        },
        (Stage::Setup(i), Event::Done) => moved(
            b,
            n,
            if i < 4 {
                Stage::Setup((i + 1) as usize)
            } else {
                first_post_stage(b)
            },
        ),
        (Stage::Compile(k), Event::Text(doc)) => match typst_article_spec(
            published(b, k as int).title@,
            doc@,
        ) {
            Ok(a) => n == Build { stage: Stage::Read(k), article: n.article, ..b } && n.article@
                == a,
            Err(m) => failed(b, n, m),
        },
        (Stage::Read(k), Event::Text(t)) => n == Build {
            stage: Stage::Convert(k),
            source_text: n.source_text,
            ..b
        } && n.source_text@ == strip_post_metadata_spec(t@),
        (Stage::Convert(k), Event::Text(md)) => n == Build {
            stage: Stage::PostDir(k),
            markdown: n.markdown,
            ..b
        } && n.markdown@ == markdown_spec(b.site.unwrap(), published(b, k as int), md@),
        (Stage::Convert(k), Event::Unavailable) => n == Build {
            stage: Stage::PostDir(k),
            markdown: n.markdown,
            ..b
        } && n.markdown@ == markdown_spec(
            b.site.unwrap(),
            published(b, k as int),
            markdown_fallback_spec(b.source_text@),
        ),
        (Stage::PostDir(k), Event::Done) => moved(b, n, Stage::PostPage(k)),
        (Stage::PostPage(k), Event::Done) => moved(b, n, Stage::Download(k)),
        (Stage::Download(k), Event::Done) => moved(b, n, Stage::Dist(k)),
        (Stage::Dist(k), Event::Done) => moved(b, n, after_post_stage(b, k)),
        (Stage::Index, Event::Done) => moved(b, n, Stage::Clock),
        (Stage::Clock, Event::Today(d)) => if rfc2822_writable(d) {
            n == Build { stage: Stage::Feed, today: d, ..b }
        } else {
            failed(b, n, unwritable_date_message())
        },
        (Stage::Feed, Event::Done) => moved(b, n, Stage::Sitemap),
        (Stage::Sitemap, Event::Done) => moved(b, n, Stage::Robots),
        (Stage::Robots, Event::Done) => moved(b, n, Stage::NoJekyll),
        (Stage::NoJekyll, Event::Done) => moved(b, n, Stage::Finished(true)),
        _ => failed(b, n, unexpected_answer()),
    }
}

/// What the answer `e` makes of a build at `b`: a finished build stays as
/// it is, a failed step finishes the build with its message, and any other
/// answer advances it.
pub open spec fn transition(b: Build, e: Event, n: Build) -> bool {
    match b.stage {
        Stage::Finished(_) => n == b,
        _ => match e {
            Event::Failed(m) => failed(b, n, m@),
            _ => advance(b, e, n),
        },
    }
}

/// A build works only on posts that are not drafts: the post that its
/// stage names is published, and the posts that its index lists are the
/// published ones, each once, newest first.
pub proof fn law_build_skips_drafts(b: Build)
    requires
        b.wf(),
    ensures
        match b.stage {
            Stage::Compile(k) | Stage::Read(k) | Stage::Convert(k) | Stage::PostDir(k)
            | Stage::PostPage(k) | Stage::Download(k) | Stage::Dist(k) => !published(b, k as int).draft,
            _ => true,
        },
        forall|k: int| 0 <= k < published_seq(&b).len() ==> !(#[trigger] published_seq(&b)[k]).draft,
        forall|i: int|
            0 <= i < b.posts@.len() && !b.posts@[i].draft ==> exists|k: int|
                0 <= k < published_seq(&b).len() && published_seq(&b)[k] == b.posts@[i],
        forall|k1: int, k2: int|
            0 <= k1 < k2 < b.order@.len() ==> #[trigger] b.order@[k1] != #[trigger] b.order@[k2],
{
    match b.stage {
        Stage::Compile(k) | Stage::Read(k) | Stage::Convert(k) | Stage::PostDir(k)
        | Stage::PostPage(k) | Stage::Download(k) | Stage::Dist(k) => {
            assert(!b.posts@[b.order@[k as int] as int].draft);
        },
        _ => {},
    }
    assert forall|k: int| 0 <= k < published_seq(&b).len() implies !(
    #[trigger] published_seq(&b)[k]).draft by {
        assert(!b.posts@[b.order@[k] as int].draft);
    }
    assert forall|i: int| 0 <= i < b.posts@.len() && !b.posts@[i].draft implies exists|k: int|
        0 <= k < published_seq(&b).len() && published_seq(&b)[k] == b.posts@[i] by {
        assert(i < b.posts.len());
        assert(b.order@.contains(i as usize));
        let k = choose|k: int| 0 <= k < b.order@.len() && b.order@[k] == i as usize;
        assert(published_seq(&b)[k] == b.posts@[i]);
    }
    assert forall|k1: int, k2: int| 0 <= k1 < k2 < b.order@.len() implies #[trigger] b.order@[k1]
        != #[trigger] b.order@[k2] by {
        let p = b.posts@[b.order@[k1] as int];
        lemma_newer_asym(p, p);
        assert(crate::post::ordered_before(b.posts@, b.order@[k1] as int, b.order@[k2] as int));
    }
}

/// A build lists its published posts strictly newest first: of two ranks,
/// the earlier post has the later date, or the same date and the later
/// slug.
pub proof fn law_build_lists_newest_first(b: Build)
    requires
        b.wf(),
    ensures
        forall|k1: int, k2: int|
            0 <= k1 < k2 < b.order@.len() ==> newer(
                *#[trigger] published_seq(&b)[k1],
                *#[trigger] published_seq(&b)[k2],
            ),
{
    reveal(posts_ok);
    assert forall|k1: int, k2: int| 0 <= k1 < k2 < b.order@.len() implies newer(
        *#[trigger] published_seq(&b)[k1],
        *#[trigger] published_seq(&b)[k2],
    ) by {
        let i = b.order@[k1] as int;
        let j = b.order@[k2] as int;
        assert(crate::post::ordered_before(b.posts@, i, j));
        if !newer(b.posts@[i], b.posts@[j]) {
            if i < j {
                assert(b.posts@[i].slug@ != b.posts@[j].slug@);
            } else {
                assert(i != j);
            }
        }
    }
}

/// Each step of a post's turn works on the post of that rank: at rank `k`
/// the build compiles, reads and converts the source of the post at
/// position `order[k]`, and writes that post's page, with the article
/// compiled in its turn, and its Markdown copies under its slug.
pub proof fn law_post_steps_name_their_post(b: Build)
    requires
        b.wf(),
    ensures
        match b.stage {
            Stage::Compile(k) => stage_action(b) == ActionModel::CompileHtml(
                b.posts@[b.order@[k as int] as int].source@,
                b.posts@[b.order@[k as int] as int].slug@,
            ),
            Stage::Read(k) => stage_action(b) == ActionModel::ReadSource(
                b.posts@[b.order@[k as int] as int].source@,
            ),
            Stage::Convert(k) => stage_action(b) == ActionModel::ConvertMarkdown(
                b.posts@[b.order@[k as int] as int].slug@,
                b.source_text@,
            ),
            Stage::PostDir(k) => stage_action(b) == ActionModel::CreateDir(
                join_path(join_path(b.site_dir@, "posts"@), b.posts@[b.order@[k as int] as int].slug@),
                true,
            ),
            Stage::PostPage(k) => stage_action(b) == ActionModel::WriteFile(
                join_path(
                    join_path(join_path(b.site_dir@, "posts"@), b.posts@[b.order@[k as int] as int].slug@),
                    "index.html"@,
                ),
                post_page_spec(b.site->Some_0, b.posts@[b.order@[k as int] as int], b.article@),
                true,
            ),
            Stage::Download(k) => stage_action(b) matches ActionModel::WriteFile(path, _, _) && path
                == join_path(
                join_path(b.site_dir@, "downloads"@),
                b.posts@[b.order@[k as int] as int].slug@ + ".md"@,
            ),
            Stage::Dist(k) => stage_action(b) matches ActionModel::WriteFile(path, _, _) && path
                == join_path(
                join_path(b.dist_dir@, "md"@),
                b.posts@[b.order@[k as int] as int].slug@ + ".md"@,
            ),
            _ => true,
        },
{
}

/// Turns of different ranks compile different posts: two builds that
/// differ only in the rank of their compile step ask to compile posts with
/// different slugs.
pub proof fn law_ranks_compile_different_posts(b1: Build, b2: Build, k1: usize, k2: usize)
    requires
        b1.wf(),
        b1.stage == Stage::Compile(k1),
        b2 == (Build { stage: Stage::Compile(k2), ..b1 }),
        k2 < b1.order@.len(),
        k1 != k2,
    ensures
        (stage_action(b1) matches ActionModel::CompileHtml(_, s1)) && (stage_action(b2) matches ActionModel::CompileHtml(_, s2)),
        stage_action(b1)->CompileHtml_1 != stage_action(b2)->CompileHtml_1,
{
    reveal(posts_ok);
    let i = b1.order@[k1 as int] as int;
    let j = b1.order@[k2 as int] as int;
    if k1 < k2 {
        assert(crate::post::ordered_before(b1.posts@, i, j));
    } else {
        assert(crate::post::ordered_before(b1.posts@, j, i));
    }
    lemma_newer_asym(b1.posts@[i], b1.posts@[i]);
    if i < j {
        assert(b1.posts@[i].slug@ != b1.posts@[j].slug@);
    } else {
        assert(b1.posts@[j].slug@ != b1.posts@[i].slug@);
    }
}

/// A failed step ends a build that has not finished, and the build then
/// reports that step's message.
pub proof fn law_failure_ends_build(b: Build, m: String, n: Build)
    requires
        b.wf(),
        !(b.stage is Finished),
        transition(b, Event::Failed(m), n),
    ensures
        n.stage == Stage::Finished(false),
        stage_action(n) == ActionModel::Finish(Err(m@)),
{
}

/// A finished build stays as it is, whatever it is told, and keeps
/// reporting its outcome.
pub proof fn law_finished_build_stays(b: Build, e: Event, n: Build)
    requires
        b.stage is Finished,
        transition(b, e, n),
    ensures
        n == b,
        stage_action(n) == stage_action(b),
{
}

/// The position of a build's stage in the script that a build follows once
/// its posts are known: five preparation steps, seven steps for each
/// published post, then the index, today's date, the feed, the sitemap,
/// `robots.txt` and `.nojekyll`.
pub open spec fn script_pos(b: Build) -> int {
    let n = b.order@.len() as int;
    match b.stage {
        Stage::TempDir => 0,
        Stage::Settings => 0,
        Stage::Posts => 0,
        Stage::Setup(i) => i as int,
        Stage::Compile(k) => 5 + 7 * k,
        Stage::Read(k) => 5 + 7 * k + 1,
        Stage::Convert(k) => 5 + 7 * k + 2,
        Stage::PostDir(k) => 5 + 7 * k + 3,
        Stage::PostPage(k) => 5 + 7 * k + 4,
        Stage::Download(k) => 5 + 7 * k + 5,
        Stage::Dist(k) => 5 + 7 * k + 6,
        Stage::Index => 5 + 7 * n,
        Stage::Clock => 5 + 7 * n + 1,
        Stage::Feed => 5 + 7 * n + 2,
        Stage::Sitemap => 5 + 7 * n + 3,
        Stage::Robots => 5 + 7 * n + 4,
        Stage::NoJekyll => 5 + 7 * n + 5,
        Stage::Finished(_) => 5 + 7 * n + 6,
    }
}

/// Each answer that does not end a build moves it exactly one step along
/// its script, and a build ends successfully only from its last step: with
/// every step succeeding, a build with `n` published posts takes `5 + 7n +
/// 6` answers once its posts are known, and so always ends.
pub proof fn law_build_moves_one_step(b: Build, e: Event, n: Build)
    requires
        b.wf(),
        transition(b, e, n),
        !(b.stage is Finished),
        b.stage != Stage::TempDir,
        b.stage != Stage::Settings,
        b.stage != Stage::Posts,
    ensures
        n.order == b.order,
        n.stage != Stage::Finished(false) ==> script_pos(n) == script_pos(b) + 1,
        n.stage == Stage::Finished(true) ==> b.stage == Stage::NoJekyll,
        script_pos(n) <= 5 + 7 * b.order@.len() + 6,
{
    let len = b.order@.len() as int;
    match b.stage {
        Stage::Setup(i) => {
            if i == 4 && len == 0 {
                assert(first_post_stage(b) == Stage::Index);
            }
        },
        Stage::Dist(k) => {
            assert(k < len);
            if k + 1 < len {
                assert(b.order.len() == len);
                assert(((k + 1) as usize) as int == k + 1);
                assert(after_post_stage(b, k) == Stage::Compile((k + 1) as usize));
                assert(5 + 7 * (k + 1) == 5 + 7 * k + 7);
            } else {
                assert(k + 1 == len);
                assert(after_post_stage(b, k) == Stage::Index);
                assert(5 + 7 * len == 5 + 7 * k + 7);
            }
        },
        _ => {},
    }
}

/// Reading the settings and then the posts brings a build to the first step
/// of its script.
pub proof fn law_build_starts_script(b: Build, e1: Event, m: Build, e2: Event, n: Build)
    requires
        b.wf(),
        b.stage == Stage::Settings,
        transition(b, e1, m),
        m.stage == Stage::Posts,
        transition(m, e2, n),
        !(n.stage is Finished),
    ensures
        n.stage == Stage::Setup(0),
        script_pos(n) == 0,
{
}

/// Whether `path` lies strictly under the directory `dir`: `dir` is not
/// empty, `path` starts with it, and a separator follows it in `path` or
/// ends it.
pub open spec fn lies_under(path: Seq<char>, dir: Seq<char>) -> bool {
    &&& dir.len() > 0
    &&& dir.len() < path.len()
    &&& path.subrange(0, dir.len() as int) == dir
    &&& (dir.last() == '/' || path[dir.len() as int] == '/')
}

/// Whether the step `a` creates, cleans or writes only paths that lie under
/// `dir`.
pub open spec fn writes_under(a: ActionModel, dir: Seq<char>) -> bool {
    match a {
        ActionModel::CleanDir(p) => lies_under(p, dir),
        ActionModel::CopyTree(_, to) => lies_under(to, dir),
        ActionModel::CreateDir(p, _) => lies_under(p, dir),
        ActionModel::WriteFile(p, _, _) => lies_under(p, dir),
        ActionModel::CreateEmptyFile(p) => lies_under(p, dir),
        _ => true,
    }
}

/// Whether `part` names an entry inside a directory: it is not empty and
/// not absolute.
pub open spec fn is_relative_name(part: Seq<char>) -> bool {
    part.len() > 0 && part[0] != '/'
}

/// Joining a relative name to `dir`, or to a path under it, gives a path
/// under `dir`.
pub proof fn lemma_join_lies_under(base: Seq<char>, part: Seq<char>, dir: Seq<char>)
    requires
        base == dir || lies_under(base, dir),
        dir.len() > 0,
        is_relative_name(part),
    ensures
        lies_under(join_path(base, part), dir),
{
    reveal_strlit("/");
    let j = join_path(base, part);
    if base.last() != '/' {
        assert(j == base + "/"@ + part);
    } else {
        assert(j == base + part);
    }
    assert(j.subrange(0, base.len() as int) =~= base);
    assert(j.subrange(0, dir.len() as int) =~= base.subrange(0, dir.len() as int));
    if base != dir {
        assert(j[dir.len() as int] == base[dir.len() as int]);
    }
}

/// A valid slug, and a valid slug with a suffix, name entries inside a
/// directory.
proof fn lemma_slug_is_relative(slug: Seq<char>, suffix: Seq<char>)
    requires
        is_valid_slug(slug),
    ensures
        is_relative_name(slug),
        is_relative_name(slug + suffix),
{
    assert((slug + suffix)[0] == slug[0]);
    assert(crate::post::is_slug_char(slug[0]) || slug[0] == '-');
}

/// A check build never touches the directories that it was given: once it
/// has made its temporary directory, every directory that it cleans,
/// creates or copies into, and every file that it writes, lies under that
/// temporary directory.
#[verifier::rlimit(40)]
pub proof fn law_check_build_stays_in_temp_dir(b: Build)
    requires
        b.wf(),
        b.check,
    ensures
        writes_under(stage_action(b), b.temp_dir@),
{
    reveal_strlit("_site");
    reveal_strlit("dist");
    reveal_strlit("assets");
    reveal_strlit("downloads");
    reveal_strlit("md");
    reveal_strlit("posts");
    reveal_strlit("index.html");
    reveal_strlit("feed.xml");
    reveal_strlit("sitemap.xml");
    reveal_strlit("robots.txt");
    reveal_strlit(".nojekyll");
    reveal_strlit(".md");
    let t = b.temp_dir@;
    if b.stage == Stage::TempDir || b.stage is Finished {
        return;
    }
    reveal(posts_ok);
    lemma_join_lies_under(t, "_site"@, t);
    lemma_join_lies_under(t, "dist"@, t);
    let site = b.site_dir@;
    let dist = b.dist_dir@;
    match b.stage {
        Stage::Setup(i) => {
            lemma_join_lies_under(site, "assets"@, t);
            lemma_join_lies_under(site, "downloads"@, t);
            lemma_join_lies_under(dist, "md"@, t);
        },
        Stage::PostDir(k) | Stage::PostPage(k) | Stage::Download(k) | Stage::Dist(k) => {
            let slug = published(b, k as int).slug@;
            assert(is_valid_slug(b.posts@[b.order@[k as int] as int].slug@));
            lemma_slug_is_relative(slug, ".md"@);
            lemma_join_lies_under(site, "posts"@, t);
            lemma_join_lies_under(join_path(site, "posts"@), slug, t);
            lemma_join_lies_under(post_dir(b, k as int), "index.html"@, t);
            lemma_join_lies_under(site, "downloads"@, t);
            lemma_join_lies_under(join_path(site, "downloads"@), slug + ".md"@, t);
            lemma_join_lies_under(dist, "md"@, t);
            lemma_join_lies_under(md_dir(b), slug + ".md"@, t);
        },
        Stage::Index => lemma_join_lies_under(site, "index.html"@, t),
        Stage::Feed => lemma_join_lies_under(site, "feed.xml"@, t),
        Stage::Sitemap => lemma_join_lies_under(site, "sitemap.xml"@, t),
        Stage::Robots => lemma_join_lies_under(site, "robots.txt"@, t),
        Stage::NoJekyll => lemma_join_lies_under(site, ".nojekyll"@, t),
        _ => {},
    }
}

/// Starts a build with the settings `config`: a check build first makes
/// its temporary directory, any other build first reads the site's
/// settings.
pub fn run(config: Config) -> (r: (Build, Action))
    ensures
        r.0.wf(),
        r.0.check == config.check,
        r.0.stage == (if config.check {
            Stage::TempDir
        } else {
            Stage::Settings
        }),
        r.0.site_dir == config.site_dir,
        r.0.dist_dir == config.dist_dir,
        r.0.site is None,
        r.0.posts@.len() == 0,
        action_view(r.1) == stage_action(r.0),
{
    let stage = if config.check {
        Stage::TempDir
    } else {
        Stage::Settings
    };
    let b = Build {
        check: config.check,
        temp_dir: String::new(),
        site_dir: config.site_dir,
        dist_dir: config.dist_dir,
        site: None,
        posts: Vec::new(),
        order: Vec::new(),
        stage,
        article: String::new(),
        source_text: String::new(),
        markdown: String::new(),
        today: Date { year: 1970, month: 1, day: 1 },
        failure: String::new(),
    };
    proof {
        reveal(posts_ok);
    }
    let a = b.action();
    (b, a)
}

/// The first problem of the posts `ps`, if any.
pub fn find_posts_problem(ps: &Vec<Post>) -> (r: Option<String>)
    ensures
        opt_string_view(r) == posts_problem(ps@),
        r is None ==> posts_ok(ps@),
{
    let mut i: usize = 0;
    proof {
        reveal(posts_ok);
    }
    while i < ps.len()
        invariant
            i <= ps.len(),
            posts_problem(ps@.take(i as int)) is None,
            posts_ok(ps@.take(i as int)),
        decreases ps.len() - i,
    {
        let ghost before = ps@.take(i as int);
        assert(ps@.take(i + 1).drop_last() =~= before);
        assert(ps@.take(i + 1).last() == ps@[i as int]);
        let p = &ps[i];
        if !valid_slug(p.slug.as_str()) {
            let mut v = chars_of("slug 只能使用小写 ASCII、数字和短横线: ");
            push_str(&mut v, p.slug.as_str());
            proof {
                lemma_problem_persists(ps@, i + 1);
            }
            return Some(string_of(&v));
        }
        let mut j: usize = 0;
        while j < i
            invariant
                j <= i < ps.len(),
                before == ps@.take(i as int),
                p.slug@ == ps@[i as int].slug@,
                p.source@ == ps@[i as int].source@,
                posts_ok(before),
                posts_problem(before) is None,
                ps@.take(i + 1).drop_last() == before,
                ps@.take(i + 1).last() == ps@[i as int],
                is_valid_slug(ps@[i as int].slug@),
                forall|m: int| 0 <= m < j ==> (#[trigger] before[m]).slug@ != ps@[i as int].slug@,
            decreases i - j,
        {
            assert(before[j as int] == ps@[j as int]);
            if str_eq(ps[j].slug.as_str(), p.slug.as_str()) {
                proof {
                    assert(before[j as int].slug@ == ps@[i as int].slug@);
                    let w = choose|m: int| 0 <= m < before.len() && (#[trigger] before[m]).slug@ == ps@[i as int].slug@;
                    reveal(posts_ok);
                    if w != j {
                        if w < j {
                            assert(before[w].slug@ != before[j as int].slug@);
                        } else {
                            assert(before[j as int].slug@ != before[w].slug@);
                        }
                    }
                    lemma_problem_persists(ps@, i + 1);
                }
                let mut v = chars_of("duplicate slug ");
                push_str(&mut v, p.slug.as_str());
                push_str(&mut v, ": ");
                push_str(&mut v, ps[j].source.as_str());
                push_str(&mut v, " and ");
                push_str(&mut v, p.source.as_str());
                return Some(string_of(&v));
            }
            j = j + 1;
        }
        assert(!exists|m: int| 0 <= m < before.len() && (#[trigger] before[m]).slug@ == ps@[i as int].slug@);
        if !p.draft && !(0 <= p.date.year && p.date.year <= 9999) {
            proof {
                lemma_problem_persists(ps@, i + 1);
            }
            return Some(string_of(&chars_of("date cannot be represented by RFC 2822")));
        }
        assert(posts_ok(ps@.take(i + 1))) by {
            reveal(posts_ok);
            let now = ps@.take(i + 1);
            assert forall|x: int, y: int| 0 <= x < y < now.len() implies #[trigger] now[x].slug@
                != #[trigger] now[y].slug@ by {
                if y == i {
                    assert(now[x] == before[x]);
                } else {
                    assert(now[x] == before[x] && now[y] == before[y]);
                }
            }
            assert forall|x: int| 0 <= x < now.len() implies is_valid_slug(#[trigger] now[x].slug@) by {
                if x < i {
                    assert(now[x] == before[x]);
                }
            }
            assert forall|x: int| 0 <= x < now.len() && !now[x].draft implies rfc2822_writable(
                #[trigger] now[x].date,
            ) by {
                if x < i {
                    assert(now[x] == before[x]);
                }
            }
        }
        i = i + 1;
    }
    assert(ps@.take(i as int) =~= ps@);
    None
}

/// Once a prefix of `ps` has a problem, `ps` has that first problem.
proof fn lemma_problem_persists(ps: Seq<Post>, k: int)
    requires
        0 <= k <= ps.len(),
        posts_problem(ps.take(k)) is Some,
    ensures
        posts_problem(ps) == posts_problem(ps.take(k)),
    decreases ps.len(),
{
    if ps.len() == k {
        assert(ps.take(k) =~= ps);
    } else {
        assert(ps.drop_last().take(k) =~= ps.take(k));
        lemma_problem_persists(ps.drop_last(), k);
    }
}

/// The plain value of an optional message.
pub open spec fn opt_string_view(o: Option<String>) -> Option<Seq<char>> {
    match o {
        Some(s) => Some(s@),
        None => None,
    }
}

impl Build {
    /// The outside step that this build asks for.
    #[verifier::rlimit(40)]
    pub fn action(&self) -> (r: Action)
        requires
            self.wf(),
        ensures
            action_view(r) == stage_action(*self),
    {
        match self.stage {
            Stage::TempDir => Action::CreateTempDir,
            Stage::Settings => Action::LoadSettings,
            Stage::Posts => Action::DiscoverPosts,
            Stage::Setup(i) => self.setup_action(i),
            Stage::Compile(k) => {
                let p = &self.posts[self.order[k]];
                Action::CompileHtml { source: p.source.clone(), slug: p.slug.clone() }
            },
            Stage::Read(k) => Action::ReadSource(self.posts[self.order[k]].source.clone()),
            Stage::Convert(k) => Action::ConvertMarkdown {
                slug: self.posts[self.order[k]].slug.clone(),
                text: self.source_text.clone(),
            },
            Stage::PostDir(k) => Action::CreateDir { path: self.post_dir_exec(k), required: true },
            Stage::PostPage(k) => self.page_action(k),
            Stage::Download(k) => {
                let downloads = join_path_exec(self.site_dir.as_str(), "downloads");
                Action::WriteFile {
                    path: join_path_exec(downloads.as_str(), self.md_name(k).as_str()),
                    content: self.markdown.clone(),
                    required: true,
                }
            },
            Stage::Dist(k) => {
                let md = join_path_exec(self.dist_dir.as_str(), "md");
                Action::WriteFile {
                    path: join_path_exec(md.as_str(), self.md_name(k).as_str()),
                    content: self.markdown.clone(),
                    required: true,
                }
            },
            Stage::Index => self.listing_action(),
            Stage::Clock => Action::ReadToday,
            Stage::Feed => self.listing_action(),
            Stage::Sitemap => self.listing_action(),
            Stage::Robots => self.robots_action(),
            Stage::NoJekyll => Action::CreateEmptyFile(
                join_path_exec(self.site_dir.as_str(), ".nojekyll"),
            ),
            Stage::Finished(ok) => {
                if ok {
                    Action::Finish(Ok(()))
                } else {
                    Action::Finish(Err(self.failure.clone()))
                }
            },
        }
    }

    /// The step of the preparation stage `i`.
    fn setup_action(&self, i: usize) -> (r: Action)
        requires
            self.wf(),
            self.stage == Stage::Setup(i),
        ensures
            action_view(r) == stage_action(*self),
    {
        if i == 0 {
            Action::CleanDir(self.site_dir.clone())
        } else if i == 1 {
            Action::CleanDir(self.dist_dir.clone())
        } else if i == 2 {
            Action::CopyTree {
                from: string_of(&chars_of("assets")),
                to: join_path_exec(self.site_dir.as_str(), "assets"),
            }
        } else if i == 3 {
            Action::CreateDir {
                path: join_path_exec(self.site_dir.as_str(), "downloads"),
                required: true,
            }
        } else {
            Action::CreateDir { path: join_path_exec(self.dist_dir.as_str(), "md"), required: false }
        }
    }

    /// The step that writes the page of the post with rank `k`.
    fn page_action(&self, k: usize) -> (r: Action)
        requires
            self.wf(),
            self.stage == Stage::PostPage(k),
        ensures
            action_view(r) == stage_action(*self),
    {
        let site = match &self.site {
            Some(s) => s,
            None => {
                return Action::Finish(Ok(()));
            },
        };
        let dir = self.post_dir_exec(k);
        Action::WriteFile {
            path: join_path_exec(dir.as_str(), "index.html"),
            content: render_post_page(site, &self.posts[self.order[k]], self.article.clone()),
            required: true,
        }
    }

    /// The published posts, in publishing order.
    fn published_refs(&self) -> (r: Vec<&Post>)
        requires
            self.wf(),
        ensures
            r@ == published_seq(self),
    {
        let mut refs: Vec<&Post> = Vec::new();
        let mut k: usize = 0;
        while k < self.order.len()
            invariant
                self.wf(),
                k <= self.order.len(),
                refs@ =~= published_seq(self).take(k as int),
            decreases self.order.len() - k,
        {
            refs.push(&self.posts[self.order[k]]);
            k = k + 1;
        }
        assert(published_seq(self).take(k as int) =~= published_seq(self));
        refs
    }

    /// The step that writes the index page, the feed or the sitemap.
    fn listing_action(&self) -> (r: Action)
        requires
            self.wf(),
            self.stage == Stage::Index || self.stage == Stage::Feed || self.stage == Stage::Sitemap,
        ensures
            action_view(r) == stage_action(*self),
    {
        let site = match &self.site {
            Some(s) => s,
            None => {
                return Action::Finish(Ok(()));
            },
        };
        let refs = self.published_refs();
        if self.stage == Stage::Index {
            Action::WriteFile {
                path: join_path_exec(self.site_dir.as_str(), "index.html"),
                content: render_index_page(site, &refs),
                required: false,
            }
        } else if self.stage == Stage::Feed {
            assert forall|k: int| 0 <= k < refs.len() implies rfc2822_writable(
                #[trigger] refs@[k].date,
            ) by {
                reveal(posts_ok);
                assert(!self.posts@[self.order@[k] as int].draft);
            }
            Action::WriteFile {
                path: join_path_exec(self.site_dir.as_str(), "feed.xml"),
                content: render_feed(site, &refs, &self.today),
                required: false,
            }
        } else {
            Action::WriteFile {
                path: join_path_exec(self.site_dir.as_str(), "sitemap.xml"),
                content: render_sitemap(site, &refs),
                required: true,
            }
        }
    }

    /// The step that writes `robots.txt`.
    fn robots_action(&self) -> (r: Action)
        requires
            self.wf(),
            self.stage == Stage::Robots,
        ensures
            action_view(r) == stage_action(*self),
    {
        let site = match &self.site {
            Some(s) => s,
            None => {
                return Action::Finish(Ok(()));
            },
        };
        Action::WriteFile {
            path: join_path_exec(self.site_dir.as_str(), "robots.txt"),
            content: render_robots(site),
            required: true,
        }
    }

    /// The directory of the page of the published post with rank `k`.
    fn post_dir_exec(&self, k: usize) -> (r: String)
        requires
            self.wf(),
            k < self.order@.len(),
        ensures
            r@ == post_dir(*self, k as int),
    {
        let posts_dir = join_path_exec(self.site_dir.as_str(), "posts");
        join_path_exec(posts_dir.as_str(), self.posts[self.order[k]].slug.as_str())
    }

    /// The file name of the Markdown copy of the published post with rank
    /// `k`.
    fn md_name(&self, k: usize) -> (r: String)
        requires
            self.wf(),
            k < self.order@.len(),
        ensures
            r@ == published(*self, k as int).slug@ + ".md"@,
    {
        let mut v = chars_of(self.posts[self.order[k]].slug.as_str());
        push_str(&mut v, ".md");
        string_of(&v)
    }

    /// Finishes this build with the failure `msg`.
    fn fail(&mut self, msg: String)
        requires
            old(self).wf(),
        ensures
            final(self).wf(),
            failed(*old(self), *final(self), msg@),
    {
        self.stage = Stage::Finished(false);
        self.failure = msg;
    }

    /// Finishes this build because `event` does not answer its step.
    fn refuse(&mut self)
        requires
            old(self).wf(),
        ensures
            final(self).wf(),
            failed(*old(self), *final(self), unexpected_answer()),
    {
        self.fail(string_of(&chars_of("the answer does not fit the step that was asked for")));
    }

    /// Moves this build, at the stage `Stage::TempDir`, on with `event`.
    fn take_temp_dir(&mut self, event: Event)
        requires
            old(self).wf(),
            old(self).stage == Stage::TempDir,
            !(event is Failed),
        ensures
            final(self).wf(),
            advance(*old(self), event, *final(self)),
    {
        match event {
            Event::Text(t) => {
                let cs = chars_of(t.as_str());
                if cs.len() > 0 && cs[0] == '/' {
                    self.site_dir = join_path_exec(t.as_str(), "_site");
                    self.dist_dir = join_path_exec(t.as_str(), "dist");
                    self.temp_dir = t;
                    self.stage = Stage::Settings;
                } else {
                    self.fail(string_of(&chars_of("the temporary directory is not an absolute path")));
                }
            },
            _ => self.refuse(),
        }
    }

    /// Moves this build, at the stage `Stage::Settings`, on with `event`.
    fn take_settings(&mut self, event: Event)
        requires
            old(self).wf(),
            old(self).stage == Stage::Settings,
            !(event is Failed),
        ensures
            final(self).wf(),
            advance(*old(self), event, *final(self)),
    {
        match event {
            Event::Settings(s) => {
                self.site = Some(s);
                self.stage = Stage::Posts;
            },
            _ => self.refuse(),
        }
    }

    /// Moves this build, at the stage `Stage::Posts`, on with `event`:
    /// posts with a slug that is not valid, a slug found twice, or a date
    /// that the feed cannot write end the build.
    fn take_posts(&mut self, event: Event)
        requires
            old(self).wf(),
            old(self).stage == Stage::Posts,
            !(event is Failed),
        ensures
            final(self).wf(),
            advance(*old(self), event, *final(self)),
    {
        match event {
            Event::Posts(ps) => {
                match find_posts_problem(&ps) {
                    Some(m) => self.fail(m),
                    None => {
                        let order = publish_order(&ps);
                        self.posts = ps;
                        self.order = order;
                        self.stage = Stage::Setup(0);
                    },
                }
            },
            _ => self.refuse(),
        }
    }

    /// Moves this build, at the stage `Stage::Clock`, on with `event`.
    fn take_today(&mut self, event: Event)
        requires
            old(self).wf(),
            old(self).stage == Stage::Clock,
            !(event is Failed),
        ensures
            final(self).wf(),
            advance(*old(self), event, *final(self)),
    {
        match event {
            Event::Today(d) => {
                if 0 <= d.year && d.year <= 9999 {
                    self.today = d;
                    self.stage = Stage::Feed;
                } else {
                    self.fail(string_of(&chars_of("date cannot be represented by RFC 2822")));
                }
            },
            _ => self.refuse(),
        }
    }

    /// Moves this build, at a stage that waits for a step to be done, on
    /// with `event`.
    fn take_done(&mut self, event: Event)
        requires
            old(self).wf(),
            match old(self).stage {
                Stage::Setup(_) | Stage::PostDir(_) | Stage::PostPage(_) | Stage::Download(_)
                | Stage::Dist(_) | Stage::Index | Stage::Feed | Stage::Sitemap | Stage::Robots
                | Stage::NoJekyll => true,
                _ => false,
            },
            !(event is Failed),
        ensures
            final(self).wf(),
            advance(*old(self), event, *final(self)),
    {
        match event {
            Event::Done => {},
            _ => {
                self.refuse();
                return;
            },
        }
        match self.stage {
            Stage::Setup(i) => {
                if i < 4 {
                    self.stage = Stage::Setup(i + 1);
                } else if self.order.len() > 0 {
                    self.stage = Stage::Compile(0);
                } else {
                    self.stage = Stage::Index;
                }
            },
            Stage::PostDir(k) => {
                self.stage = Stage::PostPage(k);
            },
            Stage::PostPage(k) => {
                self.stage = Stage::Download(k);
            },
            Stage::Download(k) => {
                self.stage = Stage::Dist(k);
            },
            Stage::Dist(k) => {
                assert(k < self.order.len());
                if k + 1 < self.order.len() {
                    self.stage = Stage::Compile(k + 1);
                } else {
                    self.stage = Stage::Index;
                }
            },
            Stage::Index => {
                self.stage = Stage::Clock;
            },
            Stage::Feed => {
                self.stage = Stage::Sitemap;
            },
            Stage::Sitemap => {
                self.stage = Stage::Robots;
            },
            Stage::Robots => {
                self.stage = Stage::NoJekyll;
            },
            _ => {
                self.stage = Stage::Finished(true);
            },
        }
    }

    /// Moves this build, at a stage that waits for a text, on with `event`;
    /// where pandoc is not installed, the Markdown is written without it.
    fn take_text(&mut self, event: Event)
        requires
            old(self).wf(),
            match old(self).stage {
                Stage::Compile(_) | Stage::Read(_) | Stage::Convert(_) => true,
                _ => false,
            },
            !(event is Failed),
        ensures
            final(self).wf(),
            advance(*old(self), event, *final(self)),
    {
        let text = match event {
            Event::Text(t) => t,
            Event::Unavailable => {
                if let Stage::Convert(_) = self.stage {
                    markdown_fallback(self.source_text.as_str())
                } else {
                    self.refuse();
                    return;
                }
            },
            _ => {
                self.refuse();
                return;
            },
        };
        match self.stage {
            Stage::Compile(k) => {
                match render_typst_html(&self.posts[self.order[k]], text.as_str()) {
                    Ok(a) => {
                        self.article = a;
                        self.stage = Stage::Read(k);
                    },
                    Err(m) => {
                        self.fail(m);
                    },
                }
            },
            Stage::Read(k) => {
                self.source_text = strip_post_metadata(text.as_str());
                self.stage = Stage::Convert(k);
            },
            Stage::Convert(k) => {
                let md = match &self.site {
                    Some(site) => render_markdown(&self.posts[self.order[k]], site, text.as_str()),
                    None => String::new(),
                };
                self.markdown = md;
                self.stage = Stage::PostDir(k);
            },
            _ => {},
        }
    }

    /// Moves this build on with the answer `event` to the step it asked for,
    /// and returns the next step to take.
    pub fn step(&mut self, event: Event) -> (r: Action)
        requires
            old(self).wf(),
        ensures
            final(self).wf(),
            transition(*old(self), event, *final(self)),
            action_view(r) == stage_action(*final(self)),
    {
        if let Stage::Finished(_) = self.stage {
            return self.action();
        }
        if let Event::Failed(m) = event {
            self.fail(m);
            return self.action();
        }
        match self.stage {
            Stage::TempDir => self.take_temp_dir(event),
            Stage::Settings => self.take_settings(event),
            Stage::Posts => self.take_posts(event),
            Stage::Clock => self.take_today(event),
            Stage::Compile(_) | Stage::Read(_) | Stage::Convert(_) => self.take_text(event),
            _ => self.take_done(event),
        }
        self.action()
    }
}

} // verus!
