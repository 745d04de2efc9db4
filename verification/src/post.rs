//! Posts: their metadata, read from the JSON that `typst query` prints for a
//! post's `<post-meta>` label, and the choice and order of the posts that a
//! build publishes.

use crate::config::str_eq;
use crate::date::{date_before, date_key, date_lt, parse_date, parsed_date, Date};
use crate::text::{chars_of, string_of};
use vstd::prelude::*;

verus! {

/// A JSON value, with its object members in document order. Numbers are
/// kept as the text that denotes them.
#[derive(Debug)]
pub enum JsonValue {
    Null,
    Bool(bool),
    Number(String),
    Str(String),
    Array(Vec<JsonValue>),
    Object(Vec<(String, JsonValue)>),
}

/// The value of the first member of `entries` named `key`.
pub open spec fn lookup(entries: Seq<(String, JsonValue)>, key: Seq<char>) -> Option<JsonValue>
    decreases entries.len(),
{
    if entries.len() == 0 {
        None
    } else if entries[0].0@ == key {
        Some(entries[0].1)
    } else {
        lookup(entries.drop_first(), key)
    }
}

/// The member `key` of `v` where `v` is an object that has one
/// (`serde_json::Value::get`).
pub open spec fn json_get(v: JsonValue, key: Seq<char>) -> Option<JsonValue> {
    match v {
        JsonValue::Object(entries) => lookup(entries@, key),
        _ => None,
    }
}

/// The text of `v` where `v` is a string (`Value::as_str`).
pub open spec fn json_str(v: Option<JsonValue>) -> Option<Seq<char>> {
    match v {
        Some(JsonValue::Str(s)) => Some(s@),
        _ => None,
    }
}

/// The boolean `v` where `v` is one (`Value::as_bool`).
pub open spec fn json_bool(v: Option<JsonValue>) -> Option<bool> {
    match v {
        Some(JsonValue::Bool(b)) => Some(b),
        _ => None,
    }
}

/// The texts of `items` where every one of them is a string.
pub open spec fn all_strs(items: Seq<JsonValue>) -> Option<Seq<Seq<char>>>
    decreases items.len(),
{
    if items.len() == 0 {
        Some(Seq::empty())
    } else {
        match items[0] {
            JsonValue::Str(s) => match all_strs(items.drop_first()) {
                Some(rest) => Some(seq![s@] + rest),
                None => None,
            },
            _ => None,
        }
    }
}

/// The value of `key` in `entries`.
pub fn lookup_exec<'a>(entries: &'a Vec<(String, JsonValue)>, key: &str) -> (r: Option<
    &'a JsonValue,
>)
    ensures
        match r {
            Some(x) => lookup(entries@, key@) == Some(*x),
            None => lookup(entries@, key@) is None,
        },
{
    let mut i: usize = 0;
    assert(entries@.skip(0) =~= entries@);
    while i < entries.len()
        invariant
            i <= entries.len(),
            lookup(entries@, key@) == lookup(entries@.skip(i as int), key@),
        decreases entries.len() - i,
    {
        assert(entries@.skip(i as int)[0] == entries@[i as int]);
        if str_eq(entries[i].0.as_str(), key) {
            return Some(&entries[i].1);
        }
        assert(entries@.skip(i as int).drop_first() =~= entries@.skip(i + 1));
        i = i + 1;
    }
    None
}

/// The member `key` of `v`.
pub fn json_get_exec<'a>(v: &'a JsonValue, key: &str) -> (r: Option<&'a JsonValue>)
    ensures
        match r {
            Some(x) => json_get(*v, key@) == Some(*x),
            None => json_get(*v, key@) is None,
        },
{
    match v {
        JsonValue::Object(entries) => lookup_exec(entries, key),
        _ => None,
    }
}

/// One of the metadata fields of a post.
#[derive(Debug, Clone, Copy, PartialEq, Eq, Structural)]
pub enum Field {
    Slug,
    Title,
    Date,
    Description,
    Tags,
    Draft,
}

/// Why a post's metadata was refused.
#[derive(Debug, PartialEq, Eq)]
pub enum PostError {
    /// The query output has no `value` member.
    MissingValue,
    /// A field is absent or of the wrong kind.
    InvalidField(Field),
    /// One of the tags is not a string.
    NonStringTag,
    /// The date does not parse; the text is chrono's message.
    BadDate(String),
    /// The slug is not lowercase ASCII letters and digits in groups joined
    /// by single hyphens; the text is the slug.
    InvalidSlug(String),
}

/// The name of `f` in the metadata.
pub open spec fn field_name(f: Field) -> Seq<char> {
    match f {
        Field::Slug => "slug"@,
        Field::Title => "title"@,
        Field::Date => "date"@,
        Field::Description => "description"@,
        Field::Tags => "tags"@,
        Field::Draft => "draft"@,
    }
}

/// The name of `f` in the metadata.
pub fn field_name_exec(f: Field) -> (r: &'static str)
    ensures
        r@ == field_name(f),
{
    match f {
        Field::Slug => "slug",
        Field::Title => "title",
        Field::Date => "date",
        Field::Description => "description",
        Field::Tags => "tags",
        Field::Draft => "draft",
    }
}

/// The message that reports `e`.
pub open spec fn post_error_message(e: PostError) -> Seq<char> {
    match e {
        PostError::MissingValue => "JSON 中没有 value 字段"@,
        PostError::InvalidField(f) => "metadata 中没有有效的 "@ + field_name(f) + " 字段"@,
        PostError::NonStringTag => "tags 中存在非字符串项"@,
        PostError::BadDate(m) => m@,
        PostError::InvalidSlug(slug) => "slug 只能使用小写 ASCII、数字和短横线: "@ + slug@,
    }
}

impl PostError {
    /// The message that reports this error.
    pub fn message(&self) -> (r: String)
        ensures
            r@ == post_error_message(*self),
    {
        match self {
            PostError::MissingValue => string_of(&chars_of("JSON 中没有 value 字段")),
            PostError::InvalidField(f) => {
                let mut v = chars_of("metadata 中没有有效的 ");
                let mut name = chars_of(field_name_exec(*f));
                let mut tail = chars_of(" 字段");
                v.append(&mut name);
                v.append(&mut tail);
                string_of(&v)
            },
            PostError::NonStringTag => string_of(&chars_of("tags 中存在非字符串项")),
            PostError::BadDate(m) => m.clone(),
            PostError::InvalidSlug(slug) => {
                let mut v = chars_of("slug 只能使用小写 ASCII、数字和短横线: ");
                let mut tail = chars_of(slug.as_str());
                v.append(&mut tail);
                string_of(&v)
            },
        }
    }
}

/// A post, as its metadata describes it.
#[derive(Debug)]
pub struct Post {
    /// The path of the post's Typst source.
    pub source: String,
    pub slug: String,
    pub title: String,
    pub date: Date,
    pub description: String,
    pub tags: Vec<String>,
    /// Drafts are not published.
    pub draft: bool,
}

/// The plain value of a post: source, slug, title, date, description, tags
/// and draft flag.
pub type PostModel = (Seq<char>, Seq<char>, Seq<char>, (int, int, int), Seq<char>, Seq<Seq<char>>, bool);

/// The plain value of `p`.
pub open spec fn post_view(p: Post) -> PostModel {
    (
        p.source@,
        p.slug@,
        p.title@,
        date_key(p.date),
        p.description@,
        p.tags@.map_values(|t: String| t@),
        p.draft,
    )
}

/// The plain value of an error of `Post::new`: the date's message stays a
/// `String`, which is compared by its characters.
pub open spec fn post_error_view(e: PostError) -> (int, Option<Field>, Seq<char>) {
    match e {
        PostError::MissingValue => (0, None, Seq::empty()),
        PostError::InvalidField(f) => (1, Some(f), Seq::empty()),
        PostError::NonStringTag => (2, None, Seq::empty()),
        PostError::BadDate(m) => (3, None, m@),
        PostError::InvalidSlug(slug) => (4, None, slug@),
    }
}

/// The plain value of what `Post::new` returns.
pub open spec fn post_result_view(r: Result<Post, PostError>) -> Result<
    PostModel,
    (int, Option<Field>, Seq<char>),
> {
    match r {
        Ok(p) => Ok(post_view(p)),
        Err(e) => Err(post_error_view(e)),
    }
}

/// The string field `f` of `meta`, or the error that reports it missing.
pub open spec fn str_field(meta: JsonValue, f: Field) -> Result<Seq<char>, (int, Option<Field>, Seq<char>)> {
    match json_str(json_get(meta, field_name(f))) {
        Some(s) => Ok(s),
        None => Err((1, Some(f), Seq::empty())),
    }
}

/// Whether `c` may stand in a slug between hyphens.
pub open spec fn is_slug_char(c: char) -> bool {
    ('a' <= c && c <= 'z') || ('0' <= c && c <= '9')
}

/// Whether `s` is a valid slug, `[a-z0-9]+(-[a-z0-9]+)*`: lowercase ASCII
/// letters and digits, in groups joined by single hyphens.
pub open spec fn is_valid_slug(s: Seq<char>) -> bool {
    &&& s.len() > 0
    &&& forall|i: int| 0 <= i < s.len() ==> is_slug_char(#[trigger] s[i]) || s[i] == '-'
    &&& s[0] != '-'
    &&& s.last() != '-'
    &&& forall|i: int| 0 <= i < s.len() - 1 ==> !(#[trigger] s[i] == '-' && s[i + 1] == '-')
}

/// Whether `slug` is a valid slug.
pub fn valid_slug(slug: &str) -> (r: bool)
    ensures
        r == is_valid_slug(slug@),
{
    let cs = chars_of(slug);
    let n = cs.len();
    if n == 0 || cs[0] == '-' || cs[n - 1] == '-' {
        return false;
    }
    let mut i: usize = 0;
    while i < n
        invariant
            i <= n == cs@.len(),
            cs@ == slug@,
            forall|j: int| 0 <= j < i ==> is_slug_char(#[trigger] cs@[j]) || cs@[j] == '-',
            forall|j: int| 0 <= j < i && j < n - 1 ==> !(#[trigger] cs@[j] == '-' && cs@[j + 1] == '-'),
        decreases n - i,
    {
        let c = cs[i];
        let ok = ('a' <= c && c <= 'z') || ('0' <= c && c <= '9') || c == '-';
        if !ok {
            return false;
        }
        if c == '-' && i + 1 < n && cs[i + 1] == '-' {
            return false;
        }
        i = i + 1;
    }
    true
}

/// The draft flag of `meta`: false where the key is absent, the boolean
/// where it is one, and an error otherwise.
pub open spec fn draft_field(meta: JsonValue) -> Option<bool> {
    match json_get(meta, "draft"@) {
        None => Some(false),
        Some(JsonValue::Bool(b)) => Some(b),
        Some(_) => None,
    }
}

/// The post that the query output `output` describes for the source
/// `source`: the fields are read in the order slug, title, date,
/// description, tags, draft (false where absent), and the first one that
/// is missing or of the wrong kind is reported; then the slug is checked,
/// and the date is parsed last.
pub open spec fn post_from_json(source: Seq<char>, output: JsonValue) -> Result<
    PostModel,
    (int, Option<Field>, Seq<char>),
> {
    match json_get(output, "value"@) {
        None => Err((0, None, Seq::empty())),
        Some(meta) => match (
            str_field(meta, Field::Slug),
            str_field(meta, Field::Title),
            str_field(meta, Field::Date),
            str_field(meta, Field::Description),
        ) {
            (Err(e), _, _, _) => Err(e),
            (Ok(_), Err(e), _, _) => Err(e),
            (Ok(_), Ok(_), Err(e), _) => Err(e),
            (Ok(_), Ok(_), Ok(_), Err(e)) => Err(e),
            (Ok(slug), Ok(title), Ok(date), Ok(description)) => match json_get(
                meta,
                "tags"@,
            ) {
                Some(JsonValue::Array(items)) => match all_strs(items@) {
                    None => Err((2, None, Seq::empty())),
                    Some(tags) => match draft_field(meta) {
                        None => Err((1, Some(Field::Draft), Seq::empty())),
                        Some(draft) => if !is_valid_slug(slug) {
                            Err((4, None, slug))
                        } else {
                            match parsed_date(date) {
                                Err(m) => Err((3, None, m)),
                                Ok(d) => Ok((source, slug, title, d, description, tags, draft)),
                            }
                        },
                    },
                },
                _ => Err((1, Some(Field::Tags), Seq::empty())),
            },
        },
    }
}

/// A post read from query output carries what the metadata under `value`
/// holds: its source, the slug, title, date and description strings, the
/// tags, a valid slug, the date as chrono parses it, and the draft flag as
/// the metadata's boolean (not a draft where there is none).
pub proof fn law_post_keeps_its_metadata(source: Seq<char>, output: JsonValue)
    ensures
        post_from_json(source, output) matches Ok(m) ==> {
            let meta = json_get(output, "value"@)->Some_0;
            &&& json_get(output, "value"@) is Some
            &&& m.0 == source
            &&& json_str(json_get(meta, "slug"@)) == Some(m.1)
            &&& json_str(json_get(meta, "title"@)) == Some(m.2)
            &&& json_str(json_get(meta, "description"@)) == Some(m.4)
            &&& json_str(json_get(meta, "date"@)) matches Some(d) && parsed_date(d) == Ok::<
                (int, int, int),
                Seq<char>,
            >(m.3)
            &&& json_get(meta, "tags"@) matches Some(JsonValue::Array(items)) && all_strs(items@)
                == Some(m.5)
            &&& is_valid_slug(m.1)
            &&& json_get(meta, "draft"@) is None ==> !m.6
            &&& forall|b: bool| json_get(meta, "draft"@) == Some(JsonValue::Bool(b)) ==> m.6 == b
        },
{
    reveal_strlit("slug");
    reveal_strlit("title");
    reveal_strlit("date");
    reveal_strlit("description");
    reveal_strlit("draft");
}

/// Whether a post's metadata is complete: the slug, title, date and
/// description are strings, the tags a list of strings, and the draft flag
/// a boolean or absent.
pub open spec fn metadata_complete(meta: JsonValue) -> bool {
    &&& json_str(json_get(meta, "slug"@)) is Some
    &&& json_str(json_get(meta, "title"@)) is Some
    &&& json_str(json_get(meta, "date"@)) is Some
    &&& json_str(json_get(meta, "description"@)) is Some
    &&& json_get(meta, "tags"@) matches Some(JsonValue::Array(items)) && all_strs(items@) is Some
    &&& (json_get(meta, "draft"@) is None || json_get(meta, "draft"@) matches Some(
        JsonValue::Bool(_),
    ))
}

/// Complete metadata with a valid slug and a date that chrono parses is
/// always read: a post is refused only for what is missing or wrong in it,
/// and its draft flag is the metadata's.
pub proof fn law_complete_metadata_is_read(source: Seq<char>, output: JsonValue)
    requires
        json_get(output, "value"@) is Some,
        metadata_complete(json_get(output, "value"@)->Some_0),
        is_valid_slug(json_str(json_get(json_get(output, "value"@)->Some_0, "slug"@))->Some_0),
        parsed_date(json_str(json_get(json_get(output, "value"@)->Some_0, "date"@))->Some_0) is Ok,
    ensures
        post_from_json(source, output) matches Ok(m) && m.6 == (json_get(
            json_get(output, "value"@)->Some_0,
            "draft"@,
        ) == Some(JsonValue::Bool(true))),
{
    reveal_strlit("slug");
    reveal_strlit("title");
    reveal_strlit("date");
    reveal_strlit("description");
    reveal_strlit("draft");
}

/// The string field `f` of `meta`.
fn str_field_exec(meta: &JsonValue, f: Field) -> (r: Result<String, PostError>)
    ensures
        match r {
            Ok(s) => str_field(*meta, f) == Ok::<Seq<char>, (int, Option<Field>, Seq<char>)>(s@),
            Err(e) => str_field(*meta, f) == Err::<Seq<char>, (int, Option<Field>, Seq<char>)>(
                post_error_view(e),
            ),
        },
{
    match json_get_exec(meta, field_name_exec(f)) {
        Some(JsonValue::Str(s)) => Ok(s.clone()),
        _ => Err(PostError::InvalidField(f)),
    }
}

/// The texts of `items` where all of them are strings.
fn all_strs_exec(items: &Vec<JsonValue>) -> (r: Option<Vec<String>>)
    ensures
        match r {
            Some(v) => all_strs(items@) == Some(v@.map_values(|t: String| t@)),
            None => all_strs(items@) is None,
        },
{
    let mut out: Vec<String> = Vec::new();
    let mut i: usize = 0;
    assert(items@.skip(0) =~= items@);
    while i < items.len()
        invariant
            i <= items.len(),
            all_strs(items@) == match all_strs(items@.skip(i as int)) {
                Some(rest) => Some(out@.map_values(|t: String| t@) + rest),
                None => None,
            },
        decreases items.len() - i,
    {
        let ghost t = items@.skip(i as int);
        assert(t[0] == items@[i as int]);
        assert(t.drop_first() =~= items@.skip(i + 1));
        match &items[i] {
            JsonValue::Str(s) => {
                let ghost before = out@;
                out.push(s.clone());
                assert(out@.map_values(|t: String| t@) =~= before.map_values(|t: String| t@)
                    + seq![s@]);
                proof {
                    match all_strs(items@.skip(i + 1)) {
                        Some(rest) => {
                            assert(before.map_values(|t: String| t@) + (seq![s@] + rest)
                                =~= out@.map_values(|t: String| t@) + rest);
                        },
                        None => {},
                    }
                }
            },
            _ => {
                return None;
            },
        }
        i = i + 1;
    }
    assert(items@.skip(i as int) =~= Seq::<JsonValue>::empty());
    assert(out@.map_values(|t: String| t@) + Seq::<Seq<char>>::empty() =~= out@.map_values(
        |t: String| t@,
    ));
    Some(out)
}

impl Post {
    /// The post whose Typst source is `source` and whose `typst query`
    /// output for `<post-meta>` is `output`.
    pub fn new(source: String, output: &JsonValue) -> (r: Result<Post, PostError>)
        ensures
            post_result_view(r) == post_from_json(source@, *output),
    {
        let meta = match json_get_exec(output, "value") {
            Some(m) => m,
            None => {
                return Err(PostError::MissingValue);
            },
        };
        let slug = str_field_exec(meta, Field::Slug)?;
        let title = str_field_exec(meta, Field::Title)?;
        let date = str_field_exec(meta, Field::Date)?;
        let description = str_field_exec(meta, Field::Description)?;
        let tags = match json_get_exec(meta, "tags") {
            Some(JsonValue::Array(items)) => match all_strs_exec(items) {
                Some(t) => t,
                None => {
                    return Err(PostError::NonStringTag);
                },
            },
            _ => {
                return Err(PostError::InvalidField(Field::Tags));
            },
        };
        let draft = match json_get_exec(meta, "draft") {
            None => false,
            Some(JsonValue::Bool(b)) => *b,
            Some(_) => {
                return Err(PostError::InvalidField(Field::Draft));
            },
        };
        if !valid_slug(slug.as_str()) {
            return Err(PostError::InvalidSlug(slug));
        }
        let date = match parse_date(date.as_str()) {
            Ok(d) => d,
            Err(m) => {
                return Err(PostError::BadDate(m));
            },
        };
        Ok(Post { source, slug, title, date, description, tags, draft })
    }
}

/// Whether a file of this name is a post's Typst source: its extension, as
/// `Path::extension` finds it (the part after the last `.`, where something
/// comes before that dot), is `typ`.
pub open spec fn is_typst_name(name: Seq<char>) -> bool {
    name.len() > 4 && name.skip(name.len() - 4) == ".typ"@
}

/// Whether the file `name` is a post's Typst source.
pub fn is_typst_source(name: &str) -> (r: bool)
    ensures
        r == is_typst_name(name@),
{
    proof {
        reveal_strlit(".typ");
    }
    let cs = chars_of(name);
    let n = cs.len();
    if n <= 4 {
        return false;
    }
    let r = cs[n - 4] == '.' && cs[n - 3] == 't' && cs[n - 2] == 'y' && cs[n - 1] == 'p';
    let ghost tail = cs@.skip(n - 4);
    if r {
        assert(tail =~= ".typ"@);
    } else {
        assert(tail[0] != '.' || tail[1] != 't' || tail[2] != 'y' || tail[3] != 'p');
        assert(tail != ".typ"@);
    }
    r
}

/// Whether `a` comes strictly before `b` in the order of `str`'s `<`:
/// character by character, a proper prefix first.
pub open spec fn seq_lt(a: Seq<char>, b: Seq<char>) -> bool
    decreases a.len(),
{
    if b.len() == 0 {
        false
    } else if a.len() == 0 {
        true
    } else if a[0] != b[0] {
        (a[0] as u32) < (b[0] as u32)
    } else {
        seq_lt(a.drop_first(), b.drop_first())
    }
}

/// No text comes before itself, and of two texts at most one comes first.
pub proof fn lemma_seq_lt_asym(a: Seq<char>, b: Seq<char>)
    ensures
        seq_lt(a, b) ==> !seq_lt(b, a),
    decreases a.len(),
{
    if a.len() > 0 && b.len() > 0 && a[0] == b[0] {
        lemma_seq_lt_asym(a.drop_first(), b.drop_first());
    }
}

/// Of two different texts one comes first.
pub proof fn lemma_seq_lt_total(a: Seq<char>, b: Seq<char>)
    ensures
        seq_lt(a, b) || seq_lt(b, a) || a == b,
    decreases a.len(),
{
    if a.len() > 0 && b.len() > 0 && a[0] == b[0] {
        lemma_seq_lt_total(a.drop_first(), b.drop_first());
        if a.drop_first() == b.drop_first() {
            assert(a =~= seq![a[0]] + a.drop_first());
            assert(b =~= seq![b[0]] + b.drop_first());
        }
    } else if a.len() > 0 && b.len() > 0 {
        vstd::utf8::char_u32_cast(a[0], a[0] as u32);
        vstd::utf8::char_u32_cast(b[0], b[0] as u32);
    } else if a.len() == 0 && b.len() == 0 {
        assert(a =~= b);
    }
}

/// The order of texts is transitive.
pub proof fn lemma_seq_lt_trans(a: Seq<char>, b: Seq<char>, c: Seq<char>)
    requires
        seq_lt(a, b),
        seq_lt(b, c),
    ensures
        seq_lt(a, c),
    decreases a.len(),
{
    if a.len() > 0 && a[0] == b[0] && b[0] == c[0] {
        lemma_seq_lt_trans(a.drop_first(), b.drop_first(), c.drop_first());
    }
}

/// Whether `a` is published after `b`: a later date, or on the same date a
/// slug that comes later.
pub open spec fn newer(a: Post, b: Post) -> bool {
    date_lt(b.date, a.date) || (a.date == b.date && seq_lt(b.slug@, a.slug@))
}

/// Of two posts with different dates or slugs, one is newer.
pub proof fn lemma_newer_total(a: Post, b: Post)
    ensures
        newer(a, b) || newer(b, a) || (a.date == b.date && a.slug@ == b.slug@),
{
    lemma_seq_lt_total(a.slug@, b.slug@);
}

/// At most one of two posts is newer than the other.
pub proof fn lemma_newer_asym(a: Post, b: Post)
    ensures
        newer(a, b) ==> !newer(b, a),
{
    lemma_seq_lt_asym(a.slug@, b.slug@);
}

/// Being newer is transitive, also across posts with one date and slug.
pub proof fn lemma_newer_trans(a: Post, b: Post, c: Post)
    requires
        newer(a, b) || (a.date == b.date && a.slug@ == b.slug@),
        newer(b, c) || (b.date == c.date && b.slug@ == c.slug@),
        newer(a, b) || newer(b, c),
    ensures
        newer(a, c),
{
    if newer(a, b) && newer(b, c) && a.date == b.date && b.date == c.date {
        lemma_seq_lt_trans(c.slug@, b.slug@, a.slug@);
    }
}

/// Whether the post at `i` is listed before the post at `j`: the newer post
/// first, by date and then by slug; posts with one date and slug in the
/// order in which they were found.
pub open spec fn ordered_before(posts: Seq<Post>, i: int, j: int) -> bool {
    newer(posts[i], posts[j]) || (posts[i].date == posts[j].date && posts[i].slug@
        == posts[j].slug@ && i < j)
}

/// Whether `order` lists positions of `posts` newest first, by date and
/// then by slug, each position at most once.
pub open spec fn is_publish_order(posts: Seq<Post>, order: Seq<usize>) -> bool {
    &&& forall|k: int| 0 <= k < order.len() ==> #[trigger] order[k] < posts.len()
    &&& forall|k1: int, k2: int|
        0 <= k1 < k2 < order.len() ==> ordered_before(
            posts,
            #[trigger] order[k1] as int,
            #[trigger] order[k2] as int,
        )
}

/// Whether `order` holds exactly the positions of the posts that are not
/// drafts.
pub open spec fn lists_published(posts: Seq<Post>, order: Seq<usize>) -> bool {
    &&& forall|k: int| 0 <= k < order.len() ==> !posts[#[trigger] order[k] as int].draft
    &&& forall|i: int| 0 <= i < posts.len() && !posts[i].draft ==> #[trigger] order.contains(i as usize)
}

/// Whether the text `a` comes strictly before `b`.
pub fn text_before(a: &str, b: &str) -> (r: bool)
    ensures
        r == seq_lt(a@, b@),
{
    let x = chars_of(a);
    let y = chars_of(b);
    let mut i: usize = 0;
    assert(x@.skip(0) =~= x@);
    assert(y@.skip(0) =~= y@);
    while i < x.len() && i < y.len()
        invariant
            i <= x.len(),
            i <= y.len(),
            x@ == a@,
            y@ == b@,
            seq_lt(x@, y@) == seq_lt(x@.skip(i as int), y@.skip(i as int)),
        decreases x.len() - i,
    {
        assert(x@.skip(i as int)[0] == x@[i as int]);
        assert(y@.skip(i as int)[0] == y@[i as int]);
        if x[i] != y[i] {
            let a_code = x[i] as u32;
            let b_code = y[i] as u32;
            assert(seq_lt(x@.skip(i as int), y@.skip(i as int)) == (a_code < b_code));
            return a_code < b_code;
        }
        assert(x@.skip(i as int).drop_first() =~= x@.skip(i + 1));
        assert(y@.skip(i as int).drop_first() =~= y@.skip(i + 1));
        i = i + 1;
    }
    y.len() > i && x.len() == i
}

/// Whether the post `a` is published after the post `b`.
pub fn is_newer(a: &Post, b: &Post) -> (r: bool)
    ensures
        r == newer(*a, *b),
{
    date_before(&b.date, &a.date) || (a.date == b.date && text_before(b.slug.as_str(), a.slug.as_str()))
}

/// The posts that a build publishes, as positions in `posts`: every post
/// that is not a draft, newest first, by date and then by slug; posts with
/// one date and slug in the order in which they were found.
pub fn publish_order(posts: &Vec<Post>) -> (r: Vec<usize>)
    ensures
        is_publish_order(posts@, r@),
        lists_published(posts@, r@),
{
    let mut order: Vec<usize> = Vec::new();
    let mut i: usize = 0;
    while i < posts.len()
        invariant
            i <= posts.len(),
            is_publish_order(posts@, order@),
            forall|k: int| 0 <= k < order.len() ==> #[trigger] order[k] < i,
            forall|k: int| 0 <= k < order.len() ==> !posts@[#[trigger] order[k] as int].draft,
            forall|j: int| 0 <= j < i && !posts@[j].draft ==> #[trigger] order@.contains(j as usize),
        decreases posts.len() - i,
    {
        if !posts[i].draft {
            let mut pos: usize = 0;
            while pos < order.len() && !is_newer(&posts[i], &posts[order[pos]])
                invariant
                    pos <= order.len(),
                    i < posts.len(),
                    forall|k: int| 0 <= k < order.len() ==> #[trigger] order[k] < posts.len(),
                    forall|k: int| 0 <= k < pos ==> !newer(posts@[i as int], posts@[#[trigger] order[k] as int]),
                decreases order.len() - pos,
            {
                pos = pos + 1;
            }
            let ghost old_order = order@;
            let ghost pi = posts@[i as int];
            order.insert(pos, i);
            assert forall|k1: int, k2: int|
                0 <= k1 < k2 < order.len() implies ordered_before(
                posts@,
                #[trigger] order@[k1] as int,
                #[trigger] order@[k2] as int,
            ) by {
                if k2 < pos {
                    assert(ordered_before(posts@, old_order[k1] as int, old_order[k2] as int));
                } else if k2 == pos {
                    let q = posts@[old_order[k1] as int];
                    assert(!newer(pi, q));
                    assert(old_order[k1] < i);
                    lemma_newer_total(pi, q);
                } else if k1 < pos {
                    assert(ordered_before(posts@, old_order[k1] as int, old_order[k2 - 1] as int));
                } else if k1 == pos {
                    let q = posts@[old_order[pos as int] as int];
                    let r = posts@[old_order[k2 - 1] as int];
                    assert(newer(pi, q));
                    if k2 - 1 > pos {
                        assert(ordered_before(posts@, old_order[pos as int] as int, old_order[k2 - 1] as int));
                        lemma_newer_trans(pi, q, r);
                    }
                } else {
                    assert(ordered_before(posts@, old_order[k1 - 1] as int, old_order[k2 - 1] as int));
                }
            }
            assert forall|j: int| 0 <= j < i + 1 && !posts@[j].draft implies #[trigger] order@.contains(j as usize) by {
                if j == i {
                    assert(order@[pos as int] == i);
                } else {
                    assert(old_order.contains(j as usize));
                    let k = choose|k: int| 0 <= k < old_order.len() && old_order[k] == j as usize;
                    if k < pos {
                        assert(order@[k] == j as usize);
                    } else {
                        assert(order@[k + 1] == j as usize);
                    }
                }
            }
        }
        i = i + 1;
    }
    order
}

/// Whether the file name at `i` is listed before the one at `j`: by the
/// order of `str`, equal names in the order in which they were found.
pub open spec fn name_before(names: Seq<String>, i: int, j: int) -> bool {
    seq_lt(names[i]@, names[j]@) || (names[i]@ == names[j]@ && i < j)
}

/// The Typst sources among the directory entries `names`, as positions in
/// `names`, sorted by name: each name that ends in `.typ`, once, in
/// ascending order.
pub fn discovery_order(names: &Vec<String>) -> (r: Vec<usize>)
    ensures
        forall|k: int| 0 <= k < r.len() ==> #[trigger] r@[k] < names.len() && is_typst_name(
            names@[r@[k] as int]@,
        ),
        forall|k1: int, k2: int|
            0 <= k1 < k2 < r.len() ==> name_before(names@, #[trigger] r@[k1] as int, #[trigger] r@[k2] as int),
        forall|i: int| 0 <= i < names.len() && is_typst_name(names@[i]@) ==> #[trigger] r@.contains(i as usize),
{
    let mut order: Vec<usize> = Vec::new();
    let mut i: usize = 0;
    while i < names.len()
        invariant
            i <= names.len(),
            forall|k: int| 0 <= k < order.len() ==> #[trigger] order@[k] < i && is_typst_name(
                names@[order@[k] as int]@,
            ),
            forall|k1: int, k2: int|
                0 <= k1 < k2 < order.len() ==> name_before(names@, #[trigger] order@[k1] as int, #[trigger] order@[k2] as int),
            forall|j: int| 0 <= j < i && is_typst_name(names@[j]@) ==> #[trigger] order@.contains(j as usize),
        decreases names.len() - i,
    {
        if is_typst_source(names[i].as_str()) {
            let mut pos: usize = 0;
            while pos < order.len() && !text_before(names[i].as_str(), names[order[pos]].as_str())
                invariant
                    pos <= order.len(),
                    i < names.len(),
                    forall|k: int| 0 <= k < order.len() ==> #[trigger] order@[k] < i,
                    forall|k: int| 0 <= k < pos ==> !seq_lt(names@[i as int]@, names@[#[trigger] order@[k] as int]@),
                decreases order.len() - pos,
            {
                pos = pos + 1;
            }
            let ghost old_order = order@;
            let ghost ni = names@[i as int]@;
            order.insert(pos, i);
            assert forall|k1: int, k2: int|
                0 <= k1 < k2 < order.len() implies name_before(
                names@,
                #[trigger] order@[k1] as int,
                #[trigger] order@[k2] as int,
            ) by {
                if k2 < pos {
                    assert(name_before(names@, old_order[k1] as int, old_order[k2] as int));
                } else if k2 == pos {
                    let q = names@[old_order[k1] as int]@;
                    assert(!seq_lt(ni, q));
                    assert(old_order[k1] < i);
                    lemma_seq_lt_total(ni, q);
                } else if k1 < pos {
                    assert(name_before(names@, old_order[k1] as int, old_order[k2 - 1] as int));
                } else if k1 == pos {
                    let q = names@[old_order[pos as int] as int]@;
                    let w = names@[old_order[k2 - 1] as int]@;
                    assert(seq_lt(ni, q));
                    if k2 - 1 > pos {
                        assert(name_before(names@, old_order[pos as int] as int, old_order[k2 - 1] as int));
                        if seq_lt(q, w) {
                            lemma_seq_lt_trans(ni, q, w);
                        }
                    }
                } else {
                    assert(name_before(names@, old_order[k1 - 1] as int, old_order[k2 - 1] as int));
                }
            }
            assert forall|j: int| 0 <= j < i + 1 && is_typst_name(names@[j]@) implies #[trigger] order@.contains(j as usize) by {
                if j == i {
                    assert(order@[pos as int] == i);
                } else {
                    assert(old_order.contains(j as usize));
                    let k = choose|k: int| 0 <= k < old_order.len() && old_order[k] == j as usize;
                    if k < pos {
                        assert(order@[k] == j as usize);
                    } else {
                        assert(order@[k + 1] == j as usize);
                    }
                }
            }
        }
        i = i + 1;
    }
    order
}

} // verus!
