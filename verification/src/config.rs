//! The command line of the builder and the site's own settings.

use crate::text::{chars_of, is_blank, is_blank_exec, string_of, trim_end_char, trim_end_char_exec, vec_eq};
use vstd::prelude::*;

verus! {

/// What the command line asks of a build.
#[derive(Debug)]
pub struct Config {
    /// Whether `--check` was given: the build chain is then only checked,
    /// inside a temporary directory.
    pub check: bool,
    /// Where the HTML site is written.
    pub site_dir: String,
    /// Where the Markdown copies are written.
    pub dist_dir: String,
}

/// The plain value of a `Config`: the check flag, the site directory and the
/// dist directory.
pub open spec fn config_view(c: Config) -> (bool, Seq<char>, Seq<char>) {
    (c.check, c.site_dir@, c.dist_dir@)
}

/// The settings that a build starts from when the command line names none.
pub open spec fn default_settings() -> (bool, Seq<char>, Seq<char>) {
    (false, "_site"@, "dist"@)
}

/// The settings that the options `args` give, starting from `acc`: each
/// option is read in turn, a later one overriding an earlier one; the error
/// is the message that stops the parse.
pub open spec fn parse_options(args: Seq<Seq<char>>, acc: (bool, Seq<char>, Seq<char>)) -> Result<
    (bool, Seq<char>, Seq<char>),
    Seq<char>,
>
    decreases args.len(),
{
    if args.len() == 0 {
        Ok(acc)
    } else {
        let a = args[0];
        if a == "--check"@ || a == "-c"@ {
            parse_options(args.drop_first(), (true, acc.1, acc.2))
        } else if a == "--site-dir"@ || a == "-s"@ {
            if args.len() < 2 {
                Err("--site-dir requires a path"@)
            } else {
                parse_options(args.skip(2), (acc.0, args[1], acc.2))
            }
        } else if a == "--dist-dir"@ || a == "-d"@ {
            if args.len() < 2 {
                Err("--dist-dir requires a path"@)
            } else {
                parse_options(args.skip(2), (acc.0, acc.1, args[1]))
            }
        } else {
            Err("unknown argument: "@ + a)
        }
    }
}

/// The settings that a whole command line gives; its first item, the
/// program's name, is not an option.
pub open spec fn parse_command_line(args: Seq<Seq<char>>) -> Result<
    (bool, Seq<char>, Seq<char>),
    Seq<char>,
> {
    let options = if args.len() > 0 {
        args.drop_first()
    } else {
        args
    };
    parse_options(options, default_settings())
}

/// Reading options that parse, then more options, reads the second ones
/// from where the first ones left the settings.
pub proof fn lemma_parse_options_append(
    opts: Seq<Seq<char>>,
    rest: Seq<Seq<char>>,
    acc: (bool, Seq<char>, Seq<char>),
)
    requires
        parse_options(opts, acc) is Ok,
    ensures
        parse_options(opts + rest, acc) == parse_options(rest, parse_options(opts, acc)->Ok_0),
    decreases opts.len(),
{
    if opts.len() == 0 {
        assert(opts + rest =~= rest);
    } else {
        let a = opts[0];
        assert((opts + rest)[0] == a);
        if a == "--check"@ || a == "-c"@ {
            assert((opts + rest).drop_first() =~= opts.drop_first() + rest);
            lemma_parse_options_append(opts.drop_first(), rest, (true, acc.1, acc.2));
        } else if a == "--site-dir"@ || a == "-s"@ {
            assert((opts + rest)[1] == opts[1]);
            assert((opts + rest).skip(2) =~= opts.skip(2) + rest);
            lemma_parse_options_append(opts.skip(2), rest, (acc.0, opts[1], acc.2));
        } else {
            assert((opts + rest)[1] == opts[1]);
            assert((opts + rest).skip(2) =~= opts.skip(2) + rest);
            lemma_parse_options_append(opts.skip(2), rest, (acc.0, acc.1, opts[1]));
        }
    }
}

/// Each option sets its own setting and only that one, whatever came
/// before it: after options that parse, `--check` or `-c` turns the check
/// on, `--site-dir P` or `-s P` makes the site directory `P`, and
/// `--dist-dir P` or `-d P` makes the dist directory `P`, the other
/// settings staying as they were.
pub proof fn law_each_option_sets_its_setting(
    opts: Seq<Seq<char>>,
    acc: (bool, Seq<char>, Seq<char>),
    flag: Seq<char>,
    p: Seq<char>,
)
    requires
        parse_options(opts, acc) is Ok,
    ensures
        ({
            let c = parse_options(opts, acc)->Ok_0;
            &&& (flag == "--check"@ || flag == "-c"@) ==> parse_options(opts + seq![flag], acc)
                == Ok::<_, Seq<char>>((true, c.1, c.2))
            &&& (flag == "--site-dir"@ || flag == "-s"@) ==> parse_options(opts + seq![flag, p], acc)
                == Ok::<_, Seq<char>>((c.0, p, c.2))
            &&& (flag == "--dist-dir"@ || flag == "-d"@) ==> parse_options(opts + seq![flag, p], acc)
                == Ok::<_, Seq<char>>((c.0, c.1, p))
        }),
{
    reveal_strlit("--check");
    reveal_strlit("-c");
    reveal_strlit("--site-dir");
    reveal_strlit("-s");
    reveal_strlit("--dist-dir");
    reveal_strlit("-d");
    let c = parse_options(opts, acc)->Ok_0;
    lemma_parse_options_append(opts, seq![flag], acc);
    lemma_parse_options_append(opts, seq![flag, p], acc);
    assert(seq![flag].drop_first() =~= Seq::<Seq<char>>::empty());
    assert(seq![flag, p].skip(2) =~= Seq::<Seq<char>>::empty());
    assert(seq![flag, p][0] == flag && seq![flag, p][1] == p);
    let long = seq!["--check"@, "--site-dir"@, "--dist-dir"@];
    let short = seq!["-c"@, "-s"@, "-d"@];
    assert(long[0][2] == 'c' && long[1][2] == 's' && long[2][2] == 'd');
    assert(short[0][1] == 'c' && short[1][1] == 's' && short[2][1] == 'd');
    assert(long[0].len() != short[0].len() && long[0].len() != long[1].len());
    assert(long[1].len() != short[0].len() && long[2].len() != short[0].len());
    assert(long[0].len() != short[1].len() && long[0].len() != short[2].len());
    assert(long[1].len() != short[1].len() && long[1].len() != short[2].len());
    assert(long[2].len() != short[1].len() && long[2].len() != short[2].len());
    if flag == "--check"@ || flag == "-c"@ {
        assert(parse_options(seq![flag], c) == parse_options(Seq::empty(), (true, c.1, c.2)));
    } else if flag == "--site-dir"@ || flag == "-s"@ {
        assert(flag != "--check"@ && flag != "-c"@);
        assert(parse_options(seq![flag, p], c) == parse_options(Seq::empty(), (c.0, p, c.2)));
    } else if flag == "--dist-dir"@ || flag == "-d"@ {
        assert(flag != "--check"@ && flag != "-c"@);
        assert(flag != "--site-dir"@ && flag != "-s"@);
        assert(parse_options(seq![flag, p], c) == parse_options(Seq::empty(), (c.0, c.1, p)));
    }
}

/// A command line reads its options after the program's name: the
/// settings of `Config::new` on `name` and the options `opts` followed by
/// `--site-dir P` (or `-s P`) have `P` as the site directory, and likewise
/// for the dist directory and the check flag, where `opts` parse.
pub proof fn law_command_line_options(name: Seq<char>, opts: Seq<Seq<char>>, flag: Seq<char>, p: Seq<char>)
    requires
        parse_options(opts, default_settings()) is Ok,
    ensures
        (flag == "--site-dir"@ || flag == "-s"@) ==> (parse_command_line(
            seq![name] + opts + seq![flag, p],
        ) matches Ok(c) && c.1 == p),
        (flag == "--dist-dir"@ || flag == "-d"@) ==> (parse_command_line(
            seq![name] + opts + seq![flag, p],
        ) matches Ok(c) && c.2 == p),
        (flag == "--check"@ || flag == "-c"@) ==> (parse_command_line(seq![name] + opts + seq![flag])
            matches Ok(c) && c.0),
{
    law_each_option_sets_its_setting(opts, default_settings(), flag, p);
    assert((seq![name] + opts + seq![flag, p]).drop_first() =~= opts + seq![flag, p]);
    assert((seq![name] + opts + seq![flag]).drop_first() =~= opts + seq![flag]);
}

/// The plain value of what `Config::new` returns.
pub open spec fn config_result_view(r: Result<Config, String>) -> Result<
    (bool, Seq<char>, Seq<char>),
    Seq<char>,
> {
    match r {
        Ok(c) => Ok(config_view(c)),
        Err(e) => Err(e@),
    }
}

/// Whether two strings hold the same characters.
pub fn str_eq(a: &str, b: &str) -> (r: bool)
    ensures
        r == (a@ == b@),
{
    vec_eq(&chars_of(a), &chars_of(b))
}

impl Config {
    /// Reads the command line `args`, whose first item is the program's
    /// name: `--check`/`-c` sets the check flag, `--site-dir`/`-s` and
    /// `--dist-dir`/`-d` take the next item as a directory. An option that
    /// lacks its path, or an unknown one, is refused with a message.
    pub fn new(args: Vec<String>) -> (r: Result<Config, String>)
        ensures
            config_result_view(r) == parse_command_line(args@.map_values(|s: String| s@)),
    {
        let ghost all = args@.map_values(|s: String| s@);
        let ghost options = if all.len() > 0 {
            all.drop_first()
        } else {
            all
        };
        let mut check = false;
        let mut site_dir = string_of(&chars_of("_site"));
        let mut dist_dir = string_of(&chars_of("dist"));
        let mut i: usize = if args.len() > 0 {
            1
        } else {
            0
        };
        assert(all.skip(i as int) =~= options);
        while i < args.len()
            invariant
                i <= args.len(),
                all == args@.map_values(|s: String| s@),
                parse_command_line(all) == parse_options(
                    all.skip(i as int),
                    (check, site_dir@, dist_dir@),
                ),
            decreases args.len() - i,
        {
            let ghost rest = all.skip(i as int);
            assert(rest[0] == args@[i as int]@);
            let a = args[i].as_str();
            if str_eq(a, "--check") || str_eq(a, "-c") {
                assert(rest.drop_first() =~= all.skip(i + 1));
                check = true;
                i = i + 1;
            } else if str_eq(a, "--site-dir") || str_eq(a, "-s") {
                if i + 1 >= args.len() {
                    return Err(string_of(&chars_of("--site-dir requires a path")));
                }
                assert(rest[1] == args@[i + 1]@);
                assert(rest.skip(2) =~= all.skip(i + 2));
                site_dir = args[i + 1].clone();
                i = i + 2;
            } else if str_eq(a, "--dist-dir") || str_eq(a, "-d") {
                if i + 1 >= args.len() {
                    return Err(string_of(&chars_of("--dist-dir requires a path")));
                }
                assert(rest[1] == args@[i + 1]@);
                assert(rest.skip(2) =~= all.skip(i + 2));
                dist_dir = args[i + 1].clone();
                i = i + 2;
            } else {
                let mut msg = chars_of("unknown argument: ");
                let mut tail = chars_of(a);
                msg.append(&mut tail);
                return Err(string_of(&msg));
            }
        }
        assert(all.skip(i as int) =~= Seq::<Seq<char>>::empty());
        Ok(Config { check, site_dir, dist_dir })
    }
}

/// The site's own settings, as `site.toml` gives them.
#[derive(Debug)]
pub struct SiteConfigFile {
    pub title: String,
    pub description: String,
    pub author: String,
    pub language: String,
    /// The site's address (`new` strips its trailing slashes); empty where
    /// none is known.
    pub base_url: String,
}

/// The address that a site ends up with: the `SITE_URL` value where one is
/// given and is not blank, else the file's `base_url`, in either case
/// without its trailing slashes.
pub open spec fn resolve_base_url(base_url: Seq<char>, site_url: Option<Seq<char>>) -> Seq<char> {
    let chosen = match site_url {
        Some(u) => if is_blank(u) {
            base_url
        } else {
            u
        },
        None => base_url,
    };
    trim_end_char(chosen, '/')
}

/// Trimming trailing `c` leaves a text that is empty or does not end with
/// `c`.
pub proof fn lemma_trim_end_char(s: Seq<char>, c: char)
    ensures
        trim_end_char(s, c).len() == 0 || trim_end_char(s, c).last() != c,
    decreases s.len(),
{
    if s.len() > 0 && s.last() == c {
        lemma_trim_end_char(s.drop_last(), c);
    }
}

/// A site's address never ends with a slash, whatever `site.toml` and
/// `SITE_URL` hold.
pub proof fn law_base_url_has_no_trailing_slash(base_url: Seq<char>, site_url: Option<Seq<char>>)
    ensures
        resolve_base_url(base_url, site_url).len() == 0 || resolve_base_url(base_url, site_url).last()
            != '/',
{
    let chosen = match site_url {
        Some(u) => if is_blank(u) {
            base_url
        } else {
            u
        },
        None => base_url,
    };
    lemma_trim_end_char(chosen, '/');
}

impl SiteConfigFile {
    /// The settings read from `site.toml`, with the address taken from
    /// `site_url` (the value of `SITE_URL`, where it is set) unless that is
    /// blank, and stripped of its trailing slashes.
    pub fn new(
        title: String,
        description: String,
        author: String,
        language: String,
        base_url: String,
        site_url: Option<String>,
    ) -> (r: SiteConfigFile)
        ensures
            r.title == title,
            r.description == description,
            r.author == author,
            r.language == language,
            r.base_url@ == resolve_base_url(
                base_url@,
                match site_url {
                    Some(u) => Some(u@),
                    None => None,
                },
            ),
    {
        let chosen = match &site_url {
            Some(u) => {
                let cs = chars_of(u.as_str());
                if is_blank_exec(&cs) {
                    chars_of(base_url.as_str())
                } else {
                    cs
                }
            },
            None => chars_of(base_url.as_str()),
        };
        let url = trim_end_char_exec(&chosen, '/');
        SiteConfigFile { title, description, author, language, base_url: string_of(&url) }
    }
}

} // verus!
