# blog_builder

A static blog builder for a site whose posts are written in Typst. The
library, verified with Verus, holds the logic of a build: the command line,
the site settings, the reading of each post's metadata, the choice and order
of the published posts, the HTML pages, the RSS feed, the sitemap,
`robots.txt`, the Markdown copies with their front matter, and the sequence
of steps a build takes, including a check build that works only inside a
temporary directory. The program in `app/` performs those steps: it reads
files, runs `typst` and `pandoc`, and writes the site.

Layout of `src/`:

- `text.rs`: character-sequence models of the `str` operations used
  (white space, trimming, replacement) and their verified versions.
- `matcher.rs`: the `regex` calls, behind trusted wrappers.
- `html.rs`: escaping, the `<body>` of a compiled page, the removal of a
  heading that repeats the title.
- `escape_laws.rs`: proofs that escaped text holds no `<`, `>`, `"`, `'` and
  that unescaping undoes escaping.
- `date.rs`: dates, parsed and formatted by `chrono`.
- `config.rs`: the command line and the site settings.
- `post.rs`: post metadata from the JSON of `typst query`, slug validation,
  the publishing order (drafts left out, newest first by date and slug), and
  the order in which the sources are read (by file name).
- `xml.rs`: XML elements written with `quick-xml`, RFC 2822 times written
  with `chrono`.
- `render.rs`: the page frame, post pages, the index page, the feed, the
  sitemap, `robots.txt`.
- `markdown.rs`: metadata removal before pandoc (and a proof that it is
  idempotent), the Markdown written where pandoc is missing, and the front
  matter.
- `site_build.rs`: a build as a state machine from answers to next steps.
