# axgit

A read-only web front end for a directory of bare git repositories: a JSON
API over refs, trees, blobs, blame, commits, diffs, search and statistics,
an Atom feed, cgit-compatible redirects, and Smart HTTP clone/fetch.

## Layout

- `src/` — the library, with its contracts proved. Every public function states
  in its contract what it returns; the laws that relate several functions
  (sort orders that print and parse back, cursors that round-trip, ETags
  that tell repository states apart, redirects that settle, rankings that
  are sorted permutations, ...) are public proof functions.
  - `text`, `num`, `hex`, `escape`, `paths` — characters, numbers and
    encodings, each specified over `Seq<char>` / `Seq<u8>`.
  - `time` — RFC 3339 times in the offset they were recorded with.
  - `config`, `site`, `branding`, `assets`, `shell` — settings, the site's
    identity and the single-page shell that the front end is served from.
  - `cache`, `error`, `handlers` — request validation, cache validators and
    the decisions each HTTP handler makes.
  - `repo` — the repository model: listings, sorting, refs, trees, blobs,
    blame, commit logs, diffs, search, statistics and submodules.
  - `cgit_compat`, `smart_http` — URL redirects and the Smart HTTP
    protocol's framing.
- `app/` — the program around the library: command line, HTTP routing,
  reading repositories through libgit2, the response cache, and running
  `git upload-pack`.
- `tests/` — tests of the library's public functions.
