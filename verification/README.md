# letterman

The synchronisation logic of the letterman blog backend, verified with Verus.

- `src/` is the verified library:
  - `text` — character-level helpers (trimming, searching, splitting) with their specifications;
  - `metadata` — a post's metadata, a map of strings whose keys are held once;
  - `frontmatter` — writing a post as markdown with a YAML front matter, and reading one apart;
  - `github_record` — the records of synchronised posts and the bodies of GitHub's contents API,
    including base64 encoding and decoding of file contents;
  - `sync` — the decisions of each synchronisation step (first push, update, pull, change check,
    the caches of records and files);
  - `errors` — the errors and how they turn into one another;
  - `external` — the calls into the markdown, base64 and chrono crates and into parts of std, with
    the contracts that the rest of the library relies on.
- `app/` is the server around it: HTTP, MongoDB, MySQL and the network calls to GitHub.
- `tests/` exercise the library on concrete values.
