# padu

The decisions of Padu's desktop right panel and settings pages, as a Verus
library. Every function in `src/` carries a contract; Verus proves each
one, except the few marked `#[verifier::external_body]` that call the
standard library, `url` or `uuid`, whose contracts are believed as stated.

Paths are the daemon host's paths and are handled as `std::path` handles
them on Unix: `/` is the only separator, and normalization, file names and
workspace-relative paths are lexical. Neither `\` nor a drive prefix (`C:`)
separates or roots a path here, as they would for `std::path` on Windows.

- `src/` — the library. The right panel's tab strip (`surface`, `panel`),
  file editors (`editor`), the working tree's inline create, rename and
  delete and row menu (`file_ops`), the order of its rows (`working_tree`)
  and keyboard navigation (`navigation`), the review
  surface (`review`, `review_lines`, `review_source`, `review_panel`), the
  native browser and terminal views behind tabs (`views`), transcript links
  (`links`), the composer's inline file references (`inline_file`,
  `projection`), file icons and languages (`icons`), the release-notes
  dialog (`whats_new`), settings pages (`settings`, `archive`, the shortcut
  search in `keybindings`, `providers`) and starting the daemon (`daemon`).
  Laws that span several calls are public proof functions named `law_*`.
- `tests/` — tests run against the compiled library.
- `app/` — what touches the operating system (host name, daemon executable
  and environment) and the tab strip's floating-point pixel arithmetic.
