# novelfire

The novelfire.net source for the Aidoku reader, as a verified library.

- `src/` — the source's logic, proved with Verus:
  - `text.rs`: strings as character sequences: trimming, prefixes, searching,
    splitting and decimal text, each against a spec of what `str` does.
  - `urls.rs`: the site's addresses, and reading a novel's slug out of one.
  - `listing.rs`: the novel entries of browse, ranking and home pages.
  - `details.rs`: a novel's details page, content rating and status.
  - `chapters.rs`: bare chapter titles and the newest-first chapter list.
  - `markdown.rs`: chapter text as Markdown, without ads and UI junk.
  - `source.rs`: search, chapter index requests and deep links.
  - `model.rs`: the values handed to the app and their views.
- `app/` — the Aidoku side: requests, reading HTML through the host, JSON, and
  the conversions to and from Aidoku's types.
- `tests/` — tests of the library on concrete values.
