# navnews

A crawler for the news sections of a portal site. The verified library
(`src/`) holds what the crawler decides and computes:

- `guard`: which page texts the `html_editor` parser reads without
  panicking, as a spec of its tokenizer and a verified checker.
- `dom`: the page model (`HtmlNode`, `HtmlElement`), parsing and selector
  queries through the `html_editor` crate, and attribute/text lookups.
- `nav`: the entries of the navigation bar, the task of crawling a section
  (its table, its first page) and the statements that store entries.
- `news`: the news items of a page and the statements that store them.
- `pager`: the first page of a section, and the walk through the pages its
  pager announces, as a state machine (`PageCrawl`).
- `text`: string comparison and integer parsing.

`app/` is the program around it: HTTP requests (reqwest, tokio), the
SQLite database, logging, JSON files.
