# recipe_book

A recipe search engine: a crawler discovers recipe pages on food sites (through their
sitemaps or their listing pages), workers scrape the schema.org recipe of each queued page
into PostgreSQL, and a web server offers full-text search over the stored recipes.

## Layout

- `src/` is the library, verified with Verus. It holds the site rules, URL resolution,
  the sitemap scan, the crawl bookkeeping, the retry and rate-limit decisions, recipe
  assembly from a page, the row and request models, and search planning. Calls into
  outside crates (`url`, `quick-xml`, `scraper`, `recipe-scraper`, `serde_json`, `rand`)
  stand behind small trusted wrappers whose contracts are documented where they are
  declared.
- `app/` is the program around it: command line, scheduler, HTTP fetching, the database,
  the tantivy index and the web handlers. It performs the I/O and asks the library what
  to do.
- `tests/` runs the library on concrete inputs.
