# tnt_scraper_lib

A client for the TNTVillage release list, verified with Verus.

- `src/category.rs`: the release categories and their numeric codes.
- `src/text.rs`: trimming, decimal numbers, search and joining over characters.
- `src/html.rs`: CSS selectors and the query of an HTML page (done by `scraper`).
- `src/selector_cache.rs`: a cache of parsed selectors.
- `src/tnt_scraper.rs`: reading a release-list page into releases.
- `src/downloader.rs`: the file name of a download and the mending of its
  `Content-Disposition` header (headers parsed by `hyper`).
- `src/prompt.rs`: the decisions of the interactive client.
- `app/main.rs`: the command-line program (arguments, prompts, HTTP, files).
