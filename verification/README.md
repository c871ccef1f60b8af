# tieba-image-downloader

A downloader for the original-size body images of Baidu Tieba threads, with
its logic written and proved in Verus.

- `src/` is the verified library: thread links and page links, the HTML and
  page API parsers, stable ordering and deduplication of image records with
  their file names, cookie files and the browser session's cookies, the
  DevTools replies and network events of a browser login, resumable
  downloads (`Range`, `Content-Range`, `416`), retry and backoff of page and
  image requests, page scanning in growing batches, and the download
  scheduler with its adaptive concurrency.  Every function carries a
  contract over plain mathematical values; the properties that span calls
  (ordering and uniqueness of records, the tallies of the scheduler, the
  bounds of the concurrency, what a response may write) are proved lemmas.
- `src/html.rs`, `src/weburl.rs`, `src/json.rs` (`parse_json_text`),
  `src/http.rs`, `src/parser.rs` (`blake3_hex`), `src/keychain.rs`
  (`utf8_text`) and `src/text.rs` (`push_char`) hold the few trusted items
  through which the library calls `scraper`, `url`, `serde_json`, `reqwest`,
  `blake3` and `std`.  Everything that depends on the clock takes the time
  as an argument.
- The session is kept in the macOS keychain: the program reads, writes and
  deletes it there (through `security-framework`, on macOS only; elsewhere
  there is no keychain), and `src/keychain.rs` decides what each answer of
  the keychain means.
- `app/` is the command-line program around the library: arguments and the
  wizard, HTTP, files, the clock, the keychain, the Chrome process and its
  DevTools socket, progress bars, and the JSON files a run writes.  With
  `--metadata-only` a run stops once the list of images is written; with
  `--output-format json` the final result is one JSON object on stdout and
  every progress line goes to stderr.
- `tests/` runs the library on concrete values.
