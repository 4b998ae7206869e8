# nexus_view

The decision-making core of the Nexus desktop view, written in Verus and
proved against its contracts.

- `src/` is the verified library. Each module states its behaviour over
  mathematical models (`Seq<char>` for text, views of its own types):
  - `picker`, `catalog`: the model picker — catalog rows, the default row,
    provider sections in name order, the status row, the highlighted row and
    query filtering;
  - `review`: splitting `git diff` output into files, decoding C-quoted
    paths, the code view of a file;
  - `media`, `player`, `webview`: media paragraphs of issue Markdown, the
    player page (HTML-escaped), navigation rules of the embedded web views;
  - `lifecycle`, `settings`, `theme`, `fonts`, `issues`, `components`,
    `search`: window and quit decisions, settings pages and secrets, the
    resolved appearance, the font menu, issue chips and dates, status colours,
    case-insensitive search;
  - `text`, `bytes`, `i18n`: character utilities, UTF-8 byte offsets and the
    interface texts in Chinese and English.
- `tests/` runs the library on concrete values.
- `app/` holds the player's loopback web server (axum, tower-http), which
  serves an attachment and the page built by the library.
