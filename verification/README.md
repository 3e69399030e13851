# token_effort

Builds the single HTML page of a short-fiction site.

- `src/` is the verified library: choosing and ordering the story files of a
  directory (`listing`), HTML escaping (`escape`), trimming (`text`), rendering
  a story as an article (`story`), assembling the page (`page`), the embedded
  style sheet, script and preview image (`assets`), and markdown rendering by
  `pulldown_cmark` (`markdown`).
- `app/main.rs` is the program: it walks `content/stories`, reads the files,
  reads their YAML front matter with `gray_matter`, and writes
  `output/index.html` and `output/preview.svg`.
