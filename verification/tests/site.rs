use token_effort::escape::html_escape;
use token_effort::listing::select_story_files;
use token_effort::page::assemble_page;
use token_effort::text::trim;
use token_effort::{build_page, css, js, preview_svg, render_story, story_from_parts, Story, StoryFrontmatter};

fn expected_article(title: &str, slug: &str, html_content: &str) -> String {
    let title = html_escape(title);
    let content = html_content.trim();
    let icon = r#"<svg xmlns="http://www.w3.org/2000/svg" width="14" height="14" viewBox="0 0 24 24" fill="none" stroke="currentColor" stroke-width="2" stroke-linecap="round" stroke-linejoin="round" aria-hidden="true"><path d="M10 13a5 5 0 0 0 7.54.54l3-3a5 5 0 0 0-7.07-7.07l-1.72 1.71"/><path d="M14 11a5 5 0 0 0-7.54-.54l-3 3a5 5 0 0 0 7.07 7.07l1.71-1.71"/></svg>"#;
    format!(
        "<article class=\"story\" id=\"{slug}\">\n  <div class=\"story-title\">\n    <h2>{title}</h2>\n    <button class=\"copy-link\" data-slug=\"{slug}\" title=\"Copy link\" aria-label=\"Copy link to {title}\">{icon}</button>\n    <span class=\"copy-confirm\">link copied</span>\n  </div>\n  {content}\n  <a class=\"share-link\" href=\"#{slug}\">{slug}</a>\n</article>"
    )
}

fn expected_page(header_html: &str, footer_html: &str, stories_html: &str) -> String {
    format!(
        r#"<!DOCTYPE html>
<html lang="en">
<head>
  <meta charset="UTF-8">
  <meta name="viewport" content="width=device-width, initial-scale=1.0">
  <title>Token Effort</title>
  <meta property="og:title" content="Token Effort">
  <meta property="og:description" content="Short fiction from a world trading on tokens and bandwidth.">
  <meta property="og:type" content="website">
  <meta property="og:url" content="https://token-effort.ai/">
  <meta property="og:image" content="https://token-effort.ai/preview.svg">
  <meta name="twitter:card" content="summary_large_image">
  <meta name="twitter:title" content="Token Effort">
  <meta name="twitter:description" content="Short fiction from a world trading on tokens and bandwidth.">
  <meta name="twitter:image" content="https://token-effort.ai/preview.svg">
  <style>{css}</style>
</head>
<body>
<header class="site-header">
  {header}
</header>
<main>
  {stories}
</main>
<footer class="site-footer">
  {footer}
</footer>
<script>{js}</script>
</body>
</html>"#,
        css = css(),
        js = js(),
        header = header_html.trim(),
        stories = stories_html,
        footer = footer_html.trim(),
    )
}

fn story(title: &str, slug: &str, html_content: &str) -> Story {
    Story {
        title: title.to_string(),
        slug: slug.to_string(),
        html_content: html_content.to_string(),
    }
}

fn names(list: &[&str]) -> Vec<Vec<u8>> {
    list.iter().map(|n| n.as_bytes().to_vec()).collect()
}

#[test]
fn escape_replaces_markup_characters() {
    assert_eq!(
        html_escape("Fish & <Chips> \"now\""),
        "Fish &amp; &lt;Chips&gt; &quot;now&quot;"
    );
}

#[test]
fn escape_keeps_other_text() {
    assert_eq!(html_escape("It's a plain title — ünïcode"), "It's a plain title — ünïcode");
    assert_eq!(html_escape(""), "");
}

#[test]
fn escape_does_not_double_escape_order() {
    assert_eq!(html_escape("&lt;"), "&amp;lt;");
    assert_eq!(html_escape("<&>"), "&lt;&amp;&gt;");
}

#[test]
fn trim_removes_unicode_whitespace() {
    assert_eq!(trim("  \n\t<p>x</p>\n\u{3000}"), "<p>x</p>");
    assert_eq!(trim("\u{a0}a b\u{2009}"), "a b");
    assert_eq!(trim(" \n "), "");
    assert_eq!(trim("x"), "x");
    for s in ["", " a ", "\u{85}b\u{2028}", "\u{200b}c"] {
        assert_eq!(trim(s), s.trim());
    }
}

#[test]
fn render_story_matches_template() {
    let s = story("Tokens & <Bandwidth>", "tokens-bandwidth", "\n<p>Once upon a time.</p>\n");
    assert_eq!(
        render_story(&s),
        expected_article("Tokens & <Bandwidth>", "tokens-bandwidth", "\n<p>Once upon a time.</p>\n")
    );
}

#[test]
fn render_story_exact_text() {
    let s = story("A \"quote\"", "a-quote", "<p>Hi</p>\n");
    let html = render_story(&s);
    assert!(html.starts_with("<article class=\"story\" id=\"a-quote\">\n  <div class=\"story-title\">\n    <h2>A &quot;quote&quot;</h2>\n"));
    assert!(html.contains("aria-label=\"Copy link to A &quot;quote&quot;\">"));
    assert!(html.ends_with("</div>\n  <p>Hi</p>\n  <a class=\"share-link\" href=\"#a-quote\">a-quote</a>\n</article>"));
}

#[test]
fn assemble_page_matches_template() {
    let stories = vec![
        story("First", "first", "<p>One</p>\n"),
        story("Second", "second", "<p>Two</p>"),
    ];
    let joined = format!("{}\n\n{}", render_story(&stories[0]), render_story(&stories[1]));
    assert_eq!(
        assemble_page("\n<h1>Token Effort</h1>\n", "<p>bye</p>\n", &stories),
        expected_page("<h1>Token Effort</h1>", "<p>bye</p>", &joined)
    );
}

#[test]
fn assemble_page_without_stories() {
    assert_eq!(assemble_page("", "", &[]), expected_page("", "", ""));
}

#[test]
fn build_page_renders_markdown_header_and_footer() {
    let stories = vec![story("Only", "only", "<p>Text</p>\n")];
    let page = build_page("# Token Effort\n\n*Short fiction.*", "Made with ~~care~~ love", &stories);
    assert_eq!(
        page,
        expected_page(
            "<h1>Token Effort</h1>\n<p><em>Short fiction.</em></p>\n",
            "<p>Made with <del>care</del> love</p>\n",
            &render_story(&stories[0]),
        )
    );
}

#[test]
fn story_from_parts_renders_markdown() {
    let front = StoryFrontmatter { title: "T".to_string(), slug: "t".to_string() };
    let s = story_from_parts(front, "\"Hello\" -- *world*");
    assert_eq!(s.title, "T");
    assert_eq!(s.slug, "t");
    assert_eq!(s.html_content, "<p>\u{201c}Hello\u{201d} \u{2013} <em>world</em></p>\n");
}

#[test]
fn select_keeps_markdown_files_newest_first() {
    let got = select_story_files(names(&[
        "2024-01-02-b.md",
        "notes.txt",
        ".md",
        "2025-03-01-a.md",
        "README.MD",
        "drafts",
        "2024-11-30-c.md",
        "x.md.bak",
    ]));
    assert_eq!(got, names(&["2025-03-01-a.md", "2024-11-30-c.md", "2024-01-02-b.md"]));
}

#[test]
fn select_orders_by_name_bytes() {
    let got = select_story_files(names(&["ab.md", "a.md", "b.md", "..md", "a.mdx", "Z.md"]));
    assert_eq!(got, names(&["b.md", "ab.md", "a.md", "Z.md", "..md"]));
}

#[test]
fn select_ignores_listing_order() {
    let a = select_story_files(names(&["1.md", "3.md", "2.md", "x"]));
    let b = select_story_files(names(&["x", "2.md", "1.md", "3.md"]));
    assert_eq!(a, b);
    assert_eq!(a, names(&["3.md", "2.md", "1.md"]));
}

#[test]
fn select_of_empty_directory() {
    assert!(select_story_files(Vec::new()).is_empty());
}

#[test]
fn assets_are_the_embedded_texts() {
    assert!(preview_svg().starts_with("<svg xmlns=\"http://www.w3.org/2000/svg\" width=\"1200\""));
    assert!(preview_svg().ends_with("</svg>"));
    assert!(css().contains("--accent: #7c6af7;"));
    assert!(js().contains("function highlightTarget()"));
    assert!(!css().contains('<'));
    assert!(!js().contains('<'));
}
