//! A story and its rendering as an HTML article.

use vstd::prelude::*;

use crate::escape::{escape_seq, html_escape};
use crate::markdown::{markdown_html, md_to_html};
use crate::text::{is_white_space, lemma_trim_removes_only_end_whitespace, trim, trim_seq};

verus! {

/// Opens the article; the slug follows as its `id`.
pub const ARTICLE_OPEN: &'static str = "<article class=\"story\" id=\"";

/// Closes the `id` attribute and opens the title heading.
pub const HEADING_OPEN: &'static str = "\">\n  <div class=\"story-title\">\n    <h2>";

/// Closes the heading and opens the copy-link button; the slug follows.
pub const BUTTON_OPEN: &'static str = "</h2>\n    <button class=\"copy-link\" data-slug=\"";

/// Between the button's slug and the title in its accessible label.
pub const BUTTON_LABEL: &'static str = "\" title=\"Copy link\" aria-label=\"Copy link to ";

/// Closes a quoted attribute and the tag it belongs to.
pub const ATTRIBUTE_END: &'static str = "\">";

/// The chain-link icon shown inside the copy-link button.
pub const LINK_ICON: &'static str = r#"<svg xmlns="http://www.w3.org/2000/svg" width="14" height="14" viewBox="0 0 24 24" fill="none" stroke="currentColor" stroke-width="2" stroke-linecap="round" stroke-linejoin="round" aria-hidden="true"><path d="M10 13a5 5 0 0 0 7.54.54l3-3a5 5 0 0 0-7.07-7.07l-1.72 1.71"/><path d="M14 11a5 5 0 0 0-7.54-.54l-3 3a5 5 0 0 0 7.07 7.07l1.71-1.71"/></svg>"#;

/// Closes the button and the title block; the story's content follows.
pub const TITLE_BLOCK_CLOSE: &'static str = "</button>\n    <span class=\"copy-confirm\">link copied</span>\n  </div>\n  ";

/// Opens the share link; the slug follows as its fragment.
pub const SHARE_LINK_OPEN: &'static str = "\n  <a class=\"share-link\" href=\"#";

/// Closes the share link and the article.
pub const ARTICLE_CLOSE: &'static str = "</a>\n</article>";

/// The front matter of a story file: its title and the slug that names its
/// anchor on the page.
pub struct StoryFrontmatter {
    pub title: String,
    pub slug: String,
}

/// A story ready to be placed on the page.
pub struct Story {
    pub title: String,
    pub slug: String,
    /// The story's text, rendered from markdown to HTML.
    pub html_content: String,
}

/// The article for a story with the given title, slug and HTML content: the
/// slug names the article and its links as it is, the title is escaped, the
/// content is trimmed.
pub open spec fn article_html(title: Seq<char>, slug: Seq<char>, content: Seq<char>) -> Seq<char> {
    let t = escape_seq(title);
    ARTICLE_OPEN@ + slug + HEADING_OPEN@ + t + BUTTON_OPEN@ + slug + BUTTON_LABEL@ + t
        + ATTRIBUTE_END@ + LINK_ICON@ + TITLE_BLOCK_CLOSE@ + trim_seq(content) + SHARE_LINK_OPEN@
        + slug + ATTRIBUTE_END@ + slug + ARTICLE_CLOSE@
}

/// Everything in an article before the story's content: the article's opening
/// with the slug as its `id`, the escaped title as heading, and the copy-link
/// button labelled with the escaped title.
pub open spec fn article_head(title: Seq<char>, slug: Seq<char>) -> Seq<char> {
    ARTICLE_OPEN@ + slug + HEADING_OPEN@ + escape_seq(title) + BUTTON_OPEN@ + slug + BUTTON_LABEL@
        + escape_seq(title) + ATTRIBUTE_END@ + LINK_ICON@ + TITLE_BLOCK_CLOSE@
}

/// Everything in an article after the story's content: the share link to the
/// slug and the article's end.
pub open spec fn article_tail(slug: Seq<char>) -> Seq<char> {
    SHARE_LINK_OPEN@ + slug + ATTRIBUTE_END@ + slug + ARTICLE_CLOSE@
}

/// The article holds the story's content with whitespace removed from its two
/// ends and nothing else removed or changed; content that has no whitespace at
/// either end appears exactly as it is.
pub proof fn lemma_article_keeps_content(title: Seq<char>, slug: Seq<char>, content: Seq<char>)
    ensures
        exists|i: int, j: int|
            {
                &&& 0 <= i <= j <= content.len()
                &&& article_html(title, slug, content) == article_head(title, slug)
                    + content.subrange(i, j) + article_tail(slug)
                &&& forall|k: int| 0 <= k < i ==> is_white_space(#[trigger] content[k])
                &&& forall|k: int| j <= k < content.len() ==> is_white_space(#[trigger] content[k])
                &&& i < j ==> !is_white_space(content[i]) && !is_white_space(content[j - 1])
            },
        content.len() > 0 && !is_white_space(content[0]) && !is_white_space(content.last())
            ==> article_html(title, slug, content) == article_head(title, slug) + content
            + article_tail(slug),
{
    lemma_trim_removes_only_end_whitespace(content);
    let (i, j) = choose|i: int, j: int|
        {
            &&& 0 <= i <= j <= content.len()
            &&& trim_seq(content) == content.subrange(i, j)
            &&& forall|k: int| 0 <= k < i ==> is_white_space(#[trigger] content[k])
            &&& forall|k: int| j <= k < content.len() ==> is_white_space(#[trigger] content[k])
            &&& i < j ==> !is_white_space(content[i]) && !is_white_space(content[j - 1])
        };
    assert(article_html(title, slug, content) =~= article_head(title, slug) + content.subrange(i, j)
        + article_tail(slug));
    if content.len() > 0 && !is_white_space(content[0]) && !is_white_space(content.last()) {
        if i > 0 {
            assert(is_white_space(content[0]));
        }
        if j < content.len() {
            assert(is_white_space(content[content.len() - 1]));
        }
        assert(content.subrange(i, j) =~= content);
    }
}

/// The article for `story`.
pub open spec fn story_html(story: Story) -> Seq<char> {
    article_html(story.title@, story.slug@, story.html_content@)
}

/// The story of a file whose front matter is `front` and whose markdown body
/// is `content`.
pub fn story_from_parts(front: StoryFrontmatter, content: &str) -> (story: Story)
    ensures
        story.title@ == front.title@,
        story.slug@ == front.slug@,
        story.html_content@ == markdown_html(content@),
{
    Story { title: front.title, slug: front.slug, html_content: md_to_html(content) }
}

/// The HTML article for `story`, with its title, copy-link button, content
/// and share link.
pub fn render_story(story: &Story) -> (html: String)
    ensures
        html@ == story_html(*story),
{
    let slug = story.slug.as_str();
    let title = html_escape(story.title.as_str());
    let content = trim(story.html_content.as_str());
    let mut out = String::new();
    out.append(ARTICLE_OPEN);
    out.append(slug);
    out.append(HEADING_OPEN);
    out.append(title.as_str());
    out.append(BUTTON_OPEN);
    out.append(slug);
    out.append(BUTTON_LABEL);
    out.append(title.as_str());
    out.append(ATTRIBUTE_END);
    out.append(LINK_ICON);
    out.append(TITLE_BLOCK_CLOSE);
    out.append(content.as_str());
    out.append(SHARE_LINK_OPEN);
    out.append(slug);
    out.append(ATTRIBUTE_END);
    out.append(slug);
    out.append(ARTICLE_CLOSE);
    assert(out@ =~= story_html(*story));
    out
}

} // verus!
