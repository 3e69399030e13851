//! Assembly of the single page that holds the header, every story and the
//! footer.

use vstd::prelude::*;

use crate::assets::{css, js, SCRIPT, STYLE_SHEET};
use crate::markdown::{markdown_html, md_to_html};
use crate::story::{render_story, story_html, Story};
use crate::text::{trim, trim_seq};

verus! {

/// Everything before the style sheet: the document head with its metadata, up to the opening `<style>` tag.
pub const PAGE_HEAD: &'static str = r#"<!DOCTYPE html>
<html lang="en">
<head>
  <meta charset="UTF-8">
  <meta name="viewport" content="width=device-width, initial-scale=1.0">
  <title>Token Effort</title>
  <meta property="og:title" content="Token Effort">
  <meta property="og:description" content="Short fiction from a world trading on tokens and bandwidth.">
  <meta property="og:type" content="website">
  <meta property="og:url" content="https://token-effort.ai/">
  <meta property="og:image" content="https://token-effort.ai/preview.svg">
  <meta name="twitter:card" content="summary_large_image">
  <meta name="twitter:title" content="Token Effort">
  <meta name="twitter:description" content="Short fiction from a world trading on tokens and bandwidth.">
  <meta name="twitter:image" content="https://token-effort.ai/preview.svg">
  <style>"#;

/// Closes the style sheet and the head, and opens the site header.
pub const STYLE_CLOSE: &'static str = r#"</style>
</head>
<body>
<header class="site-header">
  "#;

/// Closes the site header and opens the main element.
pub const HEADER_CLOSE: &'static str = r#"
</header>
<main>
  "#;

/// Closes the main element and opens the site footer.
pub const MAIN_CLOSE: &'static str = r#"
</main>
<footer class="site-footer">
  "#;

/// Closes the site footer and opens the script element.
pub const FOOTER_CLOSE: &'static str = r#"
</footer>
<script>"#;

/// Closes the script, the body and the document.
pub const PAGE_END: &'static str = r#"</script>
</body>
</html>"#;

/// What stands between two stories on the page.
pub const STORY_SEPARATOR: &'static str = "\n\n";

/// The parts joined in order, with `sep` between each two neighbours.
pub open spec fn join_seqs(parts: Seq<Seq<char>>, sep: Seq<char>) -> Seq<char>
    decreases parts.len(),
{
    if parts.len() == 0 {
        Seq::empty()
    } else if parts.len() == 1 {
        parts[0]
    } else {
        join_seqs(parts.drop_last(), sep) + sep + parts.last()
    }
}

/// Where the `k`-th part starts when `parts` are laid out in order with
/// `sep_len` characters between each two neighbours.
pub open spec fn part_offset(parts: Seq<Seq<char>>, sep_len: nat, k: nat) -> int
    decreases k,
{
    if k == 0 {
        0
    } else {
        part_offset(parts, sep_len, (k - 1) as nat) + parts[k - 1].len() + sep_len
    }
}

proof fn lemma_offset_drop_last(parts: Seq<Seq<char>>, sep_len: nat, k: nat)
    requires
        k < parts.len(),
    ensures
        part_offset(parts.drop_last(), sep_len, k) == part_offset(parts, sep_len, k),
    decreases k,
{
    if k > 0 {
        lemma_offset_drop_last(parts, sep_len, (k - 1) as nat);
    }
}

proof fn lemma_offset_monotone(parts: Seq<Seq<char>>, sep_len: nat, k: nat, j: nat)
    requires
        k < j,
    ensures
        part_offset(parts, sep_len, k) + parts[k as int].len() + sep_len <= part_offset(parts, sep_len, j),
    decreases j,
{
    if k + 1 < j {
        lemma_offset_monotone(parts, sep_len, k, (j - 1) as nat);
    }
}

proof fn lemma_join_len(parts: Seq<Seq<char>>, sep: Seq<char>)
    requires
        parts.len() > 0,
    ensures
        join_seqs(parts, sep).len() == part_offset(parts, sep.len(), (parts.len() - 1) as nat)
            + parts.last().len(),
    decreases parts.len(),
{
    if parts.len() > 1 {
        let n = parts.len();
        lemma_join_len(parts.drop_last(), sep);
        lemma_offset_drop_last(parts, sep.len(), (n - 2) as nat);
    }
}

proof fn lemma_join_part(parts: Seq<Seq<char>>, sep: Seq<char>, k: int)
    requires
        0 <= k < parts.len(),
    ensures
        join_seqs(parts, sep).subrange(
            part_offset(parts, sep.len(), k as nat),
            part_offset(parts, sep.len(), k as nat) + parts[k].len(),
        ) == parts[k],
    decreases parts.len(),
{
    let j = join_seqs(parts, sep);
    let l = sep.len();
    let n = parts.len();
    if n == 1 {
        assert(j.subrange(0, parts[0].len() as int) =~= parts[0]);
    } else {
        let init = parts.drop_last();
        let ji = join_seqs(init, sep);
        lemma_join_len(init, sep);
        lemma_offset_drop_last(parts, l, (n - 2) as nat);
        if k < n - 1 {
            lemma_join_part(init, sep, k);
            lemma_offset_drop_last(parts, l, k as nat);
            if k < n - 2 {
                lemma_offset_monotone(init, l, k as nat, (n - 2) as nat);
            }
            if k > 0 {
                lemma_offset_monotone(init, l, 0, k as nat);
            }
            assert(init[k] == parts[k]);
            assert(j.subrange(
                part_offset(parts, l, k as nat),
                part_offset(parts, l, k as nat) + parts[k].len(),
            ) =~= ji.subrange(
                part_offset(init, l, k as nat),
                part_offset(init, l, k as nat) + init[k].len(),
            ));
        } else {
            lemma_offset_drop_last(parts, l, (n - 1) as nat);
            assert(j.subrange(
                part_offset(parts, l, k as nat),
                part_offset(parts, l, k as nat) + parts[k].len(),
            ) =~= parts.last());
        }
    }
}

proof fn lemma_join_sep(parts: Seq<Seq<char>>, sep: Seq<char>, k: int)
    requires
        0 <= k < parts.len() - 1,
    ensures
        join_seqs(parts, sep).subrange(
            part_offset(parts, sep.len(), k as nat) + parts[k].len(),
            part_offset(parts, sep.len(), (k + 1) as nat),
        ) == sep,
    decreases parts.len(),
{
    let j = join_seqs(parts, sep);
    let l = sep.len();
    let n = parts.len();
    let init = parts.drop_last();
    let ji = join_seqs(init, sep);
    lemma_join_len(init, sep);
    lemma_offset_drop_last(parts, l, (n - 2) as nat);
    lemma_offset_drop_last(parts, l, k as nat);
    if k < n - 2 {
        lemma_join_sep(init, sep, k);
        lemma_offset_drop_last(parts, l, (k + 1) as nat);
        if k + 1 < n - 2 {
            lemma_offset_monotone(init, l, (k + 1) as nat, (n - 2) as nat);
        }
        if k > 0 {
            lemma_offset_monotone(init, l, 0, k as nat);
        }
        assert(init[k] == parts[k]);
        assert(init[k + 1] == parts[k + 1]);
        assert(j.subrange(
            part_offset(parts, l, k as nat) + parts[k].len(),
            part_offset(parts, l, (k + 1) as nat),
        ) =~= ji.subrange(
            part_offset(init, l, k as nat) + init[k].len(),
            part_offset(init, l, (k + 1) as nat),
        ));
    } else {
        assert(j.subrange(
            part_offset(parts, l, k as nat) + parts[k].len(),
            part_offset(parts, l, (k + 1) as nat),
        ) =~= sep);
    }
}

/// Joining keeps every part, whole and in order: the `k`-th part stands at
/// its offset, a separator stands between each two neighbours, and nothing
/// else is in the result.
pub proof fn lemma_join_places_every_part(parts: Seq<Seq<char>>, sep: Seq<char>)
    ensures
        parts.len() == 0 ==> join_seqs(parts, sep).len() == 0,
        parts.len() > 0 ==> join_seqs(parts, sep).len() == part_offset(
            parts,
            sep.len(),
            (parts.len() - 1) as nat,
        ) + parts.last().len(),
        forall|k: int|
            0 <= k < parts.len() ==> join_seqs(parts, sep).subrange(
                part_offset(parts, sep.len(), k as nat),
                part_offset(parts, sep.len(), k as nat) + parts[k].len(),
            ) == #[trigger] parts[k],
        forall|k: int|
            0 <= k < parts.len() - 1 ==> join_seqs(parts, sep).subrange(
                part_offset(parts, sep.len(), k as nat) + #[trigger] parts[k].len(),
                part_offset(parts, sep.len(), (k + 1) as nat),
            ) == sep,
{
    if parts.len() > 0 {
        lemma_join_len(parts, sep);
    }
    assert forall|k: int| 0 <= k < parts.len() implies join_seqs(parts, sep).subrange(
        part_offset(parts, sep.len(), k as nat),
        part_offset(parts, sep.len(), k as nat) + parts[k].len(),
    ) == #[trigger] parts[k] by {
        lemma_join_part(parts, sep, k);
    }
    assert forall|k: int| 0 <= k < parts.len() - 1 implies join_seqs(parts, sep).subrange(
        part_offset(parts, sep.len(), k as nat) + #[trigger] parts[k].len(),
        part_offset(parts, sep.len(), (k + 1) as nat),
    ) == sep by {
        lemma_join_sep(parts, sep, k);
    }
}

/// The articles of `stories`, in order.
pub open spec fn articles(stories: Seq<Story>) -> Seq<Seq<char>> {
    stories.map_values(|s: Story| story_html(s))
}

/// The page for the given header HTML, footer HTML and stories: header and
/// footer are trimmed, the articles are separated by blank lines, and the style
/// sheet and script are embedded.
pub open spec fn page_html(header_html: Seq<char>, footer_html: Seq<char>, stories: Seq<Story>) -> Seq<char> {
    PAGE_HEAD@ + STYLE_SHEET@ + STYLE_CLOSE@ + trim_seq(header_html) + HEADER_CLOSE@ + join_seqs(
        articles(stories),
        STORY_SEPARATOR@,
    ) + MAIN_CLOSE@ + trim_seq(footer_html) + FOOTER_CLOSE@ + SCRIPT@ + PAGE_END@
}

/// There is one article per story, in the stories' order.
pub proof fn lemma_one_article_per_story(stories: Seq<Story>)
    ensures
        articles(stories).len() == stories.len(),
        forall|k: int| 0 <= k < stories.len() ==> #[trigger] articles(stories)[k] == story_html(stories[k]),
{
}

/// Where the stories begin on the page for the given header HTML.
pub open spec fn stories_start(header_html: Seq<char>) -> int {
    (PAGE_HEAD@ + STYLE_SHEET@ + STYLE_CLOSE@ + trim_seq(header_html) + HEADER_CLOSE@).len() as int
}

proof fn lemma_page_holds_story(header_html: Seq<char>, footer_html: Seq<char>, stories: Seq<Story>, k: int)
    requires
        0 <= k < stories.len(),
    ensures
        ({
            let start = stories_start(header_html) + part_offset(
                articles(stories),
                STORY_SEPARATOR@.len(),
                k as nat,
            );
            page_html(header_html, footer_html, stories).subrange(
                start,
                start + story_html(stories[k]).len(),
            ) == story_html(stories[k])
        }),
{
    let parts = articles(stories);
    let sep = STORY_SEPARATOR@;
    let l = sep.len();
    let pre = PAGE_HEAD@ + STYLE_SHEET@ + STYLE_CLOSE@ + trim_seq(header_html) + HEADER_CLOSE@;
    let j = join_seqs(parts, sep);
    let post = MAIN_CLOSE@ + trim_seq(footer_html) + FOOTER_CLOSE@ + SCRIPT@ + PAGE_END@;
    let page = page_html(header_html, footer_html, stories);
    assert(page =~= pre + j + post);
    let n = parts.len();
    lemma_join_len(parts, sep);
    lemma_join_part(parts, sep, k);
    assert(parts[k] == story_html(stories[k]));
    if k < n - 1 {
        lemma_offset_monotone(parts, l, k as nat, (n - 1) as nat);
    }
    if k > 0 {
        lemma_offset_monotone(parts, l, 0, k as nat);
    }
    let o = part_offset(parts, l, k as nat);
    assert(page.subrange(pre.len() + o, pre.len() + o + parts[k].len()) =~= j.subrange(
        o,
        o + parts[k].len(),
    ));
}

/// The page holds the article of every story, whole, in the stories' order,
/// one blank line apart, starting where the header section ends.
pub proof fn lemma_page_holds_every_story(header_html: Seq<char>, footer_html: Seq<char>, stories: Seq<Story>)
    ensures
        forall|k: int|
            0 <= k < stories.len() ==> {
                let start = stories_start(header_html) + part_offset(
                    articles(stories),
                    STORY_SEPARATOR@.len(),
                    k as nat,
                );
                page_html(header_html, footer_html, stories).subrange(
                    start,
                    start + story_html(stories[k]).len(),
                ) == story_html(#[trigger] stories[k])
            },
{
    assert forall|k: int| 0 <= k < stories.len() implies {
        let start = stories_start(header_html) + part_offset(
            articles(stories),
            STORY_SEPARATOR@.len(),
            k as nat,
        );
        page_html(header_html, footer_html, stories).subrange(
            start,
            start + story_html(stories[k]).len(),
        ) == story_html(#[trigger] stories[k])
    } by {
        lemma_page_holds_story(header_html, footer_html, stories, k);
    }
}

/// The articles of `stories` joined by blank lines.
pub fn render_stories(stories: &[Story]) -> (html: String)
    ensures
        html@ == join_seqs(articles(stories@), STORY_SEPARATOR@),
{
    let mut out = String::new();
    let mut i: usize = 0;
    while i < stories.len()
        invariant
            i <= stories@.len(),
            out@ == join_seqs(articles(stories@.take(i as int)), STORY_SEPARATOR@),
        decreases stories@.len() - i,
    {
        let article = render_story(&stories[i]);
        let ghost prev = articles(stories@.take(i as int));
        let ghost next = articles(stories@.take(i + 1));
        assert(next.drop_last() =~= prev);
        assert(next.last() == story_html(stories@[i as int]));
        if i > 0 {
            out.append(STORY_SEPARATOR);
        } else {
            assert(next.len() == 1);
        }
        out.append(article.as_str());
        i = i + 1;
    }
    assert(stories@.take(stories@.len() as int) =~= stories@);
    out
}

/// The page whose header and footer are already HTML.
pub fn assemble_page(header_html: &str, footer_html: &str, stories: &[Story]) -> (page: String)
    ensures
        page@ == page_html(header_html@, footer_html@, stories@),
{
    let body = render_stories(stories);
    let header = trim(header_html);
    let footer = trim(footer_html);
    let mut out = String::new();
    out.append(PAGE_HEAD);
    out.append(css());
    out.append(STYLE_CLOSE);
    out.append(header.as_str());
    out.append(HEADER_CLOSE);
    out.append(body.as_str());
    out.append(MAIN_CLOSE);
    out.append(footer.as_str());
    out.append(FOOTER_CLOSE);
    out.append(js());
    out.append(PAGE_END);
    assert(out@ =~= page_html(header_html@, footer_html@, stories@));
    out
}

/// The page for the markdown header and footer and the stories, in the order
/// given.
pub fn build_page(header_md: &str, footer_md: &str, stories: &[Story]) -> (page: String)
    ensures
        page@ == page_html(markdown_html(header_md@), markdown_html(footer_md@), stories@),
{
    let header_html = md_to_html(header_md);
    let footer_html = md_to_html(footer_md);
    assemble_page(header_html.as_str(), footer_html.as_str(), stories)
}

} // verus!
