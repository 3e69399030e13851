//! Static page generation for a collection of short stories: selecting the
//! story files of a directory, rendering each story as an HTML article and
//! assembling the single page that holds them all.

pub mod assets;
pub mod escape;
pub mod listing;
pub mod markdown;
pub mod page;
pub mod story;
pub mod text;

pub use assets::{css, js, preview_svg};
pub use escape::html_escape;
pub use listing::select_story_files;
pub use page::{assemble_page, build_page};
pub use story::{render_story, story_from_parts, Story, StoryFrontmatter};
