//! Turns an article (a YAML header block followed by a Markdown body) into
//! the pieces a page needs: rendered HTML, a title, a summary and an image.

mod chars;
pub mod frontmatter;
pub mod markdown;
pub mod extract;
pub mod opt;
pub mod parser;
pub mod sitemap;
