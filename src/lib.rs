//! Turns a tree of Markdown and other files into a website or an eBook plan.
//!
//! Paths are `/`-separated strings. The library decides; the program around it
//! reads, writes and packages.
mod text;
pub mod path;
pub mod markdown;
pub mod document;
pub mod book;
pub mod web;
pub mod front_matter;

pub use self::front_matter::FrontMatter;
pub use self::document::{Document, DocumentInfo, DocError, SiteAction};
pub use self::web::Web;
