//! A static site generator's content pipeline: front matter, field
//! resolution, classification into posts and pages, ordering, and the plan
//! of output files.

pub mod text;
pub mod frontmatter;
pub mod fields;
pub mod date;
pub mod config;
pub mod content;
pub mod site;
pub mod render;
