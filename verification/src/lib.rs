//! A small static-site generation library: front-matter extraction,
//! Markdown rendering, reading-time estimation, and page/post assembly.

pub mod text;
pub mod front_matter;
pub mod analyzer;
pub mod render;
pub mod assemble;
pub mod html;
pub mod site;
pub mod config;
