//! A static blog builder: the page, feed, sitemap, robots and Markdown texts
//! that the build writes, the rules that pick and order the published posts,
//! and the step-by-step plan of a build, each with its contract.

pub mod text;
pub mod matcher;
pub mod html;
pub mod config;
pub mod date;
pub mod xml;
pub mod post;
pub mod render;
pub mod markdown;
pub mod site_build;
pub mod escape_laws;
