//! Crawler logic for a news portal: reading the navigation bar, the news
//! blocks and the pager of its pages, and building the rows that are stored.

pub mod dom;
pub mod guard;
pub mod text;
pub mod nav;
pub mod news;
pub mod pager;
