pub mod pattern;
pub mod text;
pub mod types;
pub mod variants;
pub mod avatar;
pub mod identity;
pub mod graph;
pub mod report;
pub mod report_text;
pub mod html_report;
pub mod domain;
pub mod scraper;
pub mod timeline;
pub mod enricher;
pub mod options;
pub mod search;
pub mod console;
