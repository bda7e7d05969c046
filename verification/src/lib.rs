//! Verified core of a scrape-normalize-correlate-persist pipeline for a
//! university catering network: text normalizers for French date and
//! opening-hour phrases, structural field extraction from parsed HTML,
//! a directory scraper with a city allow-list, per-venue detail
//! enrichment with failure absorption, correlation of asynchronously
//! gathered results by URL, keyword derivation, and a model of the
//! destructive reload step of the persistence layer.

pub mod cli;
pub mod correlate;
pub mod dates;
pub mod directory;
pub mod enrich;
pub mod extract;
pub mod hours;
pub mod keywords;
pub mod schools;
pub mod store;
pub mod text;
