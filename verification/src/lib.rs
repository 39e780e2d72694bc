//! Verified core of a recipe search engine: site rules, URL handling,
//! sitemap scanning, crawl bookkeeping and recipe assembly.

pub mod text;
pub mod sites;
pub mod urls;
pub mod sitemap;
pub mod fetch;
pub mod rate_limit;
pub mod proxy;
pub mod frontier;
pub mod links;
pub mod recipe;
pub mod models;
pub mod service;
pub mod search;
pub mod encode;
