//! The rules of the recipe service's requests and replies.

use vstd::prelude::*;
use crate::models::QueueStats;
use crate::recipe::ScrapedRecipe;
use crate::text::{trim, trim_seq};

verus! {

/// A recipe as the service returns it.
#[derive(Debug, Clone)]
pub struct RecipeResponse {
    /// The page it came from.
    pub url: String,
    /// Its name.
    pub title: String,
    /// Its total time in minutes.
    pub total_time: i32,
    /// Its ingredient lines.
    pub ingredients: Vec<String>,
    /// Its steps.
    pub instructions: Vec<String>,
    /// Its picture's URL.
    pub image: String,
}

/// The reply to a recipe lookup.
#[derive(Debug, Clone)]
pub struct GetRecipeResponse {
    /// The page it came from.
    pub url: String,
    /// Its name.
    pub title: String,
    /// Its total time in minutes.
    pub total_time: i32,
    /// Its ingredient lines.
    pub ingredients: Vec<String>,
    /// Its steps.
    pub instructions: Vec<String>,
    /// Its picture's URL.
    pub image: String,
}

/// The reply carrying a recipe: every field as it is.
pub fn recipe_to_proto(r: RecipeResponse) -> (p: GetRecipeResponse)
    ensures
        p.url == r.url,
        p.title == r.title,
        p.total_time == r.total_time,
        p.ingredients == r.ingredients,
        p.instructions == r.instructions,
        p.image == r.image,
{
    GetRecipeResponse {
        url: r.url,
        title: r.title,
        total_time: r.total_time,
        ingredients: r.ingredients,
        instructions: r.instructions,
        image: r.image,
    }
}

/// A scraped recipe as the service returns it: every field as it is.
pub fn recipe_response(r: ScrapedRecipe) -> (p: RecipeResponse)
    ensures
        p.url == r.url,
        p.title == r.title,
        p.total_time == r.total_time,
        p.ingredients == r.ingredients,
        p.instructions == r.instructions,
        p.image == r.image,
{
    RecipeResponse {
        url: r.url,
        title: r.title,
        total_time: r.total_time,
        ingredients: r.ingredients,
        instructions: r.instructions,
        image: r.image,
    }
}

/// Why a service request is refused.
#[derive(Debug)]
pub enum ServiceError {
    /// A scrape job without a URL.
    UrlRequired,
    /// A search without a query.
    QueryRequired,
}

impl ServiceError {
    /// The message of the refusal.
    pub fn message(&self) -> (r: &'static str)
        ensures
            self is UrlRequired ==> r@ == "url is required"@,
            self is QueryRequired ==> r@ == "query is required"@,
    {
        match self {
            ServiceError::UrlRequired => "url is required",
            ServiceError::QueryRequired => "query is required",
        }
    }
}

/// The URL of a scrape job: the given one trimmed; refused when blank.
pub fn scrape_job_url(url: &str) -> (r: Result<String, ServiceError>)
    ensures
        trim_seq(url@).len() == 0 ==> r matches Err(ServiceError::UrlRequired),
        trim_seq(url@).len() > 0 ==> (r matches Ok(u) && u@ == trim_seq(url@)),
{
    let u = trim(url);
    if u.as_str().is_empty() {
        Err(ServiceError::UrlRequired)
    } else {
        Ok(u)
    }
}

/// The query and limit of a search: the query trimmed, refused when blank; the limit as
/// given when positive, 20 otherwise.
pub fn search_request(query: &str, limit: i32) -> (r: Result<(String, i32), ServiceError>)
    ensures
        trim_seq(query@).len() == 0 ==> r matches Err(ServiceError::QueryRequired),
        trim_seq(query@).len() > 0 ==> (r matches Ok((q, l)) && q@ == trim_seq(query@) && l == (
        if limit > 0 {
            limit
        } else {
            20
        })),
{
    let q = trim(query);
    if q.as_str().is_empty() {
        return Err(ServiceError::QueryRequired);
    }
    let l = if limit > 0 {
        limit
    } else {
        20
    };
    Ok((q, l))
}

/// The reply to a queue status request.
#[derive(Debug, Clone)]
pub struct QueueStatusResponse {
    /// Jobs waiting.
    pub pending: i32,
    /// Jobs being scraped.
    pub in_progress: i32,
    /// Jobs scraped.
    pub done: i32,
    /// Jobs that failed.
    pub error: i32,
}

/// The queue counts as the reply carries them, each cut to 32 bits as `as i32` does.
pub fn queue_status_response(stats: &QueueStats) -> (r: QueueStatusResponse)
    ensures
        r.pending == stats.pending as i32,
        r.in_progress == stats.in_progress as i32,
        r.done == stats.done as i32,
        r.error == stats.error as i32,
{
    QueueStatusResponse {
        pending: stats.pending as i32,
        in_progress: stats.in_progress as i32,
        done: stats.done as i32,
        error: stats.error as i32,
    }
}

} // verus!
