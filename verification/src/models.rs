//! Stored recipes, queue counts and request parameters, with the rules that read them.

use vstd::prelude::*;
use vstd::utf8::is_char_boundary;
use vstd::string::StringSliceAdditionalSpecFns;
use crate::recipe::{scraped_view, ScrapedRecipe};
use crate::text::{str_eq, trim, trim_seq, views};

verus! {

/// A stored recipe.
#[derive(Debug, Clone)]
pub struct Recipe {
    /// The page it came from.
    pub url: String,
    /// Its name.
    pub title: String,
    /// Its total time in minutes.
    pub total_time: i32,
    /// Its ingredient lines.
    pub ingredients: Vec<String>,
    /// Its steps.
    pub instructions: Vec<String>,
    /// Its picture's URL.
    pub image: String,
}

/// A recipe as its six fields.
pub open spec fn recipe_view(r: Recipe) -> (Seq<char>, Seq<char>, i32, Seq<Seq<char>>, Seq<Seq<char>>, Seq<char>) {
    (r.url@, r.title@, r.total_time, views(r.ingredients@), views(r.instructions@), r.image@)
}

/// What `serde_json::from_str::<Vec<String>>` gives for `text`; `None` when it is not a
/// JSON array of strings.
pub uninterp spec fn spec_json_string_list(text: Seq<char>) -> Option<Seq<Seq<char>>>;

/// What `serde_json::to_string` gives for a list of strings; `None` when it fails.
pub uninterp spec fn spec_json_encode_strings(items: Seq<Seq<char>>) -> Option<Seq<char>>;

/// Calls `serde_json::from_str::<Vec<String>>`. The contract only names the outcome.
#[verifier::external_body]
fn json_string_list(text: &str) -> (r: Option<Vec<String>>)
    ensures
        r.deep_view() == spec_json_string_list(text@),
{
    serde_json::from_str::<Vec<String>>(text).ok()
}

/// Calls `serde_json::to_string` on a list of strings. The text produced is named; the
/// contract also states two facts of it: serializing a `Vec<String>` does not fail (the
/// documented errors come only from a failing `Serialize` impl or from maps with
/// non-string keys), and `serde_json::from_str::<Vec<String>>` reads the produced text
/// back as the same list (strings are written with `"`, `\` and control characters
/// escaped, and parsing undoes exactly those escapes).
#[verifier::external_body]
fn json_encode_strings(items: &Vec<String>) -> (r: Option<String>)
    ensures
        r.deep_view() == spec_json_encode_strings(items.deep_view()),
        r is Some,
        spec_json_string_list(r.unwrap()@) == Some(items.deep_view()),
{
    serde_json::to_string(items).ok()
}

/// A stored list column read back: the JSON array it holds, or no items when it is missing
/// or not a JSON array of strings.
pub open spec fn list_column_spec(column: Option<Seq<char>>) -> Seq<Seq<char>> {
    match spec_json_string_list(match column {
        Some(c) => c,
        None => Seq::empty(),
    }) {
        Some(items) => items,
        None => Seq::empty(),
    }
}

fn list_column(column: Option<String>) -> (r: Vec<String>)
    ensures
        views(r@) == list_column_spec(column.deep_view()),
{
    let text = match column {
        Some(c) => c,
        None => String::new(),
    };
    match json_string_list(text.as_str()) {
        Some(items) => {
            assert(views(items@) =~= items.deep_view());
            items
        },
        None => Vec::new(),
    }
}

/// The columns of a stored recipe row.
#[derive(Debug, Clone)]
pub struct RecipeRow {
    /// The page the recipe came from.
    pub url: String,
    /// Its name, when stored.
    pub title: Option<String>,
    /// Its total time, when stored.
    pub total_time: Option<i32>,
    /// Its ingredient lines as a JSON array, when stored.
    pub ingredients: Option<String>,
    /// Its steps as a JSON array, when stored.
    pub instructions: Option<String>,
    /// Its picture's URL, when stored.
    pub image: Option<String>,
}

/// The recipe a row holds: missing text columns read as empty, a missing time as 0, and
/// list columns as [`list_column_spec`] says.
pub open spec fn row_recipe_spec(row: RecipeRow) -> (Seq<char>, Seq<char>, i32, Seq<Seq<char>>, Seq<Seq<char>>, Seq<char>) {
    (
        row.url@,
        match row.title {
            Some(t) => t@,
            None => Seq::empty(),
        },
        match row.total_time {
            Some(t) => t,
            None => 0,
        },
        list_column_spec(row.ingredients.deep_view()),
        list_column_spec(row.instructions.deep_view()),
        match row.image {
            Some(i) => i@,
            None => Seq::empty(),
        },
    )
}

fn text_or_empty(column: Option<String>) -> (r: String)
    ensures
        r@ == match column {
            Some(t) => t@,
            None => Seq::<char>::empty(),
        },
{
    match column {
        Some(t) => t,
        None => String::new(),
    }
}

/// The recipe held by a stored row.
pub fn recipe_from_row(row: RecipeRow) -> (r: Recipe)
    ensures
        recipe_view(r) == row_recipe_spec(row),
{
    let ghost spec = row_recipe_spec(row);
    let total_time = match row.total_time {
        Some(t) => t,
        None => 0,
    };
    Recipe {
        url: row.url,
        title: text_or_empty(row.title),
        total_time,
        ingredients: list_column(row.ingredients),
        instructions: list_column(row.instructions),
        image: text_or_empty(row.image),
    }
}

/// The row that stores a scraped recipe, its lists encoded as JSON; `None` when encoding
/// fails, which it does not for lists of strings. Read back with [`recipe_from_row`], the
/// row gives the recipe that was stored.
pub fn recipe_row(recipe: &ScrapedRecipe) -> (r: Option<RecipeRow>)
    ensures
        r matches Some(row) && row_recipe_spec(row) == scraped_view(*recipe),
        match (
            spec_json_encode_strings(views(recipe.ingredients@)),
            spec_json_encode_strings(views(recipe.instructions@)),
        ) {
            (Some(i), Some(s)) => r matches Some(row) && row.url@ == recipe.url@ && row.title
                == Some(recipe.title) && row.total_time == Some(recipe.total_time)
                && row.ingredients.deep_view() == Some(i) && row.instructions.deep_view() == Some(
                s,
            ) && row.image == Some(recipe.image),
            _ => r is None,
        },
{
    assert(recipe.ingredients.deep_view() =~= views(recipe.ingredients@));
    assert(recipe.instructions.deep_view() =~= views(recipe.instructions@));
    let ingredients = json_encode_strings(&recipe.ingredients);
    let instructions = json_encode_strings(&recipe.instructions);
    match (ingredients, instructions) {
        (Some(i), Some(s)) => Some(
            RecipeRow {
                url: recipe.url.clone(),
                title: Some(recipe.title.clone()),
                total_time: Some(recipe.total_time),
                ingredients: Some(i),
                instructions: Some(s),
                image: Some(recipe.image.clone()),
            },
        ),
        _ => None,
    }
}

/// How many jobs of the scrape queue are in each state.
#[derive(Debug, Clone)]
pub struct QueueStats {
    /// Jobs waiting.
    pub pending: i64,
    /// Jobs being scraped.
    pub in_progress: i64,
    /// Jobs scraped.
    pub done: i64,
    /// Jobs that failed.
    pub error: i64,
}

/// The count that `rows` give for `status`: that of the last row with this status, 0 when
/// its count is missing or no row has it.
pub open spec fn count_for(rows: Seq<(Seq<char>, Option<i64>)>, status: Seq<char>) -> i64
    decreases rows.len(),
{
    if rows.len() == 0 {
        0
    } else if rows.last().0 == status {
        match rows.last().1 {
            Some(c) => c,
            None => 0,
        }
    } else {
        count_for(rows.drop_last(), status)
    }
}

/// Each queue count reports the row of its own status: when a row with status `status`
/// stands at `i` and no later row has that status, the count for `status` is that row's
/// count (0 when it has none), whatever the other rows hold.
pub proof fn lemma_count_is_its_rows_count(
    rows: Seq<(Seq<char>, Option<i64>)>,
    status: Seq<char>,
    i: int,
)
    requires
        0 <= i < rows.len(),
        rows[i].0 == status,
        forall|j: int| i < j < rows.len() ==> rows[j].0 != status,
    ensures
        count_for(rows, status) == match rows[i].1 {
            Some(c) => c,
            None => 0,
        },
    decreases rows.len(),
{
    if i < rows.len() - 1 {
        let d = rows.drop_last();
        assert(d[i] == rows[i]);
        assert forall|j: int| i < j < d.len() implies d[j].0 != status by {
            assert(d[j] == rows[j]);
        }
        lemma_count_is_its_rows_count(d, status, i);
    }
}

/// A status that no row holds counts 0.
pub proof fn lemma_count_of_absent_status(rows: Seq<(Seq<char>, Option<i64>)>, status: Seq<char>)
    requires
        forall|j: int| 0 <= j < rows.len() ==> rows[j].0 != status,
    ensures
        count_for(rows, status) == 0,
    decreases rows.len(),
{
    if rows.len() > 0 {
        let d = rows.drop_last();
        assert forall|j: int| 0 <= j < d.len() implies d[j].0 != status by {
            assert(d[j] == rows[j]);
        }
        assert(rows[rows.len() - 1].0 != status);
        lemma_count_of_absent_status(d, status);
    }
}

/// The rows of a per-status count, as views.
pub open spec fn rows_view(rows: Seq<(String, Option<i64>)>) -> Seq<(Seq<char>, Option<i64>)> {
    rows.map_values(|r: (String, Option<i64>)| (r.0@, r.1))
}

/// The queue counts from per-status rows: statuses other than the four known ones are ignored.
pub fn tally_queue_stats(rows: &Vec<(String, Option<i64>)>) -> (r: QueueStats)
    ensures
        r.pending == count_for(rows_view(rows@), "pending"@),
        r.in_progress == count_for(rows_view(rows@), "in_progress"@),
        r.done == count_for(rows_view(rows@), "done"@),
        r.error == count_for(rows_view(rows@), "error"@),
{
    let mut stats = QueueStats { pending: 0, in_progress: 0, done: 0, error: 0 };
    let n = rows.len();
    assert(rows_view(rows@).take(0) =~= Seq::<(Seq<char>, Option<i64>)>::empty());
    for i in 0..n
        invariant
            n == rows@.len(),
            stats.pending == count_for(rows_view(rows@).take(i as int), "pending"@),
            stats.in_progress == count_for(rows_view(rows@).take(i as int), "in_progress"@),
            stats.done == count_for(rows_view(rows@).take(i as int), "done"@),
            stats.error == count_for(rows_view(rows@).take(i as int), "error"@),
    {
        proof {
            reveal_strlit("pending");
            reveal_strlit("in_progress");
            reveal_strlit("done");
            reveal_strlit("error");
        }
        let ghost t = rows_view(rows@).take(i + 1);
        assert(t.drop_last() =~= rows_view(rows@).take(i as int));
        assert(t.last() == (rows@[i as int].0@, rows@[i as int].1));
        let count = match rows[i].1 {
            Some(c) => c,
            None => 0,
        };
        let status = rows[i].0.as_str();
        assert("pending"@.len() == 7 && "in_progress"@.len() == 11);
        assert("done"@.len() == 4 && "error"@.len() == 5);
        if str_eq(status, "pending") {
            stats.pending = count;
        } else if str_eq(status, "in_progress") {
            stats.in_progress = count;
        } else if str_eq(status, "done") {
            stats.done = count;
        } else if str_eq(status, "error") {
            stats.error = count;
        }
    }
    assert(rows_view(rows@).take(n as int) =~= rows_view(rows@));
    stats
}

/// What a new enqueue does: with an existing job, report its status and add nothing;
/// otherwise add the URL and report `pending`.
pub fn enqueue_outcome(existing: Option<String>) -> (r: (String, bool))
    ensures
        match existing {
            Some(s) => r.0@ == s@ && !r.1,
            None => r.0@ == "pending"@ && r.1,
        },
{
    match existing {
        Some(s) => (s, false),
        None => ("pending".to_owned(), true),
    }
}

/// The first at most 500 bytes of an error message, as stored with a failed job.
pub fn error_excerpt(message: &str) -> (r: &str)
    requires
        message.spec_bytes().len() <= usize::MAX,
        message.spec_bytes().len() <= 500 || is_char_boundary(message.spec_bytes(), 500),
    ensures
        r.spec_bytes() == message.spec_bytes().take(
            if message.spec_bytes().len() <= 500 {
                message.spec_bytes().len() as int
            } else {
                500
            },
        ),
{
    let n = message.len();
    if n <= 500 {
        assert(message.spec_bytes() =~= message.spec_bytes().take(n as int));
        message
    } else {
        let (a, _b) = message.split_at(500);
        assert(message.spec_bytes().subrange(0, 500) =~= message.spec_bytes().take(500));
        a
    }
}

/// A search request's window: the limit (20 when missing) held between 1 and 100, and the
/// offset (0 when missing) at least 0.
pub open spec fn window_spec(limit: Option<i32>, offset: Option<i32>) -> (i32, i32) {
    let l = match limit {
        Some(v) => v,
        None => 20,
    };
    let o = match offset {
        Some(v) => v,
        None => 0,
    };
    (if l < 1 {
        1
    } else if l > 100 {
        100
    } else {
        l
    }, if o < 0 {
        0
    } else {
        o
    })
}

/// The limit and offset of a search request.
pub fn search_window(limit: Option<i32>, offset: Option<i32>) -> (r: (i32, i32))
    ensures
        r == window_spec(limit, offset),
{
    let l = match limit {
        Some(v) => v,
        None => 20,
    };
    let o = match offset {
        Some(v) => v,
        None => 0,
    };
    let l = if l < 1 {
        1
    } else if l > 100 {
        100
    } else {
        l
    };
    let o = if o < 0 {
        0
    } else {
        o
    };
    (l, o)
}

/// Only the limit of a search request is held in bounds: a missing limit is 20, and a
/// limit is held between 1 and 100; the offset is kept as given when it is not negative,
/// read as 0 when it is negative or missing, and never capped.
pub proof fn lemma_search_window(limit: Option<i32>, offset: Option<i32>)
    ensures
        window_spec(limit, offset).1 == match offset {
            Some(o) => if o >= 0 {
                o
            } else {
                0
            },
            None => 0,
        },
        1 <= window_spec(limit, offset).0 <= 100,
        limit is None ==> window_spec(limit, offset).0 == 20,
        limit matches Some(l) ==> (1 <= l <= 100 ==> window_spec(limit, offset).0 == l),
        limit matches Some(l) ==> (l < 1 ==> window_spec(limit, offset).0 == 1),
        limit matches Some(l) ==> (l > 100 ==> window_spec(limit, offset).0 == 100),
        forall|o: i32| o >= 0 ==> #[trigger] window_spec(limit, Some(o)).1 == o,
{
}

/// Parameters of the JSON search endpoint.
#[derive(Debug, Clone)]
pub struct SearchParams {
    /// The query.
    pub q: String,
    /// How many hits to return.
    pub limit: Option<i32>,
    /// How many hits to skip.
    pub offset: Option<i32>,
}

/// Why a search request is refused.
#[derive(Debug)]
pub enum QueryError {
    /// The query is blank.
    MissingQuery,
}

impl QueryError {
    /// The message for this error.
    pub fn message(&self) -> (r: &'static str)
        ensures
            r@ == "query parameter 'q' is required"@,
    {
        "query parameter 'q' is required"
    }
}

impl SearchParams {
    /// The trimmed query with the window of [`search_window`]; refused when the query is blank.
    pub fn validated(&self) -> (r: Result<(String, i32, i32), QueryError>)
        ensures
            trim_seq(self.q@).len() == 0 ==> r is Err,
            trim_seq(self.q@).len() > 0 ==> (r matches Ok((q, l, o)) && q@ == trim_seq(self.q@)
                && (l, o) == window_spec(self.limit, self.offset)),
    {
        let q = trim(self.q.as_str());
        if q.as_str().is_empty() {
            return Err(QueryError::MissingQuery);
        }
        let (l, o) = search_window(self.limit, self.offset);
        Ok((q, l, o))
    }
}

/// Parameters of the page and fragment search endpoints.
#[derive(Debug, Clone)]
pub struct SearchQuery {
    /// The query, when given.
    pub q: Option<String>,
    /// How many hits to return.
    pub limit: Option<i32>,
    /// How many hits to skip.
    pub offset: Option<i32>,
}

impl SearchQuery {
    /// The query, trimmed; empty when missing.
    pub fn query(&self) -> (r: String)
        ensures
            r@ == trim_seq(
                match self.q {
                    Some(q) => q@,
                    None => Seq::<char>::empty(),
                },
            ),
    {
        match &self.q {
            Some(q) => trim(q.as_str()),
            None => {
                proof {
                    reveal_strlit("");
                }
                trim("")
            },
        }
    }

    /// The limit and offset, as [`search_window`] gives them.
    pub fn window(&self) -> (r: (i32, i32))
        ensures
            r == window_spec(self.limit, self.offset),
    {
        search_window(self.limit, self.offset)
    }
}

/// The parameter of the recipe lookup endpoints.
#[derive(Debug, Clone)]
pub struct RecipeQuery {
    /// The recipe's page URL.
    pub url: String,
}

/// A request to scrape one page.
#[derive(Debug, Clone)]
pub struct ScrapeRequest {
    /// The page URL.
    pub url: String,
}

/// The recipe page's data.
#[derive(Debug, Clone)]
pub struct RecipeDetailTemplate {
    /// The recipe shown.
    pub recipe: Recipe,
}

} // verus!
