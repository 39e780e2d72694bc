use recipe_book::fetch::is_retryable_status;
use recipe_book::recipe::parse_recipe;
use recipe_scraper::{Extract, Scrape, SchemaOrgEntry};

const RECIPE_HTML: &str = r#"<!DOCTYPE html>
<html>
<head>
<meta property="og:image" content="https://example.com/image.jpg" />
<script type="application/ld+json">
{
  "@context": "https://schema.org",
  "@type": "Recipe",
  "name": "Test Recipe",
  "description": "A test recipe",
  "totalTime": "PT30M",
  "recipeIngredient": ["item1", "item2"],
  "recipeInstructions": "step 1\nstep 2"
}
</script>
</head>
<body></body>
</html>"#;

const RECIPE_HTML_SINGLE_INSTRUCTION: &str = r#"<!DOCTYPE html>
<html>
<head>
<script type="application/ld+json">
{
  "@context": "https://schema.org",
  "@type": "Recipe",
  "name": "Simple Recipe",
  "description": "Simple",
  "totalTime": "PT15M",
  "recipeIngredient": ["salt"],
  "recipeInstructions": "Just do it"
}
</script>
</head>
<body></body>
</html>"#;

const RECIPE_HTML_COMPLEX_INSTRUCTIONS: &str = r#"<!DOCTYPE html>
<html>
<head>
<script type="application/ld+json">
{
  "@context": "https://schema.org",
  "@type": "Recipe",
  "name": "Complex Dish",
  "description": "A complex dish",
  "recipeIngredient": "Single ingredient line",
  "recipeInstructions": [
    {"@type": "HowToStep", "text": "First step"},
    {"@type": "HowToStep", "text": "Second step"}
  ]
}
</script>
</head>
<body></body>
</html>"#;

/// The total time, in whole minutes, of the first schema.org recipe of `html`.
fn total_minutes(html: &str) -> i32 {
    let recipes: Vec<recipe_scraper::SchemaOrgRecipe> = SchemaOrgEntry::scrape_html(html)
        .iter()
        .flat_map(|e| e.extract_recipes())
        .collect();
    recipes
        .first()
        .and_then(|r| r.total_time().as_ref().and_then(|m| m.duration()).copied())
        .map(|d| {
            let minutes = d.hour * 60.0 + d.minute + d.second / 60.0;
            minutes.round() as i32
        })
        .unwrap_or(0)
}

fn parse(html: &str, url: &str) -> Result<recipe_book::recipe::ScrapedRecipe, recipe_book::recipe::RecipeError> {
    parse_recipe(html, url, total_minutes(html))
}

#[test]
fn scraper_test_is_retryable_true() {
    for code in [
        reqwest::StatusCode::TOO_MANY_REQUESTS,
        reqwest::StatusCode::INTERNAL_SERVER_ERROR,
        reqwest::StatusCode::BAD_GATEWAY,
        reqwest::StatusCode::SERVICE_UNAVAILABLE,
        reqwest::StatusCode::GATEWAY_TIMEOUT,
    ] {
        assert!(is_retryable_status(code.as_u16()), "expected {code} to be retryable");
    }
}

#[test]
fn scraper_test_is_retryable_false() {
    for code in [
        reqwest::StatusCode::OK,
        reqwest::StatusCode::NOT_FOUND,
        reqwest::StatusCode::FORBIDDEN,
        reqwest::StatusCode::UNAUTHORIZED,
        reqwest::StatusCode::MOVED_PERMANENTLY,
    ] {
        assert!(
            !is_retryable_status(code.as_u16()),
            "expected {code} to NOT be retryable"
        );
    }
}

#[test]
fn test_parse_recipe_success() {
    let result = parse(RECIPE_HTML, "https://example.com/test");
    assert!(result.is_ok());
    let recipe = result.unwrap();
    assert_eq!(recipe.title, "Test Recipe");
    assert_eq!(recipe.total_time, 30);
    assert_eq!(recipe.ingredients, vec!["item1", "item2"]);
    assert_eq!(recipe.instructions, vec!["step 1", "step 2"]);
    assert_eq!(recipe.image, "https://example.com/image.jpg");
}

#[test]
fn test_parse_recipe_no_ld_json() {
    let result = parse("<html></html>", "https://example.com/nope");
    assert!(result.is_err());
    assert!(result.unwrap_err().message().contains("no recipe found"));
}

#[test]
fn test_parse_recipe_single_instruction() {
    let result = parse(RECIPE_HTML_SINGLE_INSTRUCTION, "https://example.com/simple");
    assert!(result.is_ok());
    let recipe = result.unwrap();
    assert_eq!(recipe.title, "Simple Recipe");
    assert_eq!(recipe.total_time, 15);
    assert_eq!(recipe.ingredients, vec!["salt"]);
    assert_eq!(recipe.instructions, vec!["Just do it"]);
    assert_eq!(recipe.image, "");
}

#[test]
fn test_parse_recipe_no_image() {
    let result = parse(RECIPE_HTML_SINGLE_INSTRUCTION, "https://example.com/noimg");
    assert!(result.is_ok());
    let recipe = result.unwrap();
    assert_eq!(recipe.image, "");
}

#[test]
fn test_parse_recipe_complex_instructions() {
    let result = parse(
        RECIPE_HTML_COMPLEX_INSTRUCTIONS,
        "https://example.com/complex",
    );
    assert!(result.is_ok());
    let recipe = result.unwrap();
    assert_eq!(recipe.title, "Complex Dish");
    assert_eq!(recipe.instructions, vec!["First step", "Second step"]);
}

#[test]
fn parse_recipe_keeps_url_and_given_time() {
    let recipe = parse_recipe(RECIPE_HTML, "https://example.com/x", 42).unwrap();
    assert_eq!(recipe.url, "https://example.com/x");
    assert_eq!(recipe.total_time, 42);
    assert_eq!(recipe.ingredients, vec!["item1", "item2"]);
}

#[test]
fn parse_recipe_single_ingredient_line() {
    let recipe = parse(RECIPE_HTML_COMPLEX_INSTRUCTIONS, "https://example.com/complex").unwrap();
    assert_eq!(recipe.ingredients, vec!["Single ingredient line"]);
    assert_eq!(recipe.total_time, 0);
}
