use recipe_book::models::QueueStats;
use recipe_book::service::{
    queue_status_response, recipe_to_proto, scrape_job_url, search_request, RecipeResponse,
    ServiceError,
};

fn sample_recipe() -> RecipeResponse {
    RecipeResponse {
        url: "https://example.com/test".to_string(),
        title: "Test Dish".to_string(),
        total_time: 45,
        ingredients: vec!["a".to_string(), "b".to_string()],
        instructions: vec!["step 1".to_string(), "step 2".to_string()],
        image: "https://img.example.com/test.jpg".to_string(),
    }
}

#[test]
fn test_recipe_to_proto_converts_fields() {
    let r = sample_recipe();
    let proto = recipe_to_proto(r);

    assert_eq!(proto.url, "https://example.com/test");
    assert_eq!(proto.title, "Test Dish");
    assert_eq!(proto.total_time, 45);
    let ings: Vec<&str> = proto.ingredients.iter().map(|s| s.as_str()).collect();
    assert_eq!(ings, vec!["a", "b"]);
    let insts: Vec<&str> = proto.instructions.iter().map(|s| s.as_str()).collect();
    assert_eq!(insts, vec!["step 1", "step 2"]);
    assert_eq!(proto.image, "https://img.example.com/test.jpg");
}

#[test]
fn test_recipe_to_proto_defaults_empty() {
    let r = RecipeResponse {
        url: "https://example.com/minimal".to_string(),
        title: String::new(),
        total_time: 0,
        ingredients: vec![],
        instructions: vec![],
        image: String::new(),
    };
    let proto = recipe_to_proto(r);

    assert_eq!(proto.url, "https://example.com/minimal");
    assert_eq!(proto.title, "");
    assert_eq!(proto.total_time, 0);
    assert!(proto.ingredients.is_empty());
    assert!(proto.instructions.is_empty());
    assert_eq!(proto.image, "");
}

#[test]
fn scrape_job_url_is_trimmed_and_required() {
    assert_eq!(scrape_job_url("  https://example.com/r  ").unwrap(), "https://example.com/r");
    let err = scrape_job_url(" \t ").unwrap_err();
    assert!(matches!(err, ServiceError::UrlRequired));
    assert_eq!(err.message(), "url is required");
}

#[test]
fn search_request_defaults_limit() {
    assert_eq!(search_request(" pasta ", 0).unwrap(), ("pasta".to_string(), 20));
    assert_eq!(search_request("pasta", -3).unwrap(), ("pasta".to_string(), 20));
    assert_eq!(search_request("pasta", 7).unwrap(), ("pasta".to_string(), 7));
    let err = search_request("   ", 5).unwrap_err();
    assert_eq!(err.message(), "query is required");
}

#[test]
fn queue_status_response_truncates_counts() {
    let stats = QueueStats { pending: 3, in_progress: 1, done: 5_000_000_000, error: -2 };
    let r = queue_status_response(&stats);
    assert_eq!(r.pending, 3);
    assert_eq!(r.in_progress, 1);
    assert_eq!(r.done, 5_000_000_000i64 as i32);
    assert_eq!(r.error, -2);
}
