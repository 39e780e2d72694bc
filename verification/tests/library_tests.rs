use recipe_book::encode::{html_escape, urlencode};
use recipe_book::fetch::{
    backoff_ms, crawler_retry_policy, jitter_delay, next_user_agent, page_referer, retry_after_secs,
    scraper_retry_policy, sitemap_request_delay, FetchAction, FetchError, FetchOutcome,
    FetchRetry,
};
use recipe_book::frontier::{report_fresh, FrontierStep, PageCrawl, SitemapFrontier, StringSet};
use recipe_book::links::extract_page_links;
use recipe_book::models::{
    enqueue_outcome, error_excerpt, recipe_from_row, recipe_row, search_window, tally_queue_stats,
    RecipeRow, SearchParams, SearchQuery,
};
use recipe_book::proxy::{parse_proxy_list, ProxyPool};
use recipe_book::rate_limit::DomainRateLimiter;
use recipe_book::recipe::{recipe_from_parts, split_instructions, RecipeFields, ScrapedRecipe};
use recipe_book::search::{page_bounds, plan_search, rank_order_indices, sql_placeholders};
use recipe_book::sitemap::{sitemap_from_events, XmlEvent};
use recipe_book::sites::{all_sites, allrecipes_pages, serious_eats, UrlRule};
use recipe_book::text::{
    contains, join, parse_u64, split_on, split_words, starts_with, strip_leading, trim,
};
use recipe_book::urls::{domain_of, referer_for, resolve_url_with};

fn strings(items: &[&str]) -> Vec<String> {
    items.iter().map(|s| s.to_string()).collect()
}

#[test]
fn text_helpers_follow_std() {
    assert!(contains("https://a.com/recipe/1", "/recipe/"));
    assert!(contains("abc", ""));
    assert!(!contains("ab", "abc"));
    assert!(starts_with("https://x", "http"));
    assert!(!starts_with("ftp://x", "http"));
    assert_eq!(trim("  \t hello world \n"), "hello world");
    assert_eq!(trim("\u{3000}x\u{a0}"), "x");
    assert_eq!(trim("   "), "");
    assert_eq!(strip_leading("//a/b", '/'), "a/b");
    assert_eq!(split_on("a\nb\n", '\n'), strings(&["a", "b", ""]));
    assert_eq!(split_on("", ','), strings(&[""]));
    assert_eq!(split_words("  chicken  noodle soup "), strings(&["chicken", "noodle", "soup"]));
    assert!(split_words(" \t ").is_empty());
    assert_eq!(join(&strings(&["a", "b", "c"]), " "), "a b c");
    assert_eq!(join(&strings(&[]), " "), "");
}

#[test]
fn parse_u64_matches_std() {
    for s in ["0", "5", "+7", "18446744073709551615", "18446744073709551616", "", "+", "-1", "1a", " 1", "007"] {
        assert_eq!(parse_u64(s), s.parse::<u64>().ok(), "input {s:?}");
    }
}

#[test]
fn retry_after_defaults_to_five() {
    assert_eq!(retry_after_secs(&None), 5);
    assert_eq!(retry_after_secs(&Some("12".to_string())), 12);
    assert_eq!(retry_after_secs(&Some("soon".to_string())), 5);
}

#[test]
fn backoff_doubles_up_to_limit() {
    let p = crawler_retry_policy();
    assert_eq!(backoff_ms(&p, 0), 1000);
    assert_eq!(backoff_ms(&p, 1), 2000);
    assert_eq!(backoff_ms(&p, 4), 16000);
    assert_eq!(backoff_ms(&p, 5), 30000);
    assert_eq!(backoff_ms(&p, 60), 30000);
}

#[test]
fn fetch_delivers_on_success() {
    let mut f = FetchRetry::new(crawler_retry_policy());
    let a = f.step(&FetchOutcome::Status { code: 200, retry_after: None }, 0);
    assert!(matches!(a, FetchAction::Deliver));
}

#[test]
fn fetch_bails_on_404() {
    let mut f = FetchRetry::new(crawler_retry_policy());
    let a = f.step(&FetchOutcome::Status { code: 404, retry_after: None }, 0);
    assert!(matches!(a, FetchAction::Fail(FetchError::Http(404))));
}

#[test]
fn fetch_retries_500_then_succeeds() {
    let mut f = FetchRetry::new(crawler_retry_policy());
    let a = f.step(&FetchOutcome::Status { code: 500, retry_after: None }, 0);
    assert!(matches!(a, FetchAction::Retry { wait_ms: 1000 }));
    let a = f.step(&FetchOutcome::Status { code: 200, retry_after: None }, 0);
    assert!(matches!(a, FetchAction::Deliver));
}

#[test]
fn fetch_gives_up_after_retries() {
    let mut f = FetchRetry::new(crawler_retry_policy());
    let mut sends = 1;
    loop {
        match f.step(&FetchOutcome::Transport, 0) {
            FetchAction::Retry { .. } => sends += 1,
            FetchAction::Fail(e) => {
                assert_eq!(e, FetchError::Transport);
                break;
            }
            _ => panic!("unexpected action"),
        }
    }
    assert_eq!(sends, 3);
}

#[test]
fn fetch_429_waits_retry_after_and_fails_at_the_end() {
    let mut f = FetchRetry::new(crawler_retry_policy());
    let out = FetchOutcome::Status { code: 429, retry_after: Some("0".to_string()) };
    assert!(matches!(f.step(&out, 0), FetchAction::Retry { wait_ms: 0 }));
    assert!(matches!(f.step(&out, 0), FetchAction::Retry { wait_ms: 0 }));
    assert!(matches!(
        f.step(&out, 0),
        FetchAction::WaitThenFail { wait_ms: 0, error: FetchError::Http(429) }
    ));
}

#[test]
fn scraper_policy_adds_jitter() {
    let mut f = FetchRetry::new(scraper_retry_policy());
    assert_eq!(f.jitter_bound(), 100);
    let a = f.step(&FetchOutcome::Status { code: 503, retry_after: None }, 42);
    assert!(matches!(a, FetchAction::Retry { wait_ms: 1042 }));
    let a = f.step_random(&FetchOutcome::Transport);
    match a {
        FetchAction::Retry { wait_ms } => assert!((2000..2200).contains(&wait_ms)),
        _ => panic!("expected a retry"),
    }
}

#[test]
fn user_agents_rotate() {
    assert!(next_user_agent(0).contains("Windows"));
    assert_eq!(next_user_agent(1), next_user_agent(6));
    assert!(next_user_agent(4).contains("Linux"));
    assert_ne!(next_user_agent(0), next_user_agent(1));
}

#[test]
fn sitemap_delay_paces_requests() {
    assert_eq!(sitemap_request_delay(None, 10_000, 500), 0);
    assert_eq!(sitemap_request_delay(Some(9_000), 10_000, 500), 2_500);
    assert_eq!(sitemap_request_delay(Some(6_000), 10_000, 500), 0);
    assert_eq!(jitter_delay(100, 1000), 1100);
}

#[test]
fn rate_limiter_spaces_requests_per_domain() {
    let mut limiter = DomainRateLimiter::new(2000);
    let (domain, wait) = limiter.wait_if_needed("https://www.example.com/a", 1_000).unwrap();
    assert_eq!(domain, "www.example.com");
    assert_eq!(wait, 0);
    limiter.record(domain, 1_000);
    assert_eq!(limiter.last_request("www.example.com"), Some(1_000));
    let (_, wait) = limiter.wait_if_needed("https://www.example.com/b", 1_500).unwrap();
    assert_eq!(wait, 1_500);
    let (_, wait) = limiter.wait_if_needed("https://other.org/b", 1_500).unwrap();
    assert_eq!(wait, 0);
    let (_, wait) = limiter.wait_if_needed("https://www.example.com/c", 5_000).unwrap();
    assert_eq!(wait, 0);
    assert!(limiter.wait_if_needed("not a url", 5_000).is_none());
    limiter.record("www.example.com".to_string(), 9_000);
    assert_eq!(limiter.last_request("www.example.com"), Some(9_000));
}

#[test]
fn urls_host_and_referer() {
    assert_eq!(domain_of("https://food52.com/recipes/1").unwrap(), "food52.com");
    assert!(domain_of("nope").is_none());
    assert_eq!(referer_for("https://food52.com/recipes/1").unwrap(), "https://food52.com/");
    assert_eq!(resolve_url_with("a/b", "https://x.com/", None), "https://x.com/a/b");
    assert_eq!(
        resolve_url_with("/a", "https://x.com", Some("https://x.com/p/a".to_string())),
        "https://x.com/p/a"
    );
}

#[test]
fn proxy_list_parsing() {
    assert_eq!(
        parse_proxy_list(Some(" http://a:1 , ,http://b:2".to_string()), Some("http://c".to_string())),
        Some(strings(&["http://a:1", "http://b:2"]))
    );
    assert_eq!(parse_proxy_list(Some(String::new()), Some("http://c".to_string())), Some(strings(&["http://c"])));
    assert_eq!(parse_proxy_list(Some(" , ".to_string()), Some("http://c".to_string())), None);
    assert_eq!(parse_proxy_list(None, Some(String::new())), None);
    assert_eq!(parse_proxy_list(None, None), None);
}

#[test]
fn proxy_pool_picks_members() {
    assert!(ProxyPool::<u8>::new(vec![]).is_none());
    let pool = ProxyPool::new(vec![10u8, 20, 30]).unwrap();
    assert_eq!(pool.pick(4), Some(&20));
    for _ in 0..20 {
        let p = *pool.next().unwrap();
        assert!(p == 10 || p == 20 || p == 30);
    }
}

#[test]
fn string_set_and_fresh_reports() {
    let mut seen = StringSet::new();
    assert!(seen.insert("a".to_string()));
    assert!(!seen.insert("a".to_string()));
    let out = report_fresh(&mut seen, strings(&["a", "b", "c", "b"]));
    assert_eq!(out, strings(&["b", "c"]));
    assert!(seen.contains("c"));
    let out = report_fresh(&mut seen, strings(&["c", "d"]));
    assert_eq!(out, strings(&["d"]));
}

#[test]
fn page_crawl_visits_each_page_once() {
    let mut crawl = PageCrawl::new(strings(&["p1", "p2"]));
    assert_eq!(crawl.next_page().unwrap(), "p2");
    let fresh = crawl.absorb_page(strings(&["r1", "r2"]), strings(&["p2", "p3"]));
    assert_eq!(fresh, strings(&["r1", "r2"]));
    assert_eq!(crawl.next_page().unwrap(), "p3");
    let fresh = crawl.absorb_page(strings(&["r2", "r3"]), strings(&[]));
    assert_eq!(fresh, strings(&["r3"]));
    assert_eq!(crawl.next_page().unwrap(), "p1");
    assert!(crawl.next_page().is_none());
}

#[test]
fn sitemap_frontier_waits_for_running_fetches() {
    let mut f = SitemapFrontier::new(strings(&["root"]));
    match f.next() {
        FrontierStep::Fetch(u) => assert_eq!(u, "root"),
        _ => panic!("expected a fetch"),
    }
    assert!(matches!(f.next(), FrontierStep::Wait));
    f.finish(strings(&["s1", "s2", "s1"]));
    assert_eq!(f.queue, strings(&["s1", "s2"]));
    assert!(matches!(f.next(), FrontierStep::Fetch(_)));
    assert!(matches!(f.next(), FrontierStep::Fetch(_)));
    f.finish(strings(&["s1"]));
    f.finish(vec![]);
    assert!(matches!(f.next(), FrontierStep::Done));
}

#[test]
fn sitemap_events_fold() {
    let events = vec![
        XmlEvent::Start(b"{ns}url".to_vec()),
        XmlEvent::Start(b"loc".to_vec()),
        XmlEvent::Text(Some("https://example.com/recipe/a".to_string())),
        XmlEvent::End(b"loc".to_vec()),
        XmlEvent::End(b"url".to_vec()),
        XmlEvent::Start(b"url".to_vec()),
        XmlEvent::Start(b"loc".to_vec()),
        XmlEvent::Text(Some("https://example.com/about".to_string())),
        XmlEvent::End(b"loc".to_vec()),
        XmlEvent::End(b"url".to_vec()),
        XmlEvent::Eof,
        XmlEvent::Start(b"loc".to_vec()),
    ];
    let (maps, recipes) = sitemap_from_events(&events, &UrlRule::containing("/recipe/")).unwrap();
    assert!(maps.is_empty());
    assert_eq!(recipes, strings(&["https://example.com/recipe/a"]));
    let bad = vec![XmlEvent::Start(b"loc".to_vec()), XmlEvent::Text(None)];
    assert!(sitemap_from_events(&bad, &UrlRule::accept_all()).is_err());
    let outside = vec![XmlEvent::Text(None), XmlEvent::Eof];
    assert!(sitemap_from_events(&outside, &UrlRule::accept_all()).is_ok());
}

#[test]
fn sitemap_with_bad_escape_is_refused() {
    let xml = "<urlset><url><loc>https://a.com/&bogus;</loc></url></urlset>";
    assert!(recipe_book::sitemap::parse_sitemap(xml, &UrlRule::accept_all()).is_err());
}

#[test]
fn page_links_are_resolved_and_filtered() {
    let site = allrecipes_pages();
    let html = r#"<html><body>
        <a href="/recipe/1/">one</a>
        <a href="https://www.allrecipes.com/recipe/2/#c">two</a>
        <a href="/photo/recipe/3/">photo</a>
        <a rel="next" href="?page=2">next</a>
    </body></html>"#;
    let (recipes, next) =
        extract_page_links(&site, "https://www.allrecipes.com/recipes/", html).unwrap();
    assert_eq!(recipes, strings(&["https://www.allrecipes.com/recipe/1/"]));
    assert_eq!(next, strings(&["https://www.allrecipes.com/recipes/?page=2"]));
}

#[test]
fn sites_are_all_sitemap_crawled() {
    let sites = all_sites();
    assert_eq!(sites.len(), 14);
    assert!(sites.iter().all(|s| s.use_sitemap));
    assert_eq!(sites[0].seed_urls(), strings(&["https://www.allrecipes.com/sitemap.xml"]));
    assert!(serious_eats().is_recipe_url("https://www.seriouseats.com/anything#x"));
    assert_eq!(allrecipes_pages().seed_paths.len(), 16);
}

#[test]
fn instructions_split_on_line_breaks() {
    assert_eq!(split_instructions(None), Vec::<String>::new());
    assert_eq!(split_instructions(Some(strings(&["a\nb"]))), strings(&["a", "b"]));
    assert_eq!(split_instructions(Some(strings(&["a\nb", "c"]))), strings(&["a\nb", "c"]));
    assert_eq!(split_instructions(Some(strings(&["one"]))), strings(&["one"]));
}

#[test]
fn recipe_from_parts_takes_first_recipe() {
    let first = RecipeFields {
        name: "First".to_string(),
        ingredients: strings(&["x"]),
        directions: Some(strings(&["do\nit"])),
    };
    let second = RecipeFields { name: "Second".to_string(), ingredients: vec![], directions: None };
    let r = recipe_from_parts(
        "https://u",
        vec![vec![], vec![first, second]],
        12,
        Some(vec![None, Some("img".to_string())]),
    )
    .unwrap();
    assert_eq!(r.title, "First");
    assert_eq!(r.instructions, strings(&["do", "it"]));
    assert_eq!(r.image, "");
    assert_eq!(r.total_time, 12);
    assert!(recipe_from_parts("https://u", vec![vec![]], 0, None).is_err());
}

#[test]
fn stored_recipes_round_trip() {
    let recipe = ScrapedRecipe {
        url: "https://example.com/test".to_string(),
        title: "Test Recipe".to_string(),
        total_time: 30,
        ingredients: strings(&["item1", "item \"2\""]),
        instructions: strings(&["step 1", "step 2"]),
        image: String::new(),
    };
    let row = recipe_row(&recipe).unwrap();
    assert_eq!(row.ingredients.as_deref(), Some(r#"["item1","item \"2\""]"#));
    let back = recipe_from_row(row);
    assert_eq!(back.title, "Test Recipe");
    assert_eq!(back.total_time, 30);
    assert_eq!(back.ingredients, recipe.ingredients);
    assert_eq!(back.instructions, recipe.instructions);
}

#[test]
fn stored_lists_with_escapes_round_trip() {
    let recipe = ScrapedRecipe {
        url: "https://example.com/esc".to_string(),
        title: "Crème brûlée".to_string(),
        total_time: 0,
        ingredients: strings(&["tab\there", "line\nbreak", "back\\slash", "snow ☃", "\u{1}"]),
        instructions: Vec::new(),
        image: "https://example.com/i.jpg".to_string(),
    };
    let row = recipe_row(&recipe).unwrap();
    let back = recipe_from_row(row);
    assert_eq!(back.url, recipe.url);
    assert_eq!(back.title, recipe.title);
    assert_eq!(back.ingredients, recipe.ingredients);
    assert!(back.instructions.is_empty());
    assert_eq!(back.image, recipe.image);
}

#[test]
fn rows_with_missing_columns_read_as_empty() {
    let row = RecipeRow {
        url: "https://example.com/x".to_string(),
        title: None,
        total_time: None,
        ingredients: Some("not json".to_string()),
        instructions: None,
        image: None,
    };
    let r = recipe_from_row(row);
    assert_eq!(r.title, "");
    assert_eq!(r.total_time, 0);
    assert!(r.ingredients.is_empty());
    assert!(r.instructions.is_empty());
}

#[test]
fn queue_counts_by_status() {
    let rows = vec![
        ("pending".to_string(), Some(2)),
        ("error".to_string(), Some(1)),
        ("other".to_string(), Some(9)),
        ("done".to_string(), None),
    ];
    let stats = tally_queue_stats(&rows);
    assert_eq!(stats.pending, 2);
    assert_eq!(stats.in_progress, 0);
    assert_eq!(stats.error, 1);
    assert_eq!(stats.done, 0);
}

#[test]
fn enqueue_keeps_existing_status() {
    assert_eq!(enqueue_outcome(Some("done".to_string())), ("done".to_string(), false));
    assert_eq!(enqueue_outcome(None), ("pending".to_string(), true));
}

#[test]
fn error_messages_are_cut_at_500_bytes() {
    let long = "x".repeat(1000);
    assert_eq!(error_excerpt(&long).len(), 500);
    assert_eq!(error_excerpt("something broke"), "something broke");
}

#[test]
fn search_windows_are_clamped() {
    assert_eq!(search_window(None, None), (20, 0));
    assert_eq!(search_window(Some(0), Some(-5)), (1, 0));
    assert_eq!(search_window(Some(500), Some(40)), (100, 40));
    let p = SearchParams { q: "  soup ".to_string(), limit: Some(10), offset: None };
    assert_eq!(p.validated().unwrap(), ("soup".to_string(), 10, 0));
    let p = SearchParams { q: "   ".to_string(), limit: None, offset: None };
    assert!(p.validated().is_err());
    let q = SearchQuery { q: None, limit: Some(3), offset: Some(2) };
    assert_eq!(q.query(), "");
    assert_eq!(q.window(), (3, 2));
}

#[test]
fn search_plans_follow_word_count() {
    assert!(plan_search("a", 10, 0).is_none());
    let p = plan_search("chicken soup", 10, 5).unwrap();
    assert_eq!(p.words, strings(&["chicken", "soup"]));
    assert!(p.phrase_boost);
    assert!(!p.require_all_words);
    assert_eq!(p.fetch_count, 15);
    let p = plan_search("quick chicken noodle soup", -1, -1).unwrap();
    assert!(p.require_all_words);
    assert_eq!((p.limit, p.offset, p.fetch_count), (0, 0, 0));
    assert_eq!(p.boosted_publications, strings(&["Bon Appétit", "NYT Cooking", "Epicurious"]));
    assert_eq!(page_bounds(10, 3, 4), (3, 7));
    assert_eq!(page_bounds(10, 8, 4), (8, 10));
    assert_eq!(page_bounds(10, 12, 4), (10, 10));
}

#[test]
fn urls_are_form_encoded() {
    assert_eq!(urlencode("https://a.com/r?x=1&y=2"), "https%3A%2F%2Fa.com%2Fr%3Fx%3D1%26y%3D2");
    assert_eq!(urlencode("a b*-._~"), "a+b*-._%7E");
    assert_eq!(urlencode("é"), "%C3%A9");
}

#[test]
fn text_is_escaped_for_html() {
    assert_eq!(html_escape("Mac & \"Cheese\" <b>it's</b>"), "Mac &amp; &quot;Cheese&quot; &lt;b&gt;it&#x27;s&lt;/b&gt;");
    assert_eq!(html_escape("crème brûlée"), "crème brûlée");
    assert_eq!(html_escape(""), "");
}

#[test]
fn placeholders_number_the_bound_values() {
    assert_eq!(sql_placeholders(0), "");
    assert_eq!(sql_placeholders(1), "$1");
    assert_eq!(sql_placeholders(3), "$1, $2, $3");
    let many = sql_placeholders(12);
    assert!(many.ends_with("$9, $10, $11, $12"));
}

#[test]
fn sitemap_crawl_fetches_every_reachable_sitemap() {
    let mut f = SitemapFrontier::new(strings(&["root"]));
    let mut fetched: Vec<String> = Vec::new();
    let links = |u: &str| -> Vec<String> {
        match u {
            "root" => strings(&["a", "b"]),
            "a" => strings(&["b", "c"]),
            "b" => strings(&["a", "c", "root"]),
            _ => Vec::new(),
        }
    };
    loop {
        match f.next() {
            FrontierStep::Fetch(u) => {
                let found = links(&u);
                fetched.push(u);
                f.finish(found);
            }
            FrontierStep::Wait => panic!("nothing is running"),
            FrontierStep::Done => break,
        }
    }
    let mut sorted = fetched.clone();
    sorted.sort();
    assert_eq!(sorted, strings(&["a", "b", "c", "root", "root"]));
}

#[test]
fn page_requests_need_a_parsable_url() {
    assert_eq!(
        page_referer("https://www.allrecipes.com/recipe/1/x/").unwrap(),
        "https://www.allrecipes.com/"
    );
    assert_eq!(page_referer("not a url"), Err(FetchError::InvalidUrl));
}

#[test]
fn search_hits_follow_rank_order() {
    let ranked = strings(&["c", "a", "x", "b"]);
    let found = strings(&["a", "b", "c", "a"]);
    assert_eq!(rank_order_indices(&ranked, &found), vec![2, 0, 1]);
    assert!(rank_order_indices(&strings(&[]), &found).is_empty());
}
