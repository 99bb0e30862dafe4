use shortlink::error::EngineError;
use shortlink::model::{CreateLinkRequest, Link, LinkClickTracking};
use shortlink::request::RequestMetadata;
use shortlink::state::MAX_CLICK_EVENTS;
use shortlink::store::LinkStore;

fn visitor(addr: Option<&str>, agent: Option<&str>) -> RequestMetadata {
    RequestMetadata {
        remote_addr: addr.map(|s| s.to_string()),
        user_agent: agent.map(|s| s.to_string()),
    }
}

fn request(slug: &str, target: &str, expires_in_secs: Option<u64>) -> CreateLinkRequest {
    CreateLinkRequest {
        slug: slug.to_string(),
        target_url: target.to_string(),
        expires_in_secs,
    }
}

fn sample_store() -> LinkStore {
    let mut store = LinkStore::new("https://sho.rt/");
    store
        .create("docs".to_string(), "https://example.org/docs".to_string(), None, 1_000)
        .unwrap();
    store
        .create("news".to_string(), "https://example.org/news".to_string(), Some(5_000), 1_100)
        .unwrap();
    store
}

fn is_generated(slug: &str) -> bool {
    slug.chars().count() == 4 && slug.chars().all(|c| c.is_ascii_digit() || c.is_ascii_lowercase())
}

#[test]
fn create_returns_the_stored_link() {
    let mut store = LinkStore::new("https://sho.rt");
    let link = store
        .create("docs".to_string(), "https://example.org/docs".to_string(), Some(42), 7)
        .unwrap();
    assert_eq!(
        link,
        Link {
            slug: "docs".to_string(),
            target_url: "https://example.org/docs".to_string(),
            created_at: 7,
            updated_at: 7,
            expires_at: Some(42),
            clicks: 0,
            shortened_url: Some("https://sho.rt/docs".to_string()),
        }
    );
    assert!(store.contains_slug("docs"));
    assert!(!store.contains_slug("doc"));
    assert!(!store.contains_slug(""));
}

#[test]
fn trailing_slashes_of_the_base_address_are_dropped() {
    let mut store = LinkStore::new("https://sho.rt///");
    let link = store.create("a".to_string(), "https://example.org".to_string(), None, 1).unwrap();
    assert_eq!(link.shortened_url, Some("https://sho.rt/a".to_string()));

    let mut bare = LinkStore::new("https://sho.rt");
    let link = bare.create("a".to_string(), "https://example.org".to_string(), None, 1).unwrap();
    assert_eq!(link.shortened_url, Some("https://sho.rt/a".to_string()));

    let mut inner = LinkStore::new("https://sho.rt/go/");
    let link = inner.create("a".to_string(), "https://example.org".to_string(), None, 1).unwrap();
    assert_eq!(link.shortened_url, Some("https://sho.rt/go/a".to_string()));

    let mut empty = LinkStore::new("/");
    let link = empty.create("a".to_string(), "https://example.org".to_string(), None, 1).unwrap();
    assert_eq!(link.shortened_url, Some("/a".to_string()));
}

#[test]
fn create_with_taken_slug_is_a_conflict_and_changes_nothing() {
    let mut store = sample_store();
    store.resolve("docs", &visitor(None, None), 1_500).unwrap();
    let links = store.list();
    let events = store.clicks_for("docs").unwrap();
    let outcome = store.create("docs".to_string(), "https://other.example".to_string(), None, 2_000);
    assert_eq!(outcome, Err(EngineError::Conflict));
    assert_eq!(store.list(), links);
    assert_eq!(store.clicks_for("docs").unwrap(), events);
    assert_eq!(store.get("docs").unwrap().target_url, "https://example.org/docs");

    let outcome = store.create_link(request("news", "https://other.example", Some(1)), 2_000, 8);
    assert_eq!(outcome, Err(EngineError::Conflict));
    assert_eq!(store.list(), links);
}

#[test]
fn create_link_generates_a_slug_when_none_is_given() {
    let mut store = sample_store();
    let link = store.create_link(request("", "https://example.org", None), 3_000, 16).unwrap();
    assert!(is_generated(&link.slug));
    assert_ne!(link.slug, "docs");
    assert_ne!(link.slug, "news");
    assert_eq!(link.clicks, 0);
    assert_eq!(link.expires_at, None);
    assert_eq!(link.created_at, 3_000);
    assert_eq!(link.updated_at, 3_000);
    assert_eq!(link.target_url, "https://example.org");
    assert_eq!(link.shortened_url, Some(format!("https://sho.rt/{}", link.slug)));
    assert_eq!(store.get(&link.slug).unwrap(), link);
    assert_eq!(store.list().len(), 3);
}

#[test]
fn generated_slugs_are_unique_among_many() {
    let mut store = LinkStore::new("https://sho.rt");
    let mut seen: Vec<String> = Vec::new();
    for n in 0..200 {
        let link = store.create_link(request("", "https://example.org", None), n, 64).unwrap();
        assert!(is_generated(&link.slug));
        assert!(!seen.contains(&link.slug));
        seen.push(link.slug);
    }
    assert_eq!(store.list().len(), 200);
}

#[test]
fn generate_unique_slug_gives_a_free_slug() {
    let store = sample_store();
    let slug = store.generate_unique_slug(4).unwrap();
    assert!(is_generated(&slug));
    assert!(!store.contains_slug(&slug));
    assert_eq!(store.list().len(), 2);
}

#[test]
fn an_empty_retry_budget_exhausts_generation() {
    let mut store = sample_store();
    assert_eq!(store.generate_unique_slug(0), Err(EngineError::ExhaustedGeneration));
    let before = store.list();
    let outcome = store.create_link(request("", "https://example.org", None), 3_000, 0);
    assert_eq!(outcome, Err(EngineError::ExhaustedGeneration));
    assert_eq!(store.list(), before);
}

#[test]
fn a_given_slug_is_used_as_it_is() {
    let mut store = LinkStore::new("https://sho.rt");
    let link = store.create_link(request("My-Slug/x", "https://example.org", None), 10, 0).unwrap();
    assert_eq!(link.slug, "My-Slug/x");
    assert_eq!(link.shortened_url, Some("https://sho.rt/My-Slug/x".to_string()));
}

#[test]
fn expiry_is_creation_time_plus_lifetime() {
    let mut store = LinkStore::new("https://sho.rt");
    let a = store.create_link(request("a", "https://example.org", Some(3_600)), 1_000, 1).unwrap();
    assert_eq!(a.expires_at, Some(4_600));
    let b = store.create_link(request("b", "https://example.org", Some(0)), 1_000, 1).unwrap();
    assert_eq!(b.expires_at, Some(1_000));
    let c = store.create_link(request("c", "https://example.org", None), 1_000, 1).unwrap();
    assert_eq!(c.expires_at, None);
    let d = store
        .create_link(request("d", "https://example.org", Some(i64::MAX as u64 + 3)), -5, 1)
        .unwrap();
    assert_eq!(d.expires_at, Some(i64::MAX - 2));
    let e = store.create_link(request("e", "https://example.org", Some(10)), -100, 1).unwrap();
    assert_eq!(e.expires_at, Some(-90));
}

#[test]
fn requests_that_cannot_be_accepted_are_refused() {
    let mut store = sample_store();
    let before = store.list();
    assert_eq!(
        store.create_link(request("x", "", None), 1, 4),
        Err(EngineError::ValidationError)
    );
    assert_eq!(
        store.create_link(request("", "", Some(5)), 1, 4),
        Err(EngineError::ValidationError)
    );
    assert_eq!(
        store.create_link(request("x", "https://example.org", Some(u64::MAX)), 1, 4),
        Err(EngineError::ValidationError)
    );
    assert_eq!(
        store.create_link(request("x", "https://example.org", Some(1)), i64::MAX, 4),
        Err(EngineError::ValidationError)
    );
    assert_eq!(
        store.create_link(request("docs", "", None), 1, 4),
        Err(EngineError::ValidationError)
    );
    assert_eq!(store.list(), before);
    let link = store.create_link(request("x", "https://example.org", Some(0)), i64::MAX, 4).unwrap();
    assert_eq!(link.expires_at, Some(i64::MAX));
}

#[test]
fn resolve_returns_the_target_and_records_one_click() {
    let mut store = sample_store();
    let redirect = store
        .resolve("docs", &visitor(Some("203.0.113.9"), Some("Mozilla/5.0")), 1_234)
        .unwrap();
    assert_eq!(redirect.status, 307);
    assert_eq!(redirect.location, "https://example.org/docs");
    assert_eq!(redirect.referrer_policy, "no-referrer");
    assert_eq!(store.get("docs").unwrap().clicks, 1);
    assert_eq!(store.get("news").unwrap().clicks, 0);
    assert_eq!(
        store.clicks_for("docs").unwrap(),
        vec![LinkClickTracking {
            slug: "docs".to_string(),
            datetime: Some(1_234),
            client_ip_address: "203.0.113.9".to_string(),
            client_browser: "Mozilla/5.0".to_string(),
            expires_at: None,
        }]
    );
    assert!(store.clicks_for("docs").unwrap()[0].datetime.unwrap() >= 1_234);
}

#[test]
fn a_click_carries_the_expiry_of_its_link() {
    let mut store = sample_store();
    store.resolve("news", &visitor(None, None), 1_300).unwrap();
    assert_eq!(
        store.clicks_for("news").unwrap(),
        vec![LinkClickTracking {
            slug: "news".to_string(),
            datetime: Some(1_300),
            client_ip_address: "unknown".to_string(),
            client_browser: String::new(),
            expires_at: Some(5_000),
        }]
    );
}

#[test]
fn resolving_an_unknown_slug_records_nothing() {
    let mut store = sample_store();
    let outcome = store.resolve("nope", &visitor(Some("203.0.113.9"), None), 1_234);
    assert_eq!(outcome, Err(EngineError::NotFound));
    assert_eq!(store.get("docs").unwrap().clicks, 0);
    assert_eq!(store.get("news").unwrap().clicks, 0);
    assert_eq!(store.clicks_for("docs").unwrap(), vec![]);
    assert_eq!(store.clicks_for("nope"), Err(EngineError::NotFound));
    assert_eq!(store.resolve("", &visitor(None, None), 1), Err(EngineError::NotFound));
}

#[test]
fn every_one_of_many_resolutions_is_recorded() {
    let mut store = sample_store();
    let n = 50;
    let mut redirects = 0;
    for k in 0..n {
        let who = visitor(Some("198.51.100.1"), Some("agent"));
        if store.resolve("docs", &who, 2_000 + k).is_ok() {
            redirects += 1;
        }
        store.resolve("news", &who, 2_000 + k).unwrap();
    }
    assert_eq!(redirects, n);
    assert_eq!(store.get("docs").unwrap().clicks, n as i32);
    assert_eq!(store.clicks_for("docs").unwrap().len(), n as usize);
    assert_eq!(store.get("news").unwrap().clicks, n as i32);
    let times: Vec<Option<i64>> =
        store.clicks_for("docs").unwrap().iter().map(|c| c.datetime).collect();
    let expected: Vec<Option<i64>> = (0..n).map(|k| Some(2_000 + k)).collect();
    assert_eq!(times, expected);
}

#[test]
fn list_shows_every_link_with_its_count() {
    let mut store = sample_store();
    store.resolve("news", &visitor(None, None), 1_200).unwrap();
    store.resolve("news", &visitor(None, None), 1_201).unwrap();
    let links = store.list();
    assert_eq!(
        links,
        vec![
            Link {
                slug: "docs".to_string(),
                target_url: "https://example.org/docs".to_string(),
                created_at: 1_000,
                updated_at: 1_000,
                expires_at: None,
                clicks: 0,
                shortened_url: Some("https://sho.rt/docs".to_string()),
            },
            Link {
                slug: "news".to_string(),
                target_url: "https://example.org/news".to_string(),
                created_at: 1_100,
                updated_at: 1_100,
                expires_at: Some(5_000),
                clicks: 2,
                shortened_url: Some("https://sho.rt/news".to_string()),
            },
        ]
    );
    assert_eq!(LinkStore::new("x").list(), vec![]);
}

#[test]
fn get_of_an_unknown_slug_is_not_found() {
    let store = sample_store();
    assert_eq!(store.get("nope"), Err(EngineError::NotFound));
    assert_eq!(store.get("docs").unwrap().slug, "docs");
}

#[test]
fn delete_removes_the_link_and_its_clicks() {
    let mut store = sample_store();
    store.resolve("docs", &visitor(None, None), 1_200).unwrap();
    store.resolve("news", &visitor(None, None), 1_201).unwrap();
    assert_eq!(store.delete("docs"), Ok(()));
    assert!(!store.contains_slug("docs"));
    assert_eq!(store.get("docs"), Err(EngineError::NotFound));
    assert_eq!(store.clicks_for("docs"), Err(EngineError::NotFound));
    assert_eq!(store.get("news").unwrap().clicks, 1);
    assert_eq!(store.list().len(), 1);
    let again = store
        .create("docs".to_string(), "https://example.org/new".to_string(), None, 1_300)
        .unwrap();
    assert_eq!(again.clicks, 0);
    assert_eq!(store.clicks_for("docs").unwrap(), vec![]);
}

#[test]
fn deleting_an_unknown_slug_is_not_found() {
    let mut store = sample_store();
    let before = store.list();
    let outcome = store.delete("nope");
    assert_eq!(outcome, Err(EngineError::NotFound));
    assert_eq!(shortlink::request::deletion_status(&outcome), 404);
    assert!(shortlink::request::deletion_status(&outcome) < 500);
    assert_eq!(store.list(), before);
}

#[test]
fn sweep_removes_what_has_expired() {
    let mut store = sample_store();
    store.create("soon".to_string(), "https://example.org/soon".to_string(), Some(2_000), 1_000).unwrap();
    store.resolve("docs", &visitor(None, None), 1_200).unwrap();
    store.resolve("news", &visitor(None, None), 1_201).unwrap();
    store.resolve("soon", &visitor(None, None), 1_202).unwrap();

    store.sweep(2_000);
    assert!(store.contains_slug("soon"));
    assert_eq!(store.get("soon").unwrap().clicks, 1);

    store.sweep(2_001);
    assert!(!store.contains_slug("soon"));
    assert!(store.contains_slug("news"));
    assert!(store.contains_slug("docs"));
    assert_eq!(store.get("news").unwrap().clicks, 1);
    assert_eq!(store.get("docs").unwrap().clicks, 1);

    store.sweep(5_001);
    assert!(!store.contains_slug("news"));
    assert_eq!(store.list().len(), 1);

    store.sweep(i64::MAX);
    assert!(store.contains_slug("docs"));
    assert_eq!(store.get("docs").unwrap().clicks, 1);
}

#[test]
fn a_link_with_no_lifetime_goes_with_the_next_sweep() {
    let mut store = LinkStore::new("https://sho.rt");
    store.create_link(request("zero", "https://example.org", Some(0)), 1_000, 1).unwrap();
    store.create_link(request("keep", "https://example.org", None), 1_000, 1).unwrap();
    store.sweep(1_000 + 3_600);
    assert!(!store.contains_slug("zero"));
    assert!(store.contains_slug("keep"));
    store.sweep(i64::MAX);
    assert!(store.contains_slug("keep"));
}

#[test]
fn a_generated_link_lives_for_its_lifetime() {
    let mut store = LinkStore::new("https://sho.rt/");
    let outcome = store.create_link(request("", "https://example.org", Some(3_600)), 10_000, 32);
    assert_eq!(shortlink::request::creation_status(&outcome), 201);
    let link = outcome.unwrap();
    assert!(is_generated(&link.slug));
    assert_eq!(link.expires_at, Some(10_000 + 3_600));

    let outcome = store.resolve(&link.slug, &visitor(None, Some("curl/8")), 10_000);
    assert_eq!(shortlink::request::resolution_status(&outcome), 307);
    assert_eq!(outcome.unwrap().location, "https://example.org");
    assert_eq!(store.clicks_for(&link.slug).unwrap().len(), 1);

    store.sweep(10_000 + 3_601);
    let outcome = store.resolve(&link.slug, &visitor(None, Some("curl/8")), 10_000 + 3_601);
    assert_eq!(outcome, Err(EngineError::NotFound));
    assert_eq!(shortlink::request::resolution_status(&outcome), 404);
}

#[test]
fn restore_rebuilds_a_store() {
    let mut store = sample_store();
    store.resolve("news", &visitor(Some("192.0.2.1"), None), 1_200).unwrap();
    let links = store.list();
    let mut events = store.clicks_for("news").unwrap();
    events.push(LinkClickTracking {
        slug: "gone".to_string(),
        datetime: Some(5),
        client_ip_address: "unknown".to_string(),
        client_browser: String::new(),
        expires_at: None,
    });
    events.push(LinkClickTracking {
        slug: "news".to_string(),
        datetime: Some(6),
        client_ip_address: "unknown".to_string(),
        client_browser: String::new(),
        expires_at: Some(4_999),
    });
    let restored = LinkStore::restore("https://sho.rt/", &links, &events).unwrap();
    assert_eq!(restored.list(), links);
    assert_eq!(restored.clicks_for("news").unwrap(), store.clicks_for("news").unwrap());
    assert_eq!(restored.clicks_for("docs").unwrap(), vec![]);
}

#[test]
fn restore_refuses_links_that_share_a_slug() {
    let store = sample_store();
    let mut links = store.list();
    let mut twin = links[0].clone();
    twin.target_url = "https://elsewhere.example".to_string();
    links.push(twin);
    assert!(matches!(
        LinkStore::restore("https://sho.rt/", &links, &Vec::new()),
        Err(EngineError::Conflict)
    ));
}

#[test]
fn the_click_log_bound_fits_a_click_count() {
    assert_eq!(MAX_CLICK_EVENTS, i32::MAX as usize);
}
