use linefetch::api::Config;
use linefetch::api::FetchUrlsParams;
use linefetch::dedup::add_url;
use linefetch::dedup::collect_candidates;
use linefetch::dedup::normalize;
use linefetch::engine::Engine;
use linefetch::fetch::Outcome;

fn urls(texts: &[&str]) -> Vec<String> {
    texts.iter().map(|t| t.to_string()).collect()
}

#[test]
fn normalize_dedups_and_never_grows() {
    let raw = urls(&[
        "http://a.test",
        "http://b.test",
        "http://a.test",
        "http://c.test",
        "http://b.test",
    ]);
    let work = normalize(raw.clone());
    assert!(work.len() <= raw.len());
    assert_eq!(work.len(), 3);
    for u in &work {
        assert_eq!(work.iter().filter(|v| v == &u).count(), 1);
    }
}

#[test]
fn add_url_reports_duplicates() {
    let mut set: Vec<String> = Vec::new();
    assert!(add_url(&mut set, "http://a.test".to_string()));
    assert!(!add_url(&mut set, "http://a.test".to_string()));
    assert!(add_url(&mut set, "http://b.test".to_string()));
    assert_eq!(set.len(), 2);
}

#[test]
fn collect_candidates_keeps_only_http_lines() {
    let mut set: Vec<String> = Vec::new();
    collect_candidates(
        &mut set,
        urls(&["http://a.test", "not a url", "", "http://a.test", "https://b.test"]),
    );
    assert_eq!(set, urls(&["http://a.test", "https://b.test"]));
}

#[test]
fn settings_prefer_request_overrides() {
    let config = Config {
        max_requests_at_once: 4,
        fetch_timeout_secs: 30,
        db_name: "cache".to_string(),
    };
    let defaults = FetchUrlsParams {
        max_requests_at_once: None,
        fetch_timeout_secs: None,
        clear_db: None,
        urls: urls(&["http://a.test"]),
    };
    assert_eq!(defaults.settings(&config), (4, 30, false));
    let overridden = FetchUrlsParams {
        max_requests_at_once: Some(2),
        fetch_timeout_secs: Some(5),
        clear_db: Some(true),
        urls: urls(&["http://a.test"]),
    };
    assert_eq!(overridden.settings(&config), (2, 5, true));
}

#[test]
fn empty_work_set_is_done_at_once() {
    let mut engine = Engine::new(Vec::new(), 4);
    assert!(engine.is_done());
    assert_eq!(engine.start_next(), None);
    let results = engine.into_results();
    assert_eq!(results.len(), 0);
}

#[test]
fn in_flight_never_exceeds_limit() {
    let limit = 2;
    let work = normalize(urls(&[
        "http://u0.test",
        "http://u1.test",
        "http://u2.test",
        "http://u3.test",
        "http://u4.test",
    ]));
    let submitted = work.len();
    let mut engine = Engine::new(work, limit);
    let mut active: Vec<String> = Vec::new();
    let mut max_active = 0;
    loop {
        while let Some(url) = engine.start_next() {
            active.push(url);
            if active.len() > max_active {
                max_active = active.len();
            }
        }
        assert!(active.len() <= limit);
        match active.pop() {
            Some(url) => {
                assert!(engine.is_in_flight(&url));
                engine.complete(
                    &url,
                    Outcome::Success { line_count: 1, at: "t".to_string() },
                );
            }
            None => break,
        }
    }
    assert!(engine.is_done());
    assert_eq!(max_active, limit);
    let results = engine.into_results();
    assert_eq!(results.len(), submitted);
}

#[test]
fn work_set_smaller_than_limit() {
    let work = normalize(urls(&["http://solo.test"]));
    let mut engine = Engine::new(work, 8);
    let first = engine.start_next();
    assert_eq!(first, Some("http://solo.test".to_string()));
    assert_eq!(engine.start_next(), None);
    engine.complete(
        &"http://solo.test".to_string(),
        Outcome::Failure { message: "boom".to_string() },
    );
    assert!(engine.is_done());
    let results = engine.into_results();
    assert_eq!(results.len(), 1);
    let url = "http://solo.test".to_string();
    assert_eq!(
        results.get(&url),
        Some(&Outcome::Failure { message: "boom".to_string() })
    );
}

#[test]
fn every_url_gets_exactly_one_outcome() {
    let work = normalize(urls(&["http://x.test", "http://y.test", "http://z.test"]));
    let mut engine = Engine::new(work, 1);
    let mut seen: Vec<String> = Vec::new();
    loop {
        match engine.start_next() {
            Some(url) => {
                seen.push(url.clone());
                engine.complete(
                    &url,
                    Outcome::Success { line_count: 7, at: "t".to_string() },
                );
            }
            None => {
                if engine.is_done() {
                    break;
                }
            }
        }
    }
    assert_eq!(seen.len(), 3);
    let results = engine.into_results();
    assert_eq!(results.len(), 3);
    for u in ["http://x.test", "http://y.test", "http://z.test"] {
        let url = u.to_string();
        assert_eq!(
            results.get(&url),
            Some(&Outcome::Success { line_count: 7, at: "t".to_string() })
        );
    }
    assert_eq!(results.get(&"http://w.test".to_string()), None);
}
