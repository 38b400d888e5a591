use linefetch::codec::decode_record;
use linefetch::codec::encode_record;
use linefetch::fetch::FetchError;
use linefetch::fetch::Outcome;
use linefetch::fetch::UnitPlan;
use linefetch::fetch::finish_unit;
use linefetch::fetch::lookup_url;
use linefetch::fetch::outcome_of_hit;
use linefetch::fetch::plan_unit;
use linefetch::fetch::render_fetch_error;
use linefetch::hashing::url_to_hash;
use linefetch::record::DbRecord;
use linefetch::record::make_record;
use linefetch::record::now_iso_utc;
use linefetch::store::Db;
use linefetch::store::get_from_db;
use linefetch::store::prepare_run;
use linefetch::store::save_to_db;

fn record(url: &str, line_count: usize, at: &str) -> DbRecord {
    DbRecord {
        url: url.to_string(),
        line_count,
        at: at.to_string(),
    }
}

#[test]
fn record_codec_roundtrip() {
    let rec = record("http://example.test/p?q=\"x\\y\"", 42, "2024-01-02T03:04:05.678Z");
    let bytes = encode_record(&rec);
    assert_eq!(decode_record(bytes.as_slice()), Some(rec));
}

#[test]
fn record_codec_plain_shape() {
    let rec = record("http://a.test", 3, "2024-01-02T03:04:05.678Z");
    let bytes = encode_record(&rec);
    assert_eq!(
        String::from_utf8(bytes).unwrap(),
        "{\"url\":\"http://a.test\",\"line_count\":3,\"at\":\"2024-01-02T03:04:05.678Z\"}"
    );
}

#[test]
fn decode_rejects_other_bytes() {
    assert_eq!(decode_record(b"nonsense"), None);
    assert_eq!(decode_record(b""), None);
    assert_eq!(decode_record(b"{\"url\":\"x\",\"line_count\":,\"at\":\"t\"}"), None);
    assert_eq!(decode_record(b"{\"url\":\"x\",\"line_count\":3,\"at\":\"t\"} "), None);
}

#[test]
fn make_record_counts_lines() {
    let at = now_iso_utc();
    let rec = make_record("http://a.test", "x\ny\nz", at.clone());
    assert_eq!(rec.url, "http://a.test");
    assert_eq!(rec.line_count, 3);
    assert_eq!(rec.at, at);
}

#[test]
fn read_errors_fold_into_misses() {
    let hit: Result<Option<usize>, String> = Ok(Some(7));
    assert_eq!(linefetch::store::miss_on_error(hit), Some(7));
    let miss: Result<Option<usize>, String> = Ok(None);
    assert_eq!(linefetch::store::miss_on_error(miss), None);
    let failed: Result<Option<usize>, String> = Err("broken store".to_string());
    assert_eq!(linefetch::store::miss_on_error(failed), None);
}

#[test]
fn only_canonical_ok_status_passes() {
    assert!(linefetch::fetch::status_is_ok(200));
    assert!(!linefetch::fetch::status_is_ok(201));
    assert!(!linefetch::fetch::status_is_ok(404));
    assert!(!linefetch::fetch::status_is_ok(500));
}

#[test]
fn bad_status_message_is_exact() {
    let e = FetchError::BadStatus {
        url: "http://127.0.0.1:1234/test_url".to_string(),
        code: 404,
        text: "404 Not Found".to_string(),
    };
    assert_eq!(
        render_fetch_error(&e),
        "Status code: '404 Not Found' for URL: http://127.0.0.1:1234/test_url\n"
    );
}

#[test]
fn timeout_and_body_messages() {
    let t = FetchError::Timeout {
        url: "http://slow.test".to_string(),
        timeout_secs: 5,
        detail: "deadline has elapsed".to_string(),
    };
    assert_eq!(
        render_fetch_error(&t),
        "could not download within 5 seconds for URL http://slow.test: deadline has elapsed"
    );
    let b = FetchError::BodyRead { url: "http://cut.test".to_string() };
    assert_eq!(
        render_fetch_error(&b),
        "Failed to read response text from http://cut.test"
    );
}

#[test]
fn store_roundtrip_via_save_and_get() {
    let db = Db::open("/tmp/linefetch_store_roundtrip").unwrap();
    db.clear().unwrap();
    let rec = record("http://stored.test", 11, "2024-05-06T07:08:09.100Z");
    let key = url_to_hash("http://stored.test");
    save_to_db(&db, &key, &rec).unwrap();
    assert_eq!(get_from_db(&db, &key), Ok(Some(rec)));
    assert_eq!(get_from_db(&db, "no-such-key"), Ok(None));
}

#[test]
fn cache_hit_skips_fetch_and_returns_stored_count() {
    let db = Db::open("/tmp/linefetch_store_cache_hit").unwrap();
    db.clear().unwrap();
    let url = "http://cached.test/page";
    let rec = record(url, 3, "2024-01-01T00:00:00.000Z");
    let key = url_to_hash(url);
    save_to_db(&db, &key, &rec).unwrap();

    // A later run looks the URL up before any network work.
    let (key2, cached) = lookup_url(&db, url);
    assert_eq!(key2, key);
    let plan = plan_unit(cached);
    match plan {
        UnitPlan::CacheHit(found) => {
            let outcome = outcome_of_hit(found);
            assert_eq!(
                outcome,
                Outcome::Success { line_count: 3, at: "2024-01-01T00:00:00.000Z".to_string() }
            );
        }
        UnitPlan::NeedFetch => panic!("a stored record must not lead to a fetch"),
    }
}

#[test]
fn clear_discards_prior_records() {
    let db = Db::open("/tmp/linefetch_store_clear").unwrap();
    db.clear().unwrap();
    let url = "http://cleared.test";
    let key = url_to_hash(url);
    save_to_db(&db, &key, &record(url, 9, "2024-01-01T00:00:00.000Z")).unwrap();
    assert!(matches!(get_from_db(&db, &key), Ok(Some(_))));

    db.clear().unwrap();
    let (_, cached) = lookup_url(&db, url);
    assert_eq!(plan_unit(cached), UnitPlan::NeedFetch);
}

#[test]
fn finish_unit_writes_through_on_success() {
    let db = Db::open("/tmp/linefetch_store_write_through").unwrap();
    db.clear().unwrap();
    let url = "http://fetched.test";
    let key = url_to_hash(url);
    let rec = make_record(url, "one\ntwo", "2024-02-02T02:02:02.000Z".to_string());
    let outcome = finish_unit(&db, &key, Ok(rec.clone()));
    assert_eq!(
        outcome,
        Outcome::Success { line_count: 2, at: "2024-02-02T02:02:02.000Z".to_string() }
    );
    assert_eq!(get_from_db(&db, &key), Ok(Some(rec)));
}

#[test]
fn finish_unit_records_failure_and_stores_nothing() {
    let db = Db::open("/tmp/linefetch_store_failure").unwrap();
    db.clear().unwrap();
    let url = "http://missing.test";
    let key = url_to_hash(url);
    let e = FetchError::BadStatus {
        url: url.to_string(),
        code: 404,
        text: "404 Not Found".to_string(),
    };
    let outcome = finish_unit(&db, &key, Err(e));
    assert_eq!(
        outcome,
        Outcome::Failure {
            message: "Status code: '404 Not Found' for URL: http://missing.test\n".to_string()
        }
    );
    assert_eq!(get_from_db(&db, &key), Ok(None));
}

#[test]
fn prepare_run_opens_and_clears() {
    let mut db: Option<Db> = None;
    prepare_run(&mut db, "/tmp/linefetch_store_prepare", false).unwrap();
    assert!(db.is_some());
    let handle = db.as_ref().unwrap();
    let key = url_to_hash("http://prep.test");
    save_to_db(handle, &key, &record("http://prep.test", 1, "t")).unwrap();

    // Clearing before the next run discards the record; the handle is kept.
    prepare_run(&mut db, "/tmp/linefetch_store_prepare", true).unwrap();
    assert_eq!(get_from_db(db.as_ref().unwrap(), &key), Ok(None));
}

#[test]
fn second_run_fetches_nothing_and_repeats_outcomes() {
    let db = Db::open("/tmp/linefetch_store_second_run").unwrap();
    db.clear().unwrap();
    let work = vec!["http://one.test".to_string(), "http://two.test".to_string()];

    // First run: every lookup misses, and each unit "fetches" a body.
    let mut first = linefetch::engine::Engine::new(work.clone(), 2);
    while let Some(url) = first.start_next() {
        let (key, cached) = lookup_url(&db, &url);
        let outcome = match plan_unit(cached) {
            UnitPlan::NeedFetch => {
                let body = if url == "http://one.test" { "a\nb" } else { "x" };
                finish_unit(&db, &key, Ok(make_record(&url, body, "t0".to_string())))
            }
            UnitPlan::CacheHit(_) => panic!("the store was cleared; nothing can be cached yet"),
        };
        first.complete(&url, outcome);
    }
    assert!(first.is_done());
    let first_results = first.into_results();

    // Second run over the same set: every unit must be answered from the
    // cache, and the aggregate must repeat the first run's outcomes.
    let mut second = linefetch::engine::Engine::new(work.clone(), 2);
    while let Some(url) = second.start_next() {
        let (_, cached) = lookup_url(&db, &url);
        let outcome = match plan_unit(cached) {
            UnitPlan::CacheHit(rec) => outcome_of_hit(rec),
            UnitPlan::NeedFetch => panic!("a cached URL must not be fetched again"),
        };
        second.complete(&url, outcome);
    }
    assert!(second.is_done());
    let second_results = second.into_results();
    assert_eq!(first_results.len(), second_results.len());
    for url in &work {
        assert_eq!(first_results.get(url), second_results.get(url));
        assert!(first_results.get(url).is_some());
    }
}

#[test]
fn open_failure_carries_open_kind() {
    // A character device cannot back a store.
    match Db::open("/dev/null") {
        Ok(_) => panic!("opening a store over a character device must fail"),
        Err(err) => {
            assert!(matches!(err, linefetch::store::StoreError::Open(_)));
            assert!(!err.message().is_empty());
        }
    }
}

#[test]
fn db_get_reads_only_numbers() {
    let db = Db::open("/tmp/linefetch_store_numbers").unwrap();
    db.clear().unwrap();
    let key = url_to_hash("http://n.test");
    save_to_db(&db, &key, &record("http://n.test", 5, "t")).unwrap();
    // The stored value is a record, not a bare number.
    assert_eq!(db.get(&key), None);
    assert_eq!(db.get("absent"), None);
}
