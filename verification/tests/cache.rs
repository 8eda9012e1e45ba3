use erosion::analyzer::{AnalyzeError, Analyzer};
use erosion::cache::{analyzer_fingerprint, Cache, CacheError, Source, Stored, CACHE_SCHEMA};
use erosion::languages::Language;
use erosion::metrics::{FileAnalysis, ParseDiagnostic, TestExclusionAnalysis, TestFilteredAnalysis};
use std::sync::Arc;

fn cache() -> Cache {
    match Cache::new(Some("/cache".into()), false, "/work", "f".repeat(64)) {
        Ok(cache) => cache,
        Err(error) => panic!("{}", error.message("")),
    }
}

fn data() -> FileAnalysis {
    FileAnalysis {
        without_tests: None,
        physical_lines: 1,
        source_lines: 0,
        functions: vec![],
        diagnostics: vec![ParseDiagnostic {
            line: 1,
            column: 1,
            message: "test".into(),
        }],
    }
}

#[test]
fn warm_and_corrupt_cache_are_explicit() {
    let oid = "a".repeat(40);
    let payload = b"{\"physical_lines\":1}".to_vec();
    let mut cold = cache();
    assert!(cold
        .get(Language::TypeScript, &oid, None)
        .unwrap()
        .is_none());
    assert_eq!(cold.misses, 1);
    cold.insert(Language::TypeScript, &oid, data()).unwrap();
    assert!(cold.holds(Language::TypeScript, &oid));
    assert_eq!(
        *cold.get(Language::TypeScript, &oid, None).unwrap().unwrap(),
        data()
    );
    assert_eq!(cold.memory_hits, 1);
    let stored = |payload: &[u8]| Stored {
        record: cold.record(Language::TypeScript, &oid, None, b"{\"physical_lines\":1}"),
        payload: payload.to_vec(),
        analysis: data(),
    };
    let mut warm = cache();
    assert_eq!(
        *warm
            .get(Language::TypeScript, &oid, Some(stored(&payload)))
            .unwrap()
            .unwrap(),
        data()
    );
    assert_eq!(warm.disk_hits, 1);
    let corrupt = stored(b"{\"physical_lines\":100}");
    assert_eq!(
        cache().get(Language::TypeScript, &oid, Some(corrupt)),
        Err(CacheError::Checksum)
    );
    assert!(Cache::new(Some("/work".into()), false, "/work", "f".repeat(64)).is_err());
    assert!(Cache::new(Some("/work/cache".into()), false, "/work", "f".repeat(64)).is_err());
    assert!(Cache::new(Some("/workshop".into()), false, "/work", "f".repeat(64)).is_ok());
    assert!(Cache::new(None, false, "/work", "f".repeat(64)).is_err());
    let disabled = Cache::new(None, true, "/work", "f".repeat(64)).ok().unwrap();
    assert_eq!(disabled.path(Language::Rust, &oid, None), Ok(None));
}

#[test]
fn derived_cache_distinguishes_missing_from_no_matches_and_checks_policy_identity() {
    let oid = "b".repeat(40);
    let policy = "c".repeat(64);
    let other_policy = "d".repeat(64);
    let mut cache = cache();
    assert!(cache
        .get_test_exclusion(Language::Rust, &oid, &policy, None)
        .unwrap()
        .is_none());
    assert_eq!(cache.misses, 0);
    let no_matches = TestExclusionAnalysis {
        without_tests: None,
    };
    cache
        .insert_test_exclusion(Language::Rust, &oid, &policy, no_matches.clone())
        .unwrap();
    assert!(cache.holds_test_exclusion(Language::Rust, &oid, &policy));
    assert_eq!(
        *cache
            .get_test_exclusion(Language::Rust, &oid, &policy, None)
            .unwrap()
            .unwrap(),
        no_matches
    );
    assert!(cache
        .get_test_exclusion(Language::Rust, &oid, &other_policy, None)
        .unwrap()
        .is_none());
    assert!(cache.get(Language::Rust, &oid, None).unwrap().is_none());
    let stored = |policy: &str| Stored {
        record: cache.record(Language::Rust, &oid, Some(policy), b"payload"),
        payload: b"payload".to_vec(),
        analysis: no_matches.clone(),
    };
    let mut warm = Cache::new(Some("/cache".into()), false, "/work", "f".repeat(64))
        .ok()
        .unwrap();
    assert_eq!(
        *warm
            .get_test_exclusion(Language::Rust, &oid, &policy, Some(stored(&policy)))
            .unwrap()
            .unwrap(),
        no_matches
    );
    assert_eq!(warm.disk_hits, 1);
    let mut fresh = Cache::new(Some("/cache".into()), false, "/work", "f".repeat(64))
        .ok()
        .unwrap();
    let error = fresh
        .get_test_exclusion(Language::Rust, &oid, &policy, Some(stored(&other_policy)))
        .unwrap_err();
    assert!(error.message("/cache/x").contains("identity mismatch"));
    assert_eq!(
        error.message("/cache/x"),
        "Cache identity mismatch at /cache/x; remove it or use --no-cache"
    );
    assert!(warm.path(Language::Rust, &oid, Some("../invalid")).is_err());
}

#[test]
fn derived_checksum_failures_do_not_affect_raw_cache_access() {
    let oid = "a".repeat(40);
    let policy = "b".repeat(64);
    let writer = cache();
    let raw = FileAnalysis {
        physical_lines: 1,
        source_lines: 1,
        functions: vec![],
        diagnostics: vec![],
        without_tests: None,
    };
    let mut record = writer.record(Language::Rust, &oid, Some(&policy), b"derived");
    record.analysis_sha256 = "0".repeat(64);
    let mut warm = cache();
    let stored = Stored {
        record: writer.record(Language::Rust, &oid, None, b"raw"),
        payload: b"raw".to_vec(),
        analysis: raw.clone(),
    };
    assert_eq!(
        *warm
            .get(Language::Rust, &oid, Some(stored))
            .unwrap()
            .unwrap(),
        raw
    );
    let stored = Stored {
        record,
        payload: b"derived".to_vec(),
        analysis: TestExclusionAnalysis {
            without_tests: None,
        },
    };
    assert!(warm
        .get_test_exclusion(Language::Rust, &oid, &policy, Some(stored))
        .unwrap_err()
        .message("")
        .contains("checksum mismatch"));
    let mut invalid_raw = raw;
    invalid_raw.without_tests = Some(TestFilteredAnalysis {
        source_lines: 0,
        functions: vec![],
        regions: vec![],
    });
    assert_eq!(
        warm.insert(Language::Rust, &oid, invalid_raw.clone()).unwrap_err(),
        CacheError::CannotStoreTests
    );
    let stored = Stored {
        record: writer.record(Language::Rust, &oid, None, b"raw"),
        payload: b"raw".to_vec(),
        analysis: invalid_raw,
    };
    assert_eq!(
        cache().get(Language::Rust, &oid, Some(stored)).unwrap_err(),
        CacheError::RawHoldsTests
    );
}

#[test]
fn records_stand_by_analyzer_layer_language_and_blob() {
    let cache = cache();
    let oid = format!("ab{}", "0".repeat(38));
    let analyzer = "f".repeat(64);
    let policy = "c".repeat(64);
    assert_eq!(
        cache.path(Language::Tsx, &oid, None),
        Ok(Some(format!("/cache/{analyzer}/raw/tsx/ab/{oid}.json")))
    );
    assert_eq!(
        cache.path(Language::Python, &oid, Some(&policy)),
        Ok(Some(format!(
            "/cache/{analyzer}/test-exclusion/{policy}/python/ab/{oid}.json"
        )))
    );
    for invalid in ["", "abc", &"g".repeat(40), &"a".repeat(41)] {
        assert_eq!(
            cache.path(Language::Rust, invalid, None),
            Err(CacheError::InvalidOid)
        );
    }
    assert_eq!(
        cache.path(Language::Rust, &oid, Some(&"C".repeat(64))),
        Err(CacheError::InvalidPolicy)
    );
    let record = cache.record(Language::Tsx, &oid, Some(&policy), b"abc");
    assert_eq!(record.schema, CACHE_SCHEMA);
    assert_eq!(
        record.analysis_sha256,
        "ba7816bf8f01cfea414140de5dae2223b00361a396177a9cb410ff61f20015ad"
    );
}

#[test]
fn languages_and_policies_are_kept_apart() {
    let mut cache = cache();
    let oid = "a".repeat(40);
    cache.insert(Language::TypeScript, &oid, data()).unwrap();
    assert!(!cache.holds(Language::Tsx, &oid));
    assert!(cache.get(Language::Tsx, &oid, None).unwrap().is_none());
    assert!(cache.get(Language::Tsx, "short", None).is_err());
}

#[test]
fn the_analyzer_is_known_by_its_sources() {
    let source = |text: &str| Source {
        path: "src/metrics.rs".into(),
        text: text.into(),
    };
    let one = analyzer_fingerprint(&vec!["grammar".into()], &vec![source("a")]);
    assert_eq!(one.len(), 64);
    assert_eq!(
        one,
        analyzer_fingerprint(&vec!["grammar".into()], &vec![source("a")])
    );
    assert_ne!(
        one,
        analyzer_fingerprint(&vec!["grammar".into()], &vec![source("b")])
    );
    assert_ne!(
        one,
        analyzer_fingerprint(&vec!["other".into()], &vec![source("a")])
    );
}

#[test]
fn records_of_different_keys_stand_apart() {
    let cache = cache();
    let mut places = Vec::new();
    for language in [Language::JavaScript, Language::TypeScript, Language::Tsx] {
        for oid in ["a".repeat(40), "a".repeat(64), format!("a{}", "b".repeat(39))] {
            for policy in [None, Some("c".repeat(64)), Some("d".repeat(64))] {
                let place = cache.path(language, &oid, policy.as_deref()).unwrap().unwrap();
                assert!(!places.contains(&place), "{place}");
                places.push(place);
            }
        }
    }
    assert_eq!(places.len(), 27);
}

#[test]
fn disagreeing_analyses_keep_nothing() {
    let oid = "a".repeat(40);
    let mut analyzer = Analyzer::new(cache());
    let known = Some(Arc::new(data()));
    let result = analyzer.analyze(Language::Rust, &oid, b"fn f() {}\n", known, None);
    assert!(matches!(result, Err(AnalyzeError::RawDisagrees)));
    assert!(!analyzer.cache.holds(Language::Rust, &oid));
    assert_eq!(analyzer.cache.memory_hits, 0);
    assert_eq!(analyzer.cache.disk_hits, 0);
    assert!(analyzer
        .analyze(Language::Rust, &oid, b"fn f() {}\n", None, None)
        .is_ok());
    assert!(analyzer.cache.holds(Language::Rust, &oid));
    assert_eq!(
        (
            analyzer.cache.memory_hits,
            analyzer.cache.disk_hits
        ),
        (0, 0)
    );
}
