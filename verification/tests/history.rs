use erosion::calendar::rfc3339_text;
use erosion::git::Commit;
use erosion::history::{
    checkpoints, commit_checkpoint, commit_checkpoints, parse_boundary, parse_date, parse_span,
    select, Boundary, Checkpoint, Date, Span, Unit,
};

fn commit(sha: &str, at: &str) -> Commit {
    Commit {
        sha: sha.to_owned(),
        committed_at: at
            .parse::<chrono::DateTime<chrono::Utc>>()
            .expect("timestamp")
            .timestamp(),
    }
}

fn cutoffs(checkpoints: &[Checkpoint]) -> Vec<String> {
    checkpoints
        .iter()
        .map(|point| rfc3339_text(point.cutoff))
        .collect()
}

fn chain() -> Vec<Commit> {
    vec![
        commit(
            "cccccccccccccccccccccccccccccccccccccccc",
            "2024-03-15T10:00:00Z",
        ),
        commit(
            "bbbbbbbbbbbbbbbbbbbbbbbbbbbbbbbbbbbbbbbb",
            "2024-02-10T10:00:00Z",
        ),
        commit(
            "aaaaaaaaaaaaaaaaaaaaaaaaaaaaaaaaaaaaaaaa",
            "2024-01-05T10:00:00Z",
        ),
    ]
}

#[test]
fn parses_strict_dates_including_leap_days() {
    assert_eq!(
        parse_date("2024-02-29").expect("leap day"),
        Date {
            year: 2024,
            month: 2,
            day: 29
        }
    );
    assert!(parse_date("2023-02-29").is_err());
    assert!(parse_date("2024-1-05").is_err());
    assert!(parse_date("2024-01-05T00:00:00Z").is_err());
    assert!(parse_date(" 2024-01-05").is_err());
    assert!(parse_date("2024-13-01").is_err());
    assert!(parse_date("2024-00-10").is_err());
}

#[test]
fn parses_only_whole_positive_spans() {
    assert_eq!(
        parse_span("7d").expect("days"),
        Span {
            count: 7,
            unit: Unit::Days
        }
    );
    assert_eq!(
        parse_span("2w").expect("weeks"),
        Span {
            count: 2,
            unit: Unit::Weeks
        }
    );
    assert_eq!(
        parse_span("18mo").expect("months"),
        Span {
            count: 18,
            unit: Unit::Months
        }
    );
    assert_eq!(
        parse_span("3y").expect("years"),
        Span {
            count: 3,
            unit: Unit::Years
        }
    );
    for invalid in [
        "", "d", "1", "0d", "0mo", "1m", "1.5d", "1w3d", "1 d", "-1d", "1x", "w1",
    ] {
        assert!(parse_span(invalid).is_err(), "{invalid:?} must be rejected");
    }
    assert!(parse_span("99999999999d").is_err());
}

#[test]
fn anchors_month_cadence_to_the_end_without_drift() {
    let head = commit(
        "1111111111111111111111111111111111111111",
        "2024-03-31T12:00:00Z",
    );
    let points = checkpoints(&vec![head], "2023-12-31", None, "1mo").expect("checkpoints");
    assert_eq!(
        cutoffs(&points),
        vec![
            "2023-12-31T00:00:00+00:00",
            "2023-12-31T12:00:00+00:00",
            "2024-01-31T12:00:00+00:00",
            "2024-02-29T12:00:00+00:00",
            "2024-03-31T12:00:00+00:00",
        ]
    );
}

#[test]
fn includes_both_endpoints_exactly() {
    let points =
        checkpoints(&chain(), "2024-01-01", Some("2024-03-31"), "1mo").expect("checkpoints");
    assert_eq!(
        cutoffs(&points),
        vec![
            "2024-01-01T00:00:00+00:00",
            "2024-01-31T23:59:59+00:00",
            "2024-02-29T23:59:59+00:00",
            "2024-03-31T23:59:59+00:00",
        ]
    );
    let single = checkpoints(&chain(), "2024-03-31", Some("2024-03-31"), "1d")
        .expect("single checkpoint");
    assert_eq!(single.len(), 2);
    assert_eq!(
        cutoffs(&single),
        vec!["2024-03-31T00:00:00+00:00", "2024-03-31T23:59:59+00:00"]
    );
}

#[test]
fn steps_weeks_and_days_exactly() {
    let points = checkpoints(&chain(), "3w", Some("2024-03-22"), "1w").expect("checkpoints");
    assert_eq!(
        cutoffs(&points),
        vec![
            "2024-03-01T23:59:59+00:00",
            "2024-03-08T23:59:59+00:00",
            "2024-03-15T23:59:59+00:00",
            "2024-03-22T23:59:59+00:00",
        ]
    );
    let daily = checkpoints(&chain(), "2d", Some("2024-03-02"), "1d").expect("checkpoints");
    assert_eq!(daily.len(), 3);
    assert_eq!(rfc3339_text(daily[0].cutoff), "2024-02-29T23:59:59+00:00");
}

#[test]
fn appends_the_exact_start_when_the_cadence_misses_it() {
    let points =
        checkpoints(&chain(), "2024-01-10", Some("2024-03-01"), "1mo").expect("checkpoints");
    assert_eq!(
        cutoffs(&points),
        vec![
            "2024-01-10T00:00:00+00:00",
            "2024-02-01T23:59:59+00:00",
            "2024-03-01T23:59:59+00:00",
        ]
    );
}

#[test]
fn defaults_the_end_to_the_head_commit() {
    let points = checkpoints(&chain(), "1mo", None, "1mo").expect("checkpoints");
    assert_eq!(
        cutoffs(&points),
        vec!["2024-02-15T10:00:00+00:00", "2024-03-15T10:00:00+00:00"]
    );
    assert_eq!(points[1].commit.as_ref().expect("head").sha, chain()[0].sha);
}

#[test]
fn selects_the_first_chain_entry_at_or_before_each_cutoff() {
    let points =
        checkpoints(&chain(), "2023-12-01", Some("2024-03-31"), "1mo").expect("checkpoints");
    let selected: Vec<_> = points
        .iter()
        .map(|point| point.commit.as_ref().map(|commit| commit.sha.as_str()))
        .collect();
    assert_eq!(
        selected,
        vec![
            None,
            None,
            Some("aaaaaaaaaaaaaaaaaaaaaaaaaaaaaaaaaaaaaaaa"),
            Some("bbbbbbbbbbbbbbbbbbbbbbbbbbbbbbbbbbbbbbbb"),
            Some("cccccccccccccccccccccccccccccccccccccccc"),
        ]
    );
    assert_eq!(
        cutoffs(&points),
        vec![
            "2023-12-01T00:00:00+00:00",
            "2023-12-31T23:59:59+00:00",
            "2024-01-31T23:59:59+00:00",
            "2024-02-29T23:59:59+00:00",
            "2024-03-31T23:59:59+00:00",
        ]
    );
}

#[test]
fn repeats_a_commit_when_no_newer_commit_exists() {
    let points =
        checkpoints(&chain(), "2024-03-16", Some("2024-03-20"), "1d").expect("checkpoints");
    // Five daily cutoffs anchored at the end, plus the exact start.
    assert_eq!(points.len(), 6);
    assert!(
        points
            .iter()
            .all(|point| point.commit.as_ref().expect("commit").sha == chain()[0].sha)
    );
}

#[test]
fn reports_prehistory_as_an_absent_commit() {
    let points =
        checkpoints(&chain(), "2020-01-01", Some("2020-06-01"), "1y").expect("checkpoints");
    assert!(points.iter().all(|point| point.commit.is_none()));
}

#[test]
fn honors_chain_order_with_non_monotonic_timestamps() {
    // The middle commit records a committer time in the future; chain order,
    // not timestamp order, decides which entry is first eligible.
    let history = vec![
        commit(
            "cccccccccccccccccccccccccccccccccccccccc",
            "2024-03-15T10:00:00Z",
        ),
        commit(
            "bbbbbbbbbbbbbbbbbbbbbbbbbbbbbbbbbbbbbbbb",
            "2025-01-01T00:00:00Z",
        ),
        commit(
            "aaaaaaaaaaaaaaaaaaaaaaaaaaaaaaaaaaaaaaaa",
            "2024-01-05T10:00:00Z",
        ),
    ];
    let points =
        checkpoints(&history, "2024-02-01", Some("2024-02-29"), "1mo").expect("checkpoints");
    assert_eq!(
        points
            .iter()
            .map(|point| point.commit.as_ref().expect("commit").sha.as_str())
            .collect::<Vec<_>>(),
        vec![
            "aaaaaaaaaaaaaaaaaaaaaaaaaaaaaaaaaaaaaaaa",
            "aaaaaaaaaaaaaaaaaaaaaaaaaaaaaaaaaaaaaaaa"
        ]
    );
}

#[test]
fn selects_the_head_when_until_is_after_it() {
    let points =
        checkpoints(&chain(), "2024-03-15", Some("2030-01-01"), "1y").expect("checkpoints");
    assert_eq!(
        points
            .last()
            .expect("last")
            .commit
            .as_ref()
            .expect("commit")
            .sha,
        chain()[0].sha
    );
}

#[test]
fn rejects_inverted_ranges_and_overflow() {
    assert!(checkpoints(&chain(), "2024-05-01", Some("2024-01-01"), "1d").is_err());
    assert!(checkpoints(&chain(), "4000000y", Some("2024-01-01"), "1y").is_err());
    assert!(checkpoints(&chain(), "1000000000d", None, "1d").is_err());
    assert!(checkpoints(&vec![], "2024-01-01", None, "1d").is_err());
    assert!(checkpoints(&chain(), "2024-01-01", Some("2024-02-30"), "1d").is_err());
    assert!(checkpoints(&chain(), "2024-01-01", Some("2024-03-01"), "1m").is_err());
}

#[test]
fn refuses_unbounded_checkpoint_counts() {
    let error = checkpoints(&chain(), "2000-01-01", Some("2024-03-01"), "1d")
        .expect_err("too many checkpoints");
    assert!(
        error.message().contains("checkpoints"),
        "{}",
        error.message()
    );
}

#[test]
fn messages_name_what_is_wrong() {
    assert_eq!(
        parse_span("1m").expect_err("ambiguous").message(),
        "ambiguous unit \"m\"; use \"mo\" for months"
    );
}

#[test]
fn boundaries_are_dates_or_spans() {
    assert!(
        parse_boundary("2024-02-29").expect("date")
            == Boundary::Date(Date {
                year: 2024,
                month: 2,
                day: 29
            })
    );
    assert!(
        parse_boundary("3y").expect("span")
            == Boundary::Span(Span {
                count: 3,
                unit: Unit::Years
            })
    );
    assert!(parse_boundary("yesterday").is_err());
}

#[test]
fn selection_is_by_chain_order() {
    let chain = chain();
    assert_eq!(
        select(&chain, chain[1].committed_at).expect("commit").sha,
        chain[1].sha
    );
    assert_eq!(
        select(&chain, chain[1].committed_at - 1)
            .expect("commit")
            .sha,
        chain[2].sha
    );
    assert!(select(&chain, chain[2].committed_at - 1).is_none());
}

#[test]
fn every_commit_from_an_older_one_on() {
    let chain = chain();
    let points =
        commit_checkpoints(&chain, &chain[1].sha, &chain[0].sha).expect("on the chain");
    let shas: Vec<_> = points
        .iter()
        .map(|point| point.commit.as_ref().expect("commit").sha.as_str())
        .collect();
    assert_eq!(shas, [chain[1].sha.as_str(), chain[0].sha.as_str()]);
    assert_eq!(points[0].cutoff, chain[1].committed_at);
    assert_eq!(commit_checkpoint(&chain[2]).cutoff, chain[2].committed_at);
    let error = commit_checkpoints(&chain, "dddd", &chain[0].sha).expect_err("not on the chain");
    assert!(error.contains("is not on the first-parent chain"));
}

#[test]
fn month_steps_keep_the_day_or_take_the_last_one() {
    for (since, head, start) in [
        ("1mo", "2023-03-31T06:00:00Z", "2023-02-28T06:00:00+00:00"),
        ("1y", "2024-02-29T06:00:00Z", "2023-02-28T06:00:00+00:00"),
        ("2mo", "2024-04-30T06:00:00Z", "2024-02-29T06:00:00+00:00"),
        ("14mo", "2024-03-15T06:00:00Z", "2023-01-15T06:00:00+00:00"),
        ("1mo", "2024-01-31T06:00:00Z", "2023-12-31T06:00:00+00:00"),
        ("4y", "1972-02-29T06:00:00Z", "1968-02-29T06:00:00+00:00"),
    ] {
        let head = commit(&"d".repeat(40), head);
        let points = checkpoints(&vec![head], since, None, "20y").expect("checkpoints");
        assert_eq!(cutoffs(&points)[0], start, "{since}");
    }
}

#[test]
fn days_and_months_reach_back_to_the_first_instant() {
    let head = || {
        vec![Commit {
            sha: "e".repeat(40),
            committed_at: 0,
        }]
    };
    let points = checkpoints(&head(), "96465292d", None, "96465292d").expect("the first day");
    assert_eq!(points[0].cutoff, -8_334_601_228_800);
    assert!(checkpoints(&head(), "96465293d", None, "96465293d").is_err());
    assert!(checkpoints(&head(), "264113y", None, "1y").is_err());
}
