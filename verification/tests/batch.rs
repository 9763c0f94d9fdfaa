//! Tests of whole batches run through the real job engine.

use serde_json::Value;
use url_cleaner_engine::types::{Cleaner, JobContext, ParamsDiff};

use url_cleaner_site::engine::{process_descriptor, run_batch};
use url_cleaner_site::server::{clean, resolve_pool_width, ServerConfig, ServerState};
use url_cleaner_site::types::BulkJob;

/// A cleaner that fails any URL on the host `fail.example` and strips the
/// `utm_source` query parameter from everything else.
fn test_cleaner() -> Cleaner<'static> {
    serde_json::from_str(
        r#"{"actions":[
            {"If":{"if":{"HostIs":"fail.example"},"then":{"Error":"forced failure"}}},
            {"RemoveQueryParams":["utm_source"]}
        ]}"#,
    )
    .expect("the test cleaner to parse")
}

fn url_job(url: &str) -> Value {
    Value::String(url.to_string())
}

#[test]
fn single_job_is_cleaned() {
    let cleaner = test_cleaner();
    let context = JobContext::default();
    let out = process_descriptor(&cleaner, &context, url_job("https://example.com/?utm_source=tracker&id=5"));
    assert_eq!(out, Ok(Ok("https://example.com/?id=5".to_string())));
}

#[test]
fn invalid_descriptor_is_a_build_failure() {
    let cleaner = test_cleaner();
    let context = JobContext::default();
    let out = process_descriptor(&cleaner, &context, Value::from(5u64));
    let err = out.expect_err("a number is not a job");
    assert!(!err.message.is_empty());
    assert!(err.variant.contains("SerdeJsonError"));
}

#[test]
fn failing_host_is_a_run_failure() {
    let cleaner = test_cleaner();
    let context = JobContext::default();
    let out = process_descriptor(&cleaner, &context, url_job("https://fail.example/a"));
    let run = out.expect("the job builds");
    let err = run.expect_err("the run fails");
    assert!(err.message.contains("forced failure"));
    assert!(err.variant.contains("ExplicitError"));
}

#[test]
fn mixed_outcomes_are_positionally_exact_for_every_width() {
    let cleaner = test_cleaner();
    let context = JobContext::default();
    let jobs = vec![
        Value::from(0u64),
        url_job("https://fail.example/a"),
        Value::from(1u64),
        url_job("https://fail.example/b"),
        Value::from(2u64),
        url_job("https://example.com/?utm_source=x&id=1"),
        url_job("https://example.com/good"),
    ];
    for w in [1usize, 2, 3, 5, 8] {
        let out = run_batch(&cleaner, &context, jobs.clone(), w);
        assert_eq!(out.len(), 7);
        for i in [0usize, 2, 4] {
            assert!(out[i].is_err(), "expected build failure at {i} for width {w}");
        }
        for i in [1usize, 3] {
            let run = out[i].as_ref().expect("builds fine");
            assert!(run.is_err(), "expected run failure at {i} for width {w}");
        }
        assert_eq!(
            out[5],
            Ok(Ok("https://example.com/?id=1".to_string())),
            "width {w}"
        );
        assert_eq!(
            out[6],
            Ok(Ok("https://example.com/good".to_string())),
            "width {w}"
        );
    }
}

#[test]
fn every_width_and_size_keeps_outcomes_at_their_own_positions() {
    let cleaner = test_cleaner();
    let context = JobContext::default();
    for w in [1usize, 2, 3, 5] {
        for n in [0usize, 1, w - 1, w, w + 1, 2 * w, 37] {
            let jobs: Vec<Value> = (0..n as u64)
                .map(|i| {
                    if i % 3 == 0 {
                        Value::from(i)
                    } else if i % 3 == 1 {
                        url_job(&format!("https://fail.example/{i}"))
                    } else {
                        url_job(&format!("https://example.com/{i}"))
                    }
                })
                .collect();
            let out = run_batch(&cleaner, &context, jobs, w);
            assert_eq!(out.len(), n, "width {w}, size {n}");
            for (i, outcome) in out.iter().enumerate() {
                match i % 3 {
                    0 => assert!(outcome.is_err(), "width {w}, size {n}, index {i}"),
                    1 => assert!(
                        matches!(outcome, Ok(Err(_))),
                        "width {w}, size {n}, index {i}"
                    ),
                    _ => assert_eq!(
                        outcome,
                        &Ok(Ok(format!("https://example.com/{i}"))),
                        "width {w}, size {n}, index {i}"
                    ),
                }
            }
        }
    }
}

#[test]
fn repeating_a_batch_with_other_widths_gives_identical_results() {
    let cleaner = test_cleaner();
    let context = JobContext::default();
    let jobs: Vec<Value> = (0..23u64)
        .map(|i| {
            if i % 3 == 0 {
                Value::from(i)
            } else if i % 3 == 1 {
                url_job(&format!("https://fail.example/{i}"))
            } else {
                url_job(&format!("https://example.com/{i}?utm_source=t"))
            }
        })
        .collect();
    let narrow = run_batch(&cleaner, &context, jobs.clone(), 1);
    let wide = run_batch(&cleaner, &context, jobs, 8);
    assert_eq!(narrow, wide);
}

#[test]
fn empty_batch_returns_an_empty_result_list() {
    let cleaner = test_cleaner();
    let context = JobContext::default();
    let out = run_batch(&cleaner, &context, Vec::new(), 4);
    assert_eq!(out, Vec::new());
}

#[test]
fn clean_answers_one_outcome_per_descriptor() {
    let config = ServerConfig {
        cleaner: test_cleaner(),
        config_string: String::new(),
        threads: 3,
        max_json_size: 1 << 20,
    };
    let bulk_job = BulkJob {
        jobs: vec![
            url_job("https://example.com/?utm_source=x"),
            Value::from(7u64),
            url_job("https://fail.example/z"),
        ],
        context: JobContext::default(),
        params_diff: None,
    };
    let response = clean(&config, bulk_job);
    assert_eq!(response.urls.len(), 3);
    assert_eq!(
        response.urls[0],
        Ok(Ok("https://example.com/".to_string()))
    );
    assert!(response.urls[1].is_err());
    assert!(matches!(&response.urls[2], Ok(Err(_))));
}

#[test]
fn clean_of_an_empty_batch_is_empty() {
    let config = ServerConfig {
        cleaner: test_cleaner(),
        config_string: String::new(),
        threads: 2,
        max_json_size: 1 << 20,
    };
    let bulk_job = BulkJob {
        jobs: Vec::new(),
        context: JobContext::default(),
        params_diff: None,
    };
    assert_eq!(clean(&config, bulk_job).urls, Vec::new());
}

#[test]
fn params_diff_changes_the_batch_it_is_sent_with() {
    let cleaner: Cleaner<'static> = serde_json::from_str(
        r#"{"actions":[{"If":{"if":{"FlagIsSet":"kill"},"then":{"Error":"killed"}}}]}"#,
    )
    .expect("the cleaner to parse");
    let config = ServerConfig {
        cleaner,
        config_string: String::new(),
        threads: 2,
        max_json_size: 1 << 20,
    };
    let without_diff = clean(
        &config,
        BulkJob {
            jobs: vec![url_job("https://example.com/")],
            context: JobContext::default(),
            params_diff: None,
        },
    );
    assert_eq!(
        without_diff.urls[0],
        Ok(Ok("https://example.com/".to_string()))
    );
    let diff: ParamsDiff =
        serde_json::from_str(r#"{"flags":["kill"]}"#).expect("the diff to parse");
    let with_diff = clean(
        &config,
        BulkJob {
            jobs: vec![url_job("https://example.com/")],
            context: JobContext::default(),
            params_diff: Some(diff),
        },
    );
    let run = with_diff.urls[0].as_ref().expect("builds fine");
    let err = run.as_ref().expect_err("the flag kills the run");
    assert!(err.message.contains("killed"));
}

#[test]
fn pool_width_zero_resolves_to_the_detected_parallelism() {
    assert_eq!(resolve_pool_width(0, 8), 8);
    assert_eq!(resolve_pool_width(3, 8), 3);
    assert_eq!(resolve_pool_width(1, 1), 1);
}

#[test]
fn batch_ids_count_up_from_zero() {
    let mut state = ServerState {
        config: ServerConfig {
            cleaner: test_cleaner(),
            config_string: String::new(),
            threads: 1,
            max_json_size: 1024,
        },
        bulk_jobs_count: 0,
    };
    assert_eq!(state.next_batch_id(), 0);
    assert_eq!(state.next_batch_id(), 1);
    assert_eq!(state.next_batch_id(), 2);
    assert_eq!(state.bulk_jobs_count, 3);
}
