use std::time::Duration;
use validator_metrics::{
    pull_metrics, pull_metrics_exposition, rpc_method_slot, PullMetrics, RPC_METHOD_LABELS,
    RPC_METHOD_SLOTS,
};

fn seconds(micros: u64) -> String {
    (micros as f64 / 1_000_000.0).to_string()
}

#[test]
fn updates_are_reflected_at_scrape_time() {
    let mut metrics = PullMetrics::default();
    metrics.accounts_index_count_in_mem = 42;
    metrics.accounts_index_capacity_in_mem = 84;
    metrics.accounts_index_estimate_mem_bytes = 168;
    metrics.accounts_scan_active = 99;
    metrics.record_accounts_scan_start();
    metrics.accounts_scan_max_root_distance = 7;
    metrics.store_jemalloc_stats(10, 20, 30, 40);
    metrics.record_rpc_request(3);
    metrics.record_rpc_completion(3, Duration::from_micros(1_500_000), Some(true));
    let output = metrics.exposition(seconds);
    assert!(output.contains("agave_accounts_index_count_in_mem 42\n"));
    assert!(output.contains("agave_accounts_index_capacity_in_mem 84\n"));
    assert!(output.contains("agave_accounts_index_estimate_mem_bytes 168\n"));
    assert!(output.contains("agave_accounts_scan_active 1\n"));
    assert!(output.contains("agave_accounts_scan_started_total 1\n"));
    assert!(output.contains("agave_accounts_scan_completed_total 0\n"));
    assert!(output.contains("agave_accounts_scan_max_root_distance 7\n"));
    assert!(output.contains("agave_jemalloc_allocated_bytes 10\n"));
    assert!(output.contains("agave_jemalloc_active_bytes 20\n"));
    assert!(output.contains("agave_jemalloc_resident_bytes 30\n"));
    assert!(output.contains("agave_jemalloc_retained_bytes 40\n"));
    assert!(!output.contains("agave_jemalloc_metadata_bytes"));
    assert!(output.contains("agave_rpc_requests_total{method=\"getHealth\"} 1\n"));
    assert!(output.contains(
        "agave_rpc_responses_total{method=\"getHealth\",outcome=\"success\"} 1\n"
    ));
    assert!(output.contains(
        "agave_rpc_responses_total{method=\"getHealth\",outcome=\"error\"} 0\n"
    ));
    assert!(output.contains("agave_rpc_duration_seconds_total{method=\"getHealth\"} 1.5\n"));
    assert!(output.contains("agave_rpc_in_flight{method=\"getHealth\"} 1\n"));
}

#[test]
fn scan_lifecycle_is_live_and_balanced() {
    let mut metrics = PullMetrics::default();
    metrics.record_accounts_scan_start();
    metrics.record_accounts_scan_start();
    metrics.record_accounts_scan_complete();
    let output = metrics.exposition(seconds);
    assert!(output.contains("agave_accounts_scan_active 1\n"));
    assert!(output.contains("agave_accounts_scan_started_total 2\n"));
    assert!(output.contains("agave_accounts_scan_completed_total 1\n"));
}

#[test]
fn totals_and_in_flight_are_independent() {
    let mut metrics = PullMetrics::default();
    let slot = rpc_method_slot("getBalance");
    metrics.record_rpc_request(slot);
    metrics.record_rpc_request(slot);
    metrics.finish_rpc_request(slot);
    let output = metrics.exposition(seconds);
    assert!(output.contains("agave_rpc_requests_total{method=\"getBalance\"} 2\n"));
    assert!(output.contains("agave_rpc_in_flight{method=\"getBalance\"} 1\n"));
}

#[test]
fn response_outcomes_are_bounded_and_duration_is_cumulative() {
    let mut metrics = PullMetrics::default();
    let slot = rpc_method_slot("getProgramAccounts");
    metrics.record_rpc_completion(slot, Duration::from_millis(250), Some(true));
    metrics.record_rpc_completion(slot, Duration::from_millis(750), Some(false));
    metrics.record_rpc_completion(slot, Duration::from_millis(500), None);
    let output = metrics.exposition(seconds);
    assert!(output.contains(
        "agave_rpc_responses_total{method=\"getProgramAccounts\",outcome=\"success\"} 1\n"
    ));
    assert!(output.contains(
        "agave_rpc_responses_total{method=\"getProgramAccounts\",outcome=\"error\"} 1\n"
    ));
    assert!(output.contains(
        "agave_rpc_duration_seconds_total{method=\"getProgramAccounts\"} 1.5\n"
    ));
}

#[test]
fn unknown_methods_use_the_bounded_other_slot() {
    let mut metrics = PullMetrics::default();
    let slot = rpc_method_slot("notRegistered");
    assert_eq!(slot, RPC_METHOD_SLOTS - 1);
    metrics.record_rpc_request(slot);
    metrics.record_rpc_completion(slot, Duration::from_micros(10), Some(false));
    metrics.finish_rpc_request(slot);
    let output = metrics.exposition(seconds);
    assert!(output.contains("agave_rpc_requests_total{method=\"other\"} 1\n"));
    assert!(output.contains("agave_rpc_in_flight{method=\"other\"} 0\n"));
    assert!(output.contains(
        "agave_rpc_responses_total{method=\"other\",outcome=\"error\"} 1\n"
    ));
    assert!(!output.contains("method_"));
}

#[test]
fn finishing_without_an_in_flight_request_does_not_underflow() {
    let mut metrics = PullMetrics::default();
    metrics.finish_rpc_request(rpc_method_slot("getHealth"));
    let output = metrics.exposition(seconds);
    assert!(output.contains("agave_rpc_in_flight{method=\"getHealth\"} 0\n"));
}

#[test]
fn catalog_cardinality_is_bounded() {
    assert!(RPC_METHOD_SLOTS <= 128);
    assert_eq!(RPC_METHOD_SLOTS, RPC_METHOD_LABELS.len());
}

#[test]
fn every_label_has_its_own_slot() {
    for slot in 0..RPC_METHOD_SLOTS {
        assert_eq!(rpc_method_slot(RPC_METHOD_LABELS[slot]), slot);
    }
    assert_eq!(rpc_method_slot("getBlocks"), 43);
    assert_eq!(rpc_method_slot("getblocks"), RPC_METHOD_SLOTS - 1);
    assert_eq!(rpc_method_slot(""), RPC_METHOD_SLOTS - 1);
    assert_eq!(rpc_method_slot("getHealth\u{e9}"), RPC_METHOD_SLOTS - 1);
}

#[test]
fn an_unused_scrape_is_all_zeros_in_order() {
    let output = PullMetrics::default().exposition(seconds);
    let mut expected = String::from(
        "agave_accounts_index_count_in_mem 0\n\
         agave_accounts_index_capacity_in_mem 0\n\
         agave_accounts_index_estimate_mem_bytes 0\n\
         agave_accounts_scan_active 0\n\
         agave_accounts_scan_started_total 0\n\
         agave_accounts_scan_completed_total 0\n\
         agave_accounts_scan_max_root_distance 0\n\
         agave_jemalloc_allocated_bytes 0\n\
         agave_jemalloc_resident_bytes 0\n\
         agave_jemalloc_active_bytes 0\n\
         agave_jemalloc_retained_bytes 0\n",
    );
    for label in RPC_METHOD_LABELS {
        expected.push_str(&format!("agave_rpc_requests_total{{method=\"{label}\"}} 0\n"));
        expected.push_str(&format!(
            "agave_rpc_responses_total{{method=\"{label}\",outcome=\"success\"}} 0\n"
        ));
        expected.push_str(&format!(
            "agave_rpc_responses_total{{method=\"{label}\",outcome=\"error\"}} 0\n"
        ));
        expected.push_str(&format!("agave_rpc_duration_seconds_total{{method=\"{label}\"}} 0\n"));
        expected.push_str(&format!("agave_rpc_in_flight{{method=\"{label}\"}} 0\n"));
    }
    assert_eq!(output, expected);
    assert_eq!(output.lines().count(), 281);
}

#[test]
fn numbers_are_written_in_full() {
    let mut metrics = PullMetrics::default();
    metrics.store_jemalloc_stats(u64::MAX, 10, 100, 9);
    let output = metrics.exposition(seconds);
    assert!(output.contains("agave_jemalloc_allocated_bytes 18446744073709551615\n"));
    assert!(output.contains("agave_jemalloc_active_bytes 10\n"));
    assert!(output.contains("agave_jemalloc_resident_bytes 100\n"));
    assert!(output.contains("agave_jemalloc_retained_bytes 9\n"));
}

#[test]
fn completing_a_scan_that_never_started_stays_at_zero() {
    let mut metrics = PullMetrics::default();
    metrics.record_accounts_scan_complete();
    let output = metrics.exposition(seconds);
    assert!(output.contains("agave_accounts_scan_active 0\n"));
    assert!(output.contains("agave_accounts_scan_completed_total 1\n"));
}

#[test]
fn slots_outside_the_catalog_count_nothing() {
    let mut metrics = PullMetrics::default();
    for slot in [RPC_METHOD_SLOTS, usize::MAX] {
        metrics.record_rpc_request(slot);
        metrics.record_rpc_completion(slot, Duration::from_secs(1), Some(true));
        metrics.finish_rpc_request(slot);
    }
    assert_eq!(metrics.exposition(seconds), PullMetrics::default().exposition(seconds));
}

#[test]
fn durations_saturate() {
    let mut metrics = PullMetrics::default();
    metrics.record_rpc_completion(0, Duration::MAX, None);
    let output = metrics.exposition(|micros| micros.to_string());
    assert!(output.contains(
        "agave_rpc_duration_seconds_total{method=\"getBalance\"} 18446744073709551615\n"
    ));
    metrics.record_rpc_completion_micros(0, 1, None);
    metrics.record_rpc_completion_micros(1, 7, None);
    let output = metrics.exposition(|micros| micros.to_string());
    assert!(output.contains(
        "agave_rpc_duration_seconds_total{method=\"getBalance\"} 18446744073709551615\n"
    ));
    assert!(output.contains("agave_rpc_duration_seconds_total{method=\"getEpochInfo\"} 7\n"));
}

#[test]
fn durations_are_counted_in_whole_microseconds() {
    let mut metrics = PullMetrics::default();
    metrics.record_rpc_completion(0, Duration::from_nanos(2_999), None);
    metrics.record_rpc_completion(0, Duration::from_nanos(1_999), None);
    let output = metrics.exposition(|micros| micros.to_string());
    assert!(output.contains("agave_rpc_duration_seconds_total{method=\"getBalance\"} 3\n"));
}

#[test]
fn sampled_scans_are_not_exported() {
    let mut metrics = PullMetrics::default();
    metrics.accounts_scan_active = 99;
    assert_eq!(metrics.exposition(seconds), PullMetrics::default().exposition(seconds));
}

#[test]
fn the_registry_is_made_once_and_keeps_its_metrics() {
    let mut registry: Option<PullMetrics> = None;
    assert_eq!(
        pull_metrics_exposition(&mut registry, seconds),
        PullMetrics::default().exposition(seconds)
    );
    assert!(registry.is_some());
    pull_metrics(&mut registry).record_accounts_scan_start();
    pull_metrics(&mut registry).record_accounts_scan_start();
    let output = pull_metrics_exposition(&mut registry, seconds);
    assert!(output.contains("agave_accounts_scan_active 2\n"));
}

#[test]
fn the_registry_shows_what_was_stored_in_it() {
    let mut registry: Option<PullMetrics> = None;
    pull_metrics(&mut registry).store_jemalloc_stats(10, 20, 30, 40);
    pull_metrics(&mut registry).accounts_scan_active = 99;
    let output = pull_metrics_exposition(&mut registry, seconds);
    assert!(output.contains("agave_jemalloc_resident_bytes 30\n"));
    assert!(!output.contains("99"));
    assert_eq!(output, pull_metrics(&mut registry).exposition(seconds));
}

#[test]
fn two_scrapes_without_an_update_are_equal() {
    let mut registry: Option<PullMetrics> = None;
    let metrics = pull_metrics(&mut registry);
    metrics.record_rpc_request(5);
    metrics.record_rpc_completion(5, Duration::from_micros(1_250_000), Some(false));
    assert_eq!(metrics.exposition(seconds), metrics.exposition(seconds));
    assert_eq!(
        pull_metrics_exposition(&mut registry, seconds),
        pull_metrics_exposition(&mut registry, seconds)
    );
}

fn series(output: &str) -> Vec<String> {
    output.lines().map(|line| line.rsplit_once(' ').unwrap().0.to_string()).collect()
}

#[test]
fn every_scrape_has_the_same_distinct_series() {
    let mut metrics = PullMetrics::default();
    let before = series(&metrics.exposition(seconds));
    assert_eq!(before.len(), 281);
    let mut sorted = before.clone();
    sorted.sort();
    sorted.dedup();
    assert_eq!(sorted.len(), 281);

    metrics.store_jemalloc_stats(1, 22, 333, u64::MAX);
    metrics.record_accounts_scan_start();
    for slot in 0..RPC_METHOD_SLOTS {
        metrics.record_rpc_request(slot);
        metrics.record_rpc_completion(slot, Duration::from_micros(slot as u64), Some(slot > 9));
    }
    assert_eq!(series(&metrics.exposition(seconds)), before);
}

#[test]
fn every_line_holds_the_value_of_its_series() {
    let mut metrics = PullMetrics::default();
    metrics.store_jemalloc_stats(1, 22, 333, 4444);
    metrics.record_rpc_request(1);
    metrics.record_rpc_completion_micros(1, 77, Some(true));
    let output = metrics.exposition(|micros| micros.to_string());
    let lines: Vec<&str> = output.lines().collect();
    assert_eq!(lines[8], "agave_jemalloc_resident_bytes 333");
    assert_eq!(lines[16], "agave_rpc_requests_total{method=\"getEpochInfo\"} 1");
    assert_eq!(
        lines[17],
        "agave_rpc_responses_total{method=\"getEpochInfo\",outcome=\"success\"} 1"
    );
    assert_eq!(
        lines[18],
        "agave_rpc_responses_total{method=\"getEpochInfo\",outcome=\"error\"} 0"
    );
    assert_eq!(lines[19], "agave_rpc_duration_seconds_total{method=\"getEpochInfo\"} 77");
    assert_eq!(lines[20], "agave_rpc_in_flight{method=\"getEpochInfo\"} 1");
}
