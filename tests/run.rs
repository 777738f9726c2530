use loadgen::body::{body_action, BodyAction, BodyBuffer};
use loadgen::counter::WorkCounter;
use loadgen::dispatch::{Dispatcher, WorkerState};
use loadgen::headers::{parse_header, parse_headers};
use loadgen::report::{exit_status, pool_size, report_quantiles_permille};
use loadgen::stats::{exchange_succeeded, RunStats};
use quantiles::ckms::CKMS;

fn fresh_stats(count: u64) -> RunStats {
    RunStats::new(count, CKMS::<u32>::new(0.001)).unwrap()
}

/// Runs `count` units over `tasks` workers that take turns on one counter;
/// each worker records its units in reverse order of claiming, so the
/// completion order differs with the number of workers.
fn run_pool(count: u64, tasks: usize, fails: &dyn Fn(u64) -> bool) -> (RunStats, Vec<u64>) {
    let mut counter = WorkCounter::new(count);
    let mut stats = fresh_stats(count);
    let mut per_worker: Vec<Vec<u64>> = vec![Vec::new(); tasks];
    let mut exhausted = vec![false; tasks];
    while exhausted.iter().any(|e| !e) {
        for w in 0..tasks {
            if exhausted[w] {
                continue;
            }
            match counter.claim() {
                Some(i) => per_worker[w].push(i),
                None => exhausted[w] = true,
            }
        }
    }
    let mut claimed = Vec::new();
    for units in per_worker {
        for &i in units.iter().rev() {
            claimed.push(i);
            let status = if fails(i) { 500 } else { 200 };
            stats.record(i, Some(status), 10_000, format!("status {status} for unit {i}"));
        }
    }
    (stats, claimed)
}

#[test]
fn counter_hands_out_each_index_once() {
    let mut c = WorkCounter::new(5);
    for i in 1..=5u64 {
        assert_eq!(c.claim(), Some(i));
    }
    assert_eq!(c.claim(), None);
    assert_eq!(c.claim(), None);
    assert_eq!(c.total(), 5);
}

#[test]
fn counter_with_no_units_is_exhausted() {
    let mut c = WorkCounter::new(0);
    assert_eq!(c.claim(), None);
}

#[test]
fn pool_claims_cover_range_exactly() {
    for tasks in [1usize, 3, 8, 20] {
        let (_, mut claimed) = run_pool(13, tasks, &|_| false);
        claimed.sort();
        assert_eq!(claimed, (1..=13).collect::<Vec<u64>>());
    }
}

#[test]
fn totals_same_for_one_and_eight_workers() {
    let fails = |i: u64| i % 3 == 0;
    let (one, order_one) = run_pool(20, 1, &fails);
    let (eight, order_eight) = run_pool(20, 8, &fails);
    assert_ne!(order_one, order_eight);
    assert_eq!(one.count(), eight.count());
    assert_eq!(one.successes(), eight.successes());
    assert_eq!(one.errors().len(), eight.errors().len());
    assert_eq!(one.successes(), 14);
    assert_eq!(one.errors().len(), 6);
    assert_eq!(one.latency_total_us(), eight.latency_total_us());
}

#[test]
fn all_succeed_in_ten_ms() {
    let (stats, _) = run_pool(10, 1, &|_| false);
    assert_eq!(stats.count(), 10);
    assert_eq!(stats.successes(), 10);
    assert_eq!(stats.errors().len(), 0);
    assert_eq!(stats.sketch().query(0.5).map(|r| r.1), Some(10_000));
    assert_eq!(stats.mean_latency_us(), 10_000);
    assert_eq!(exit_status(&stats), 0);
}

#[test]
fn malformed_header_aborts_before_requests() {
    let args = vec!["Accept: */*".to_string(), "NoColonHere".to_string()];
    assert_eq!(parse_headers(&args).unwrap_err(), 1);
    let stats = fresh_stats(3);
    assert_eq!(stats.errors().len(), 0);
}

#[test]
fn failures_on_two_and_four() {
    let mut stats = fresh_stats(5);
    let latencies = [1_000u64, 0, 3_000, 0, 5_000];
    for i in 1..=5u64 {
        let status = if i == 2 || i == 4 { 500 } else { 200 };
        let ok = stats.record(i, Some(status), latencies[(i - 1) as usize], "x".to_string());
        assert_eq!(ok, status == 200);
    }
    let failed: Vec<u64> = stats.errors().iter().map(|e| e.index).collect();
    assert_eq!(failed, vec![2, 4]);
    assert!(stats.errors().iter().all(|e| e.status == Some(500)));
    assert_eq!(stats.sketch().count(), 3);
    assert_eq!(stats.sketch().query(0.0).map(|r| r.1), Some(1_000));
    assert_eq!(stats.sketch().query(1.0).map(|r| r.1), Some(5_000));
    assert_eq!(stats.latency_total_us(), 9_000);
    assert_eq!(exit_status(&stats), 1);
}

/// Runs `count` units that succeed with varying latencies, deciding each
/// per-request log line as a worker does; returns the aggregates and the
/// number of lines that would be logged.
fn run_logged(count: u64, silent: bool) -> (RunStats, usize) {
    let mut d = Dispatcher::new(count, 1);
    let mut stats = fresh_stats(count);
    let mut lines = 0usize;
    while let Some(i) = d.claim_for(0) {
        let ok = stats.record(i, Some(200), 1_000 * i, String::new());
        assert!(ok);
        if body_action(silent, Some(5)) != BodyAction::Skip {
            lines += 1;
        }
    }
    d.terminate(0);
    (stats, lines)
}

#[test]
fn silent_run_reports_the_same() {
    assert_eq!(body_action(true, None), BodyAction::Skip);
    assert_eq!(body_action(true, Some(0)), BodyAction::Skip);
    let (loud, loud_lines) = run_logged(3, false);
    let (quiet, quiet_lines) = run_logged(3, true);
    assert_eq!(loud_lines, 3);
    assert_eq!(quiet_lines, 0);
    assert_eq!(loud.count(), quiet.count());
    assert_eq!(loud.successes(), quiet.successes());
    assert_eq!(loud.latency_total_us(), quiet.latency_total_us());
    assert_eq!(loud.mean_latency_us(), quiet.mean_latency_us());
    for phi in [0.0, 0.01, 0.25, 0.5, 0.75, 0.99, 1.0] {
        assert_eq!(loud.sketch().query(phi), quiet.sketch().query(phi));
    }
    assert_eq!(loud.sketch().count(), 3);
    assert_eq!(exit_status(&loud), exit_status(&quiet));
    assert_eq!(exit_status(&quiet), 0);
}

#[test]
fn all_failing_run_has_empty_sketch() {
    let (stats, _) = run_pool(4, 2, &|_| true);
    assert_eq!(stats.errors().len(), 4);
    assert_eq!(stats.successes(), 0);
    assert_eq!(stats.sketch().count(), 0);
    assert_eq!(stats.sketch().query(0.5), None);
    assert_eq!(exit_status(&stats), 1);
}

#[test]
fn quantiles_do_not_decrease() {
    let n: u64 = 500;
    let mut stats = fresh_stats(n);
    for i in 0..n {
        stats.record(i + 1, Some(200), (i * 7919) % 1_000 + 1, String::new());
    }
    let mut last = 0u32;
    for k in 0..=100 {
        let v = stats.sketch().query(k as f64 / 100.0).unwrap().1;
        assert!(v >= last);
        last = v;
    }
}

#[test]
fn quantile_rank_within_error_bound() {
    let m: u64 = 10_000;
    let eps = 0.01;
    let mut stats = RunStats::new(m, CKMS::<u32>::new(eps)).unwrap();
    for i in 0..m {
        // a permutation of 1..=m
        stats.record(i + 1, Some(200), (i * 7_919) % m + 1, String::new());
    }
    for phi in [0.0, 0.01, 0.25, 0.5, 0.75, 0.99, 1.0] {
        let v = stats.sketch().query(phi).unwrap().1 as f64;
        let true_rank = phi * m as f64;
        assert!((v - true_rank).abs() <= eps * m as f64, "phi {phi}: {v}");
    }
}

#[test]
fn running_mean_matches_sum_over_n() {
    let latencies = [1_200u64, 3_400, 5_900, 800];
    let mut stats = fresh_stats(4);
    for (k, l) in latencies.iter().enumerate() {
        stats.record(k as u64 + 1, Some(204), *l, String::new());
    }
    assert_eq!(stats.latency_total_us(), 11_300);
    assert_eq!(stats.mean_latency_us(), 2_825);
    let mean = stats.latency_total_us() as f64 / stats.count() as f64;
    let expected = latencies.iter().sum::<u64>() as f64 / 4.0;
    assert!(((mean - expected) / expected).abs() < 1e-9);
}

#[test]
fn mean_is_over_all_units() {
    let mut stats = fresh_stats(4);
    stats.record(1, Some(200), 4_000, String::new());
    stats.record(2, None, 9_000, "timed out".to_string());
    assert_eq!(stats.latency_total_us(), 4_000);
    assert_eq!(stats.mean_latency_us(), 1_000);
    assert_eq!(stats.errors()[0].status, None);
    assert_eq!(stats.errors()[0].message, "timed out");
}

#[test]
fn long_latency_held_in_sketch() {
    let mut stats = fresh_stats(1);
    stats.record(1, Some(200), 5_000_000_000, String::new());
    assert_eq!(stats.sketch().query(1.0).map(|r| r.1), Some(u32::MAX));
    assert_eq!(stats.latency_total_us(), 5_000_000_000);
}

#[test]
fn stats_refuse_used_sketch() {
    let mut sketch = CKMS::<u32>::new(0.001);
    sketch.insert(3);
    assert!(RunStats::new(2, sketch).is_none());
}

#[test]
fn success_is_two_hundreds_only() {
    assert!(exchange_succeeded(Some(200)));
    assert!(exchange_succeeded(Some(299)));
    assert!(!exchange_succeeded(Some(199)));
    assert!(!exchange_succeeded(Some(300)));
    assert!(!exchange_succeeded(Some(404)));
    assert!(!exchange_succeeded(Some(500)));
    assert!(!exchange_succeeded(None));
}

#[test]
fn header_split_and_trimmed() {
    let h = parse_header("  Content-Type :  text/plain ").unwrap();
    assert_eq!(h.name, "Content-Type");
    assert_eq!(h.value, "text/plain");
    let h = parse_header("X-Time: 12:30").unwrap();
    assert_eq!(h.name, "X-Time");
    assert_eq!(h.value, "12:30");
    let h = parse_header(":").unwrap();
    assert_eq!(h.name, "");
    assert_eq!(h.value, "");
    assert!(parse_header("NoColonHere").is_none());
}

#[test]
fn header_list_parsed_in_order() {
    let args = vec!["A: 1".to_string(), "B:2".to_string()];
    let hs = parse_headers(&args).unwrap();
    assert_eq!(hs.len(), 2);
    assert_eq!((hs[0].name.as_str(), hs[0].value.as_str()), ("A", "1"));
    assert_eq!((hs[1].name.as_str(), hs[1].value.as_str()), ("B", "2"));
    assert_eq!(parse_headers(&Vec::new()).unwrap().len(), 0);
    let bad = vec!["NoColonHere".to_string(), "A: 1".to_string()];
    assert_eq!(parse_headers(&bad).unwrap_err(), 0);
}

#[test]
fn body_actions() {
    assert_eq!(body_action(false, Some(0)), BodyAction::LogStatusOnly);
    assert_eq!(body_action(false, Some(12)), BodyAction::Drain);
    assert_eq!(body_action(false, None), BodyAction::Drain);
}

#[test]
fn body_buffer_reused() {
    let mut b = BodyBuffer::new();
    assert!(b.is_empty());
    b.append(b"hel");
    b.append(b"lo");
    assert_eq!(b.as_slice(), b"hello");
    b.clear();
    assert!(b.is_empty());
    b.append(b"");
    assert!(b.is_empty());
}

#[test]
fn pool_size_defaults() {
    assert_eq!(pool_size(Some(3), Some(16)), 3);
    assert_eq!(pool_size(None, Some(2)), 8);
    assert_eq!(pool_size(None, None), 4);
    assert_eq!(pool_size(None, Some(usize::MAX / 2)), usize::MAX);
}

#[test]
fn report_quantile_points() {
    assert_eq!(report_quantiles_permille(), vec![0, 10, 250, 500, 750, 990, 1000]);
}

#[test]
fn dispatcher_workers_end_terminated() {
    let mut d = Dispatcher::new(7, 3);
    assert_eq!(d.tasks(), 3);
    let mut claimed = Vec::new();
    let mut running = vec![true; 3];
    while running.iter().any(|r| *r) {
        for w in 0..3 {
            if running[w] {
                match d.claim_for(w) {
                    Some(i) => claimed.push(i),
                    None => {
                        running[w] = false;
                        assert!(!d.all_terminated());
                        d.terminate(w);
                    }
                }
            }
        }
    }
    assert!(d.all_terminated());
    assert_eq!(claimed, (1..=7).collect::<Vec<u64>>());
    assert_eq!(WorkerState::Terminated, WorkerState::Terminated);
}

#[test]
fn dispatcher_more_workers_than_units() {
    let mut d = Dispatcher::new(2, 5);
    assert_eq!(d.claim_for(0), Some(1));
    assert_eq!(d.claim_for(1), Some(2));
    for w in 2..5 {
        assert_eq!(d.claim_for(w), None);
        d.terminate(w);
    }
    assert_eq!(d.claim_for(0), None);
    assert_eq!(d.claim_for(1), None);
    d.terminate(0);
    assert!(!d.all_terminated());
    d.terminate(1);
    assert!(d.all_terminated());
}

#[test]
fn header_trims_unicode_white_space() {
    let h = parse_header("\u{3000}X-Id\u{a0}:\t42\u{2028}\u{85}").unwrap();
    assert_eq!(h.name, "X-Id");
    assert_eq!(h.value, "42");
    let h = parse_header("a b : c d").unwrap();
    assert_eq!(h.name, "a b");
    assert_eq!(h.value, "c d");
}
