//! What holds of the metrics across several updates, and of every scrape.

use vstd::prelude::*;

use crate::exposition;
use crate::pull_metrics;
use crate::pull_metrics::{MetricsView, PullMetrics};
use crate::registry;
use crate::rpc_methods::RPC_METHOD_SLOTS;
use crate::series_laws;

verus! {

/// The metrics after a number of scans have started (`true`) and completed (`false`).
pub open spec fn after_scans(metrics: MetricsView, scans: Seq<bool>) -> MetricsView
    decreases scans.len(),
{
    if scans.len() == 0 {
        metrics
    } else if scans.last() {
        after_scans(metrics, scans.drop_last()).scan_started()
    } else {
        after_scans(metrics, scans.drop_last()).scan_completed()
    }
}

/// The metrics after a number of requests in `slot` have arrived (`true`) and finished
/// (`false`).
pub open spec fn after_requests(metrics: MetricsView, slot: int, requests: Seq<bool>) -> MetricsView
    decreases requests.len(),
{
    if requests.len() == 0 {
        metrics
    } else if requests.last() {
        after_requests(metrics, slot, requests.drop_last()).rpc_requested(slot)
    } else {
        after_requests(metrics, slot, requests.drop_last()).rpc_finished(slot)
    }
}

/// How many of the events are beginnings.
pub open spec fn begun(events: Seq<bool>) -> int
    decreases events.len(),
{
    if events.len() == 0 {
        0
    } else {
        begun(events.drop_last()) + if events.last() {
            1int
        } else {
            0int
        }
    }
}

/// By how many the beginnings exceed the ends.
pub open spec fn balance(events: Seq<bool>) -> int {
    2 * begun(events) - events.len()
}

/// Whether a gauge at `value` can follow the events: no end comes without a beginning,
/// and no more is going on than can be counted.
pub open spec fn can_follow(value: u64, events: Seq<bool>) -> bool {
    forall|n: int|
        0 <= n <= events.len() ==> 0 <= value + balance(#[trigger] events.take(n)) <= u64::MAX
}

/// The gauge of active scans is live and balanced: it is what it was, plus the scans that
/// have started, less those that have completed; the totals count both.
pub proof fn law_scans_are_balanced(metrics: MetricsView, scans: Seq<bool>)
    requires
        can_follow(metrics.accounts_scan_active_live, scans),
        metrics.accounts_scan_started_total + scans.len() <= u64::MAX,
        metrics.accounts_scan_completed_total + scans.len() <= u64::MAX,
    ensures
        ({
            let after = after_scans(metrics, scans);
            &&& after.accounts_scan_active_live == metrics.accounts_scan_active_live + balance(
                scans,
            )
            &&& after.accounts_scan_started_total == metrics.accounts_scan_started_total + begun(
                scans,
            )
            &&& after.accounts_scan_completed_total == metrics.accounts_scan_completed_total + (
            scans.len() - begun(scans))
            &&& 0 <= begun(scans) <= scans.len()
        }),
    decreases scans.len(),
{
    if scans.len() > 0 {
        let before = scans.drop_last();
        lemma_can_follow(metrics.accounts_scan_active_live, scans);
        law_scans_are_balanced(metrics, before);
    }
}

/// The gauge of requests in flight is balanced in the same way, and independent of the
/// total of requests, which finishing does not change.
pub proof fn law_requests_are_balanced(metrics: MetricsView, slot: int, requests: Seq<bool>)
    requires
        metrics.wf(),
        0 <= slot < RPC_METHOD_SLOTS,
        can_follow(metrics.rpc_in_flight_by_method[slot], requests),
        metrics.rpc_calls[slot] + requests.len() <= u64::MAX,
    ensures
        ({
            let after = after_requests(metrics, slot, requests);
            &&& after.wf()
            &&& after.rpc_in_flight_by_method[slot] == metrics.rpc_in_flight_by_method[slot]
                + balance(requests)
            &&& after.rpc_calls[slot] == metrics.rpc_calls[slot] + begun(requests)
            &&& 0 <= begun(requests) <= requests.len()
        }),
    decreases requests.len(),
{
    if requests.len() > 0 {
        let before = requests.drop_last();
        lemma_can_follow(metrics.rpc_in_flight_by_method[slot], requests);
        law_requests_are_balanced(metrics, slot, before);
    }
}

/// A gauge that can follow the events can follow all but the last, and is between its
/// bounds after all of them.
proof fn lemma_can_follow(value: u64, events: Seq<bool>)
    requires
        can_follow(value, events),
        events.len() > 0,
    ensures
        can_follow(value, events.drop_last()),
        0 <= value + balance(events) <= u64::MAX,
{
    assert(events.take(events.len() as int) =~= events);
    assert forall|n: int| 0 <= n <= events.drop_last().len() implies 0 <= value + balance(
        #[trigger] events.drop_last().take(n),
    ) <= u64::MAX by {
        assert(events.drop_last().take(n) =~= events.take(n));
    }
}

/// Finishing a request that was never begun changes nothing: the gauge stays at zero.
pub proof fn law_finishing_nothing_changes_nothing(metrics: MetricsView, slot: int)
    requires
        metrics.wf(),
        0 <= slot < RPC_METHOD_SLOTS,
        metrics.rpc_in_flight_by_method[slot] == 0,
    ensures
        metrics.rpc_finished(slot) == metrics,
{
    assert(metrics.rpc_finished(slot) =~= metrics);
}

/// Completing a scan that was never begun leaves the gauge at zero.
pub proof fn law_completing_nothing_stays_at_zero(metrics: MetricsView)
    requires
        metrics.accounts_scan_active_live == 0,
    ensures
        metrics.scan_completed().accounts_scan_active_live == 0,
{
}

/// A slot outside the catalog counts nothing.
pub proof fn law_unknown_slot_counts_nothing(
    metrics: MetricsView,
    slot: int,
    micros: u128,
    success: Option<bool>,
)
    requires
        metrics.wf(),
        slot >= RPC_METHOD_SLOTS,
    ensures
        metrics.rpc_requested(slot) == metrics,
        metrics.rpc_completed(slot, micros, success) == metrics,
        metrics.rpc_finished(slot) == metrics,
{
}

/// What is recorded for one method is not counted for another.
pub proof fn law_slots_are_independent(
    metrics: MetricsView,
    slot: int,
    other: int,
    micros: u128,
    success: Option<bool>,
)
    requires
        metrics.wf(),
        0 <= other < RPC_METHOD_SLOTS,
        slot != other,
    ensures
        metrics.rpc_requested(slot).rpc_calls[other] == metrics.rpc_calls[other],
        metrics.rpc_requested(slot).rpc_in_flight_by_method[other]
            == metrics.rpc_in_flight_by_method[other],
        metrics.rpc_finished(slot).rpc_in_flight_by_method[other]
            == metrics.rpc_in_flight_by_method[other],
        ({
            let after = metrics.rpc_completed(slot, micros, success);
            &&& after.rpc_duration_micros[other] == metrics.rpc_duration_micros[other]
            &&& after.rpc_responses_success[other] == metrics.rpc_responses_success[other]
            &&& after.rpc_responses_error[other] == metrics.rpc_responses_error[other]
        }),
{
}

/// A response is counted under one outcome, a request that was not answered under none.
pub proof fn law_outcomes_are_exclusive(
    metrics: MetricsView,
    slot: int,
    micros: u128,
    success: Option<bool>,
)
    requires
        metrics.wf(),
        0 <= slot < RPC_METHOD_SLOTS,
        metrics.rpc_responses_success[slot] < u64::MAX,
        metrics.rpc_responses_error[slot] < u64::MAX,
    ensures
        ({
            let after = metrics.rpc_completed(slot, micros, success);
            &&& after.rpc_responses_success[slot] - metrics.rpc_responses_success[slot] == (
            if success == Some(true) {
                1int
            } else {
                0int
            })
            &&& after.rpc_responses_error[slot] - metrics.rpc_responses_error[slot] == (
            if success == Some(false) {
                1int
            } else {
                0int
            })
        }),
{
}

/// Times add up, in any order and grouping, and never go down; a sum that cannot be
/// counted stays at the largest number.
pub proof fn law_duration_is_cumulative(total: u64, first: u128, second: u128)
    requires
        first + second <= u128::MAX,
    ensures
        pull_metrics::accumulated(total, first) >= total,
        pull_metrics::accumulated(pull_metrics::accumulated(total, first), second)
            == pull_metrics::accumulated(total, (first + second) as u128),
        pull_metrics::accumulated(pull_metrics::accumulated(total, first), second)
            == pull_metrics::accumulated(pull_metrics::accumulated(total, second), first),
        pull_metrics::accumulated(u64::MAX, first) == u64::MAX,
{
}

/// Whether `line` occurs in `text`.
pub open spec fn shows(text: Seq<char>, line: Seq<char>) -> bool {
    exists|at: int|
        0 <= at && at + line.len() <= text.len() && #[trigger] text.subrange(at, at + line.len())
            == line
}

/// What occurs in a part of a text occurs in the text.
proof fn lemma_shows(before: Seq<char>, line: Seq<char>, after: Seq<char>)
    ensures
        shows(before + line + after, line),
{
    let text = before + line + after;
    let at = before.len() as int;
    assert(text.subrange(at, at + line.len()) =~= line);
}

/// A scrape shows every value without labels as it is at the time of the scrape.
pub proof fn law_scrape_shows_every_gauge(metrics: MetricsView, seconds: Seq<Seq<char>>)
    ensures
        ({
            let shown = |name: Seq<char>, value: u64|
                shows(
                    exposition::scrape(metrics, seconds),
                    exposition::gauge_line(name, value),
                );
            &&& shown(
                "agave_accounts_index_count_in_mem"@,
                metrics.accounts_index_count_in_mem,
            )
            &&& shown(
                "agave_accounts_index_capacity_in_mem"@,
                metrics.accounts_index_capacity_in_mem,
            )
            &&& shown(
                "agave_accounts_index_estimate_mem_bytes"@,
                metrics.accounts_index_estimate_mem_bytes,
            )
            &&& shown("agave_accounts_scan_active"@, metrics.accounts_scan_active_live)
            &&& shown("agave_accounts_scan_started_total"@, metrics.accounts_scan_started_total)
            &&& shown(
                "agave_accounts_scan_completed_total"@,
                metrics.accounts_scan_completed_total,
            )
            &&& shown(
                "agave_accounts_scan_max_root_distance"@,
                metrics.accounts_scan_max_root_distance,
            )
            &&& shown("agave_jemalloc_allocated_bytes"@, metrics.jemalloc_allocated_bytes)
            &&& shown("agave_jemalloc_resident_bytes"@, metrics.jemalloc_resident_bytes)
            &&& shown("agave_jemalloc_active_bytes"@, metrics.jemalloc_active_bytes)
            &&& shown("agave_jemalloc_retained_bytes"@, metrics.jemalloc_retained_bytes)
        }),
{
    let text = exposition::scrape(metrics, seconds);
    let lines = gauges(metrics);
    assert(exposition::gauge_lines(metrics) =~= joined(lines, 11)) by {
        reveal_with_fuel(joined, 12);
    }
    assert forall|n: int| 0 <= n < 11 implies shows(text, #[trigger] lines[n]) by {
        lemma_joined_shows(
            lines,
            11,
            n,
            exposition::method_lines(metrics, seconds, RPC_METHOD_SLOTS as nat),
        );
    }
    assert(shows(text, lines[0]) && shows(text, lines[1]) && shows(text, lines[2]) && shows(
        text,
        lines[3],
    ) && shows(text, lines[4]) && shows(text, lines[5]) && shows(text, lines[6]) && shows(
        text,
        lines[7],
    ) && shows(text, lines[8]) && shows(text, lines[9]) && shows(text, lines[10]));
}

/// The lines of the values without labels, one by one.
spec fn gauges(metrics: MetricsView) -> Seq<Seq<char>> {
    Seq::new(
        series_laws::gauge_count(),
        |n: int|
            exposition::gauge_line(
                series_laws::gauge_name(n),
                series_laws::gauge_value(metrics, n),
            ),
    )
}

/// The first `n` lines, joined.
spec fn joined(lines: Seq<Seq<char>>, n: nat) -> Seq<char>
    decreases n,
{
    if n == 0 {
        Seq::empty()
    } else {
        joined(lines, (n - 1) as nat) + lines[n - 1]
    }
}

/// Joined lines show each line, whatever follows them.
proof fn lemma_joined_shows(lines: Seq<Seq<char>>, n: nat, line: int, after: Seq<char>)
    requires
        0 <= line < n,
    ensures
        shows(joined(lines, n) + after, lines[line]),
    decreases n,
{
    let before = joined(lines, (n - 1) as nat);
    if line == n - 1 {
        lemma_shows(before, lines[line], after);
    } else {
        lemma_joined_shows(lines, (n - 1) as nat, line, lines[n - 1] + after);
        assert(before + (lines[n - 1] + after) =~= joined(lines, n) + after);
    }
}

/// A scrape shows every value of every method as it is at the time of the scrape.
pub proof fn law_scrape_shows_every_method(
    metrics: MetricsView,
    seconds: Seq<Seq<char>>,
    slot: int,
)
    requires
        0 <= slot < RPC_METHOD_SLOTS,
    ensures
        ({
            let text = exposition::scrape(metrics, seconds);
            &&& shows(text, exposition::requests_line(metrics, slot))
            &&& shows(text, exposition::success_line(metrics, slot))
            &&& shows(text, exposition::error_line(metrics, slot))
            &&& shows(text, exposition::duration_line(slot, seconds[slot]))
            &&& shows(text, exposition::in_flight_line(metrics, slot))
        }),
{
    lemma_method_shows(
        metrics,
        seconds,
        RPC_METHOD_SLOTS as nat,
        slot,
        exposition::gauge_lines(metrics),
        Seq::empty(),
    );
    assert(exposition::scrape(metrics, seconds) + Seq::<char>::empty() =~= exposition::scrape(
        metrics,
        seconds,
    ));
}

/// Five lines show each of them, whatever stands around them.
proof fn lemma_five_lines_show(
    before: Seq<char>,
    a: Seq<char>,
    b: Seq<char>,
    c: Seq<char>,
    d: Seq<char>,
    e: Seq<char>,
    after: Seq<char>,
)
    ensures
        ({
            let text = before + (a + b + c + d + e) + after;
            shows(text, a) && shows(text, b) && shows(text, c) && shows(text, d) && shows(text, e)
        }),
{
    let text = before + (a + b + c + d + e) + after;
    lemma_shows(before, a, b + c + d + e + after);
    assert(before + a + (b + c + d + e + after) =~= text);
    lemma_shows(before + a, b, c + d + e + after);
    assert(before + a + b + (c + d + e + after) =~= text);
    lemma_shows(before + a + b, c, d + e + after);
    assert(before + a + b + c + (d + e + after) =~= text);
    lemma_shows(before + a + b + c, d, e + after);
    assert(before + a + b + c + d + (e + after) =~= text);
    lemma_shows(before + a + b + c + d, e, after);
    assert(before + a + b + c + d + e + after =~= text);
}

/// The lines of the first slots show each value of each of them, whatever stands around
/// them.
proof fn lemma_method_shows(
    metrics: MetricsView,
    seconds: Seq<Seq<char>>,
    slots: nat,
    slot: int,
    before: Seq<char>,
    after: Seq<char>,
)
    requires
        0 <= slot < slots,
    ensures
        ({
            let text = before + exposition::method_lines(metrics, seconds, slots) + after;
            &&& shows(text, exposition::requests_line(metrics, slot))
            &&& shows(text, exposition::success_line(metrics, slot))
            &&& shows(text, exposition::error_line(metrics, slot))
            &&& shows(text, exposition::duration_line(slot, seconds[slot]))
            &&& shows(text, exposition::in_flight_line(metrics, slot))
        }),
    decreases slots,
{
    let text = before + exposition::method_lines(metrics, seconds, slots) + after;
    let earlier = exposition::method_lines(metrics, seconds, (slots - 1) as nat);
    let last = exposition::slot_lines(metrics, slots - 1, seconds[slots - 1]);
    if slot == slots - 1 {
        lemma_five_lines_show(
            before + earlier,
            exposition::requests_line(metrics, slot),
            exposition::success_line(metrics, slot),
            exposition::error_line(metrics, slot),
            exposition::duration_line(slot, seconds[slot]),
            exposition::in_flight_line(metrics, slot),
            after,
        );
        assert(before + earlier + last + after =~= text);
    } else {
        lemma_method_shows(metrics, seconds, (slots - 1) as nat, slot, before, last + after);
        assert(before + earlier + (last + after) =~= text);
    }
}

/// The sampled number of scans is not exported: it has no influence on a scrape.
pub proof fn law_sampled_scans_are_not_exported(
    metrics: MetricsView,
    sample: u64,
    seconds: Seq<Seq<char>>,
)
    ensures
        exposition::scrape(MetricsView { accounts_scan_active: sample, ..metrics }, seconds)
            == exposition::scrape(metrics, seconds),
{
    let other = MetricsView { accounts_scan_active: sample, ..metrics };
    lemma_same_method_lines(metrics, other, seconds, RPC_METHOD_SLOTS as nat);
}

/// Two scrapes of one state are equal, if the times are written in one way only. (A scrape
/// changes nothing: it takes the metrics by a shared reference.)
pub proof fn law_two_scrapes_are_equal<F: Fn(u64) -> String>(
    metrics: MetricsView,
    render: F,
    a: Seq<char>,
    b: Seq<char>,
)
    requires
        exposition::gives_one_text(render),
        exposition::is_scrape(metrics, render, a),
        exposition::is_scrape(metrics, render, b),
    ensures
        a == b,
{
    let first = choose|seconds: Seq<Seq<char>>|
        exposition::is_scrape_with(metrics, render, a, seconds);
    let second = choose|seconds: Seq<Seq<char>>|
        exposition::is_scrape_with(metrics, render, b, seconds);
    assert(exposition::is_scrape_with(metrics, render, a, first));
    assert(exposition::is_scrape_with(metrics, render, b, second));
    assert forall|slot: int| 0 <= slot < RPC_METHOD_SLOTS implies first[slot] == second[slot] by {
        assert(exposition::renders(render, metrics.rpc_duration_micros[slot], first[slot]));
        assert(exposition::renders(render, metrics.rpc_duration_micros[slot], second[slot]));
    }
    assert(first =~= second);
}

/// Two scrapes of states that differ in nothing but the sampled number of scans are equal,
/// if the times are written in one way only.
pub proof fn law_sampled_scans_do_not_change_a_scrape<F: Fn(u64) -> String>(
    metrics: MetricsView,
    sample: u64,
    render: F,
    a: Seq<char>,
    b: Seq<char>,
)
    requires
        exposition::gives_one_text(render),
        exposition::is_scrape(metrics, render, a),
        exposition::is_scrape(MetricsView { accounts_scan_active: sample, ..metrics }, render, b),
    ensures
        a == b,
{
    let other = MetricsView { accounts_scan_active: sample, ..metrics };
    let seconds = choose|seconds: Seq<Seq<char>>|
        exposition::is_scrape_with(other, render, b, seconds);
    assert(exposition::is_scrape_with(other, render, b, seconds));
    law_sampled_scans_are_not_exported(metrics, sample, seconds);
    assert(exposition::is_scrape_with(metrics, render, b, seconds));
    law_two_scrapes_are_equal(metrics, render, a, b);
}

/// The scrape of a registry is the scrape of the metrics that it holds, if the times are
/// written in one way only.
pub proof fn law_registry_scrape_is_the_scrape_of_its_metrics<F: Fn(u64) -> String>(
    registry: Option<PullMetrics>,
    metrics: PullMetrics,
    render: F,
    a: Seq<char>,
    b: Seq<char>,
)
    requires
        metrics@ == registry::registered(registry),
        exposition::gives_one_text(render),
        exposition::is_scrape(registry::registered(registry), render, a),
        exposition::is_scrape(metrics@, render, b),
    ensures
        a == b,
{
    law_two_scrapes_are_equal(metrics@, render, a, b);
}

/// The lines of the methods depend on nothing but what is recorded for them.
proof fn lemma_same_method_lines(
    metrics: MetricsView,
    other: MetricsView,
    seconds: Seq<Seq<char>>,
    slots: nat,
)
    requires
        other.rpc_calls == metrics.rpc_calls,
        other.rpc_responses_success == metrics.rpc_responses_success,
        other.rpc_responses_error == metrics.rpc_responses_error,
        other.rpc_in_flight_by_method == metrics.rpc_in_flight_by_method,
    ensures
        exposition::method_lines(other, seconds, slots) == exposition::method_lines(
            metrics,
            seconds,
            slots,
        ),
    decreases slots,
{
    if slots > 0 {
        lemma_same_method_lines(metrics, other, seconds, (slots - 1) as nat);
    }
}

/// Whether a counter that stood at `before` stands at `after` once one more was counted: it
/// is one more, and starts again from zero after the largest number.
pub open spec fn one_more(before: u64, after: u64) -> bool {
    &&& before < u64::MAX ==> after == before + 1
    &&& before == u64::MAX ==> after == 0
}

/// Whether a gauge that stood at `before` stands at `after` once one less is going on: it is
/// one less, and stays at zero.
pub open spec fn one_less(before: u64, after: u64) -> bool {
    &&& before > 0 ==> after == before - 1
    &&& before == 0 ==> after == 0
}

/// Whether only the counter of `slot` may differ.
pub open spec fn same_but(before: Seq<u64>, after: Seq<u64>, slot: int) -> bool {
    &&& after.len() == before.len()
    &&& forall|other: int|
        0 <= other < before.len() && other != slot ==> #[trigger] after[other] == before[other]
}

/// The start of a scan adds one to the scans that are active and to those that have started,
/// and changes nothing else.
pub proof fn law_scan_start_counts_one(metrics: MetricsView)
    ensures
        ({
            let after = metrics.scan_started();
            &&& one_more(metrics.accounts_scan_active_live, after.accounts_scan_active_live)
            &&& one_more(metrics.accounts_scan_started_total, after.accounts_scan_started_total)
            &&& after == MetricsView {
                accounts_scan_active_live: after.accounts_scan_active_live,
                accounts_scan_started_total: after.accounts_scan_started_total,
                ..metrics
            }
        }),
{
}

/// The completion of a scan takes one from the scans that are active, adds one to those that
/// have completed, and changes nothing else.
pub proof fn law_scan_completion_counts_one(metrics: MetricsView)
    ensures
        ({
            let after = metrics.scan_completed();
            &&& one_less(metrics.accounts_scan_active_live, after.accounts_scan_active_live)
            &&& one_more(metrics.accounts_scan_completed_total, after.accounts_scan_completed_total)
            &&& after == MetricsView {
                accounts_scan_active_live: after.accounts_scan_active_live,
                accounts_scan_completed_total: after.accounts_scan_completed_total,
                ..metrics
            }
        }),
{
}

/// A request adds one to the requests of its method and to those in flight, and changes
/// nothing else.
pub proof fn law_request_counts_one(metrics: MetricsView, slot: int)
    requires
        metrics.wf(),
        0 <= slot < RPC_METHOD_SLOTS,
    ensures
        ({
            let after = metrics.rpc_requested(slot);
            &&& one_more(metrics.rpc_calls[slot], after.rpc_calls[slot])
            &&& same_but(metrics.rpc_calls, after.rpc_calls, slot)
            &&& one_more(
                metrics.rpc_in_flight_by_method[slot],
                after.rpc_in_flight_by_method[slot],
            )
            &&& same_but(metrics.rpc_in_flight_by_method, after.rpc_in_flight_by_method, slot)
            &&& after == MetricsView {
                rpc_calls: after.rpc_calls,
                rpc_in_flight_by_method: after.rpc_in_flight_by_method,
                ..metrics
            }
        }),
{
}

/// A completion adds its time to the time of its method, exactly as long as the sum can be
/// counted, and one to the responses of its outcome; it changes nothing else.
pub proof fn law_completion_counts_time_and_outcome(
    metrics: MetricsView,
    slot: int,
    micros: u128,
    success: Option<bool>,
)
    requires
        metrics.wf(),
        0 <= slot < RPC_METHOD_SLOTS,
    ensures
        ({
            let after = metrics.rpc_completed(slot, micros, success);
            &&& metrics.rpc_duration_micros[slot] + micros <= 0xffff_ffff_ffff_ffff
                ==> after.rpc_duration_micros[slot] == metrics.rpc_duration_micros[slot] + micros
            &&& metrics.rpc_duration_micros[slot] + micros > 0xffff_ffff_ffff_ffff
                ==> after.rpc_duration_micros[slot] == 0xffff_ffff_ffff_ffff
            &&& same_but(metrics.rpc_duration_micros, after.rpc_duration_micros, slot)
            &&& if success == Some(true) {
                one_more(metrics.rpc_responses_success[slot], after.rpc_responses_success[slot])
            } else {
                after.rpc_responses_success[slot] == metrics.rpc_responses_success[slot]
            }
            &&& same_but(metrics.rpc_responses_success, after.rpc_responses_success, slot)
            &&& if success == Some(false) {
                one_more(metrics.rpc_responses_error[slot], after.rpc_responses_error[slot])
            } else {
                after.rpc_responses_error[slot] == metrics.rpc_responses_error[slot]
            }
            &&& same_but(metrics.rpc_responses_error, after.rpc_responses_error, slot)
            &&& after == MetricsView {
                rpc_duration_micros: after.rpc_duration_micros,
                rpc_responses_success: after.rpc_responses_success,
                rpc_responses_error: after.rpc_responses_error,
                ..metrics
            }
        }),
{
}

/// The end of a request takes one from the requests of its method in flight, and changes
/// nothing else.
pub proof fn law_finish_counts_one_less(metrics: MetricsView, slot: int)
    requires
        metrics.wf(),
        0 <= slot < RPC_METHOD_SLOTS,
    ensures
        ({
            let after = metrics.rpc_finished(slot);
            &&& one_less(
                metrics.rpc_in_flight_by_method[slot],
                after.rpc_in_flight_by_method[slot],
            )
            &&& same_but(metrics.rpc_in_flight_by_method, after.rpc_in_flight_by_method, slot)
            &&& after == MetricsView {
                rpc_in_flight_by_method: after.rpc_in_flight_by_method,
                ..metrics
            }
        }),
{
}

/// A request that arrives and finishes is no longer in flight, and has been counted.
pub proof fn law_finish_undoes_arrival(metrics: MetricsView, slot: int)
    requires
        metrics.wf(),
        0 <= slot < RPC_METHOD_SLOTS,
        metrics.rpc_in_flight_by_method[slot] < u64::MAX,
    ensures
        metrics.rpc_requested(slot).rpc_finished(slot).rpc_in_flight_by_method
            == metrics.rpc_in_flight_by_method,
        one_more(
            metrics.rpc_calls[slot],
            metrics.rpc_requested(slot).rpc_finished(slot).rpc_calls[slot],
        ),
{
    assert(metrics.rpc_requested(slot).rpc_finished(slot).rpc_in_flight_by_method
        =~= metrics.rpc_in_flight_by_method);
}

/// An allocator sample is there as it was stored, each value under its own name, and
/// nothing else has changed.
pub proof fn law_allocator_sample_is_stored(
    metrics: MetricsView,
    allocated: u64,
    active: u64,
    resident: u64,
    retained: u64,
)
    ensures
        ({
            let after = metrics.jemalloc_stored(allocated, active, resident, retained);
            &&& after.jemalloc_allocated_bytes == allocated
            &&& after.jemalloc_active_bytes == active
            &&& after.jemalloc_resident_bytes == resident
            &&& after.jemalloc_retained_bytes == retained
            &&& after == MetricsView {
                jemalloc_allocated_bytes: after.jemalloc_allocated_bytes,
                jemalloc_active_bytes: after.jemalloc_active_bytes,
                jemalloc_resident_bytes: after.jemalloc_resident_bytes,
                jemalloc_retained_bytes: after.jemalloc_retained_bytes,
                ..metrics
            }
        }),
{
}

/// Where nothing has been counted, every number is zero.
pub proof fn law_nothing_counted_is_zero()
    ensures
        ({
            let zero = MetricsView::zero();
            &&& zero.wf()
            &&& zero.accounts_index_count_in_mem == 0
            &&& zero.accounts_index_capacity_in_mem == 0
            &&& zero.accounts_index_estimate_mem_bytes == 0
            &&& zero.accounts_scan_active == 0
            &&& zero.accounts_scan_active_live == 0
            &&& zero.accounts_scan_started_total == 0
            &&& zero.accounts_scan_completed_total == 0
            &&& zero.accounts_scan_max_root_distance == 0
            &&& zero.jemalloc_allocated_bytes == 0
            &&& zero.jemalloc_resident_bytes == 0
            &&& zero.jemalloc_active_bytes == 0
            &&& zero.jemalloc_retained_bytes == 0
            &&& forall|slot: int|
                #![trigger zero.rpc_calls[slot]]
                #![trigger zero.rpc_responses_success[slot]]
                #![trigger zero.rpc_responses_error[slot]]
                #![trigger zero.rpc_duration_micros[slot]]
                #![trigger zero.rpc_in_flight_by_method[slot]]
                0 <= slot < RPC_METHOD_SLOTS ==> zero.rpc_calls[slot] == 0
                    && zero.rpc_responses_success[slot] == 0 && zero.rpc_responses_error[slot] == 0
                    && zero.rpc_duration_micros[slot] == 0 && zero.rpc_in_flight_by_method[slot]
                    == 0
        }),
{
}

/// What a sampler stores in a field is the value of the metric of that name, and a registry
/// holds its metrics as they are.
pub proof fn law_sampled_fields_are_the_metrics(metrics: PullMetrics)
    ensures
        metrics@.accounts_index_count_in_mem == metrics.accounts_index_count_in_mem,
        metrics@.accounts_index_capacity_in_mem == metrics.accounts_index_capacity_in_mem,
        metrics@.accounts_index_estimate_mem_bytes == metrics.accounts_index_estimate_mem_bytes,
        metrics@.accounts_scan_active == metrics.accounts_scan_active,
        metrics@.accounts_scan_max_root_distance == metrics.accounts_scan_max_root_distance,
        metrics@.jemalloc_allocated_bytes == metrics.jemalloc_allocated_bytes,
        metrics@.jemalloc_resident_bytes == metrics.jemalloc_resident_bytes,
        metrics@.jemalloc_active_bytes == metrics.jemalloc_active_bytes,
        metrics@.jemalloc_retained_bytes == metrics.jemalloc_retained_bytes,
        registry::registered(Some(metrics)) == metrics@,
        registry::registered(None) == MetricsView::zero(),
{
}

} // verus!
