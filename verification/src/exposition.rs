//! The text format of a scrape: one line for each value.

use vstd::prelude::*;

use crate::pull_metrics::MetricsView;
use crate::rpc_methods::{RPC_METHOD_LABELS, RPC_METHOD_SLOTS};
use crate::text;
use crate::text::push_decimal;

verus! {

/// The line of a value without labels.
pub open spec fn gauge_line(name: Seq<char>, value: u64) -> Seq<char> {
    name + " "@ + text::decimal(value as nat) + "\n"@
}

/// The line of a value of the method `label`; `outcome` holds the further labels.
pub open spec fn series_line(
    name: Seq<char>,
    label: Seq<char>,
    outcome: Seq<char>,
    value: Seq<char>,
) -> Seq<char> {
    name + "{method=\""@ + label + "\""@ + outcome + "} "@ + value + "\n"@
}

/// The line with the number of requests in `slot`.
pub open spec fn requests_line(metrics: MetricsView, slot: int) -> Seq<char> {
    series_line(
        "agave_rpc_requests_total"@,
        RPC_METHOD_LABELS@[slot]@,
        ""@,
        text::decimal(metrics.rpc_calls[slot] as nat),
    )
}

/// The line with the number of successful responses in `slot`.
pub open spec fn success_line(metrics: MetricsView, slot: int) -> Seq<char> {
    series_line(
        "agave_rpc_responses_total"@,
        RPC_METHOD_LABELS@[slot]@,
        ",outcome=\"success\""@,
        text::decimal(metrics.rpc_responses_success[slot] as nat),
    )
}

/// The line with the number of failed responses in `slot`.
pub open spec fn error_line(metrics: MetricsView, slot: int) -> Seq<char> {
    series_line(
        "agave_rpc_responses_total"@,
        RPC_METHOD_LABELS@[slot]@,
        ",outcome=\"error\""@,
        text::decimal(metrics.rpc_responses_error[slot] as nat),
    )
}

/// The line with the time spent in `slot`, written as `seconds`.
pub open spec fn duration_line(slot: int, seconds: Seq<char>) -> Seq<char> {
    series_line("agave_rpc_duration_seconds_total"@, RPC_METHOD_LABELS@[slot]@, ""@, seconds)
}

/// The line with the number of requests in flight in `slot`.
pub open spec fn in_flight_line(metrics: MetricsView, slot: int) -> Seq<char> {
    series_line(
        "agave_rpc_in_flight"@,
        RPC_METHOD_LABELS@[slot]@,
        ""@,
        text::decimal(metrics.rpc_in_flight_by_method[slot] as nat),
    )
}

/// The lines of `slot`.
pub open spec fn slot_lines(metrics: MetricsView, slot: int, seconds: Seq<char>) -> Seq<char> {
    requests_line(metrics, slot) + success_line(metrics, slot) + error_line(metrics, slot)
        + duration_line(slot, seconds) + in_flight_line(metrics, slot)
}

/// The lines of the first `slots` slots; `seconds` holds the time spent in each.
pub open spec fn method_lines(
    metrics: MetricsView,
    seconds: Seq<Seq<char>>,
    slots: nat,
) -> Seq<char>
    decreases slots,
{
    if slots == 0 {
        Seq::empty()
    } else {
        method_lines(metrics, seconds, (slots - 1) as nat) + slot_lines(
            metrics,
            slots - 1,
            seconds[slots - 1],
        )
    }
}

/// The lines of the values without labels.
pub open spec fn gauge_lines(metrics: MetricsView) -> Seq<char> {
    gauge_line("agave_accounts_index_count_in_mem"@, metrics.accounts_index_count_in_mem)
        + gauge_line(
        "agave_accounts_index_capacity_in_mem"@,
        metrics.accounts_index_capacity_in_mem,
    ) + gauge_line(
        "agave_accounts_index_estimate_mem_bytes"@,
        metrics.accounts_index_estimate_mem_bytes,
    ) + gauge_line("agave_accounts_scan_active"@, metrics.accounts_scan_active_live) + gauge_line(
        "agave_accounts_scan_started_total"@,
        metrics.accounts_scan_started_total,
    ) + gauge_line(
        "agave_accounts_scan_completed_total"@,
        metrics.accounts_scan_completed_total,
    ) + gauge_line(
        "agave_accounts_scan_max_root_distance"@,
        metrics.accounts_scan_max_root_distance,
    ) + gauge_line("agave_jemalloc_allocated_bytes"@, metrics.jemalloc_allocated_bytes)
        + gauge_line("agave_jemalloc_resident_bytes"@, metrics.jemalloc_resident_bytes)
        + gauge_line("agave_jemalloc_active_bytes"@, metrics.jemalloc_active_bytes) + gauge_line(
        "agave_jemalloc_retained_bytes"@,
        metrics.jemalloc_retained_bytes,
    )
}

/// A complete scrape; `seconds` holds the time spent in each slot.
pub open spec fn scrape(metrics: MetricsView, seconds: Seq<Seq<char>>) -> Seq<char> {
    gauge_lines(metrics) + method_lines(metrics, seconds, RPC_METHOD_SLOTS as nat)
}

/// Whether `text` may be what `render` writes for `micros` microseconds.
pub open spec fn renders<F: Fn(u64) -> String>(render: F, micros: u64, text: Seq<char>) -> bool {
    exists|written: String|
        #[trigger] call_ensures(render, (micros,), written) && written@ == text
}

/// Whether `output` is the complete scrape in which `render` has written the times as
/// `seconds`.
pub open spec fn is_scrape_with<F: Fn(u64) -> String>(
    metrics: MetricsView,
    render: F,
    output: Seq<char>,
    seconds: Seq<Seq<char>>,
) -> bool {
    &&& seconds.len() == RPC_METHOD_SLOTS
    &&& forall|slot: int|
        0 <= slot < RPC_METHOD_SLOTS ==> renders(
            render,
            metrics.rpc_duration_micros[slot],
            #[trigger] seconds[slot],
        )
    &&& output == scrape(metrics, seconds)
}

/// Whether `output` is a complete scrape in which `render` has written the times.
pub open spec fn is_scrape<F: Fn(u64) -> String>(
    metrics: MetricsView,
    render: F,
    output: Seq<char>,
) -> bool {
    exists|seconds: Seq<Seq<char>>| #[trigger] is_scrape_with(metrics, render, output, seconds)
}

/// Whether `render` writes every time in one way only.
pub open spec fn gives_one_text<F: Fn(u64) -> String>(render: F) -> bool {
    forall|micros: u64, a: String, b: String|
        #![trigger call_ensures(render, (micros,), a), call_ensures(render, (micros,), b)]
        call_ensures(render, (micros,), a) && call_ensures(render, (micros,), b) ==> a@ == b@
}

/// The lines of the first slots do not depend on the times of later ones.
pub(crate) proof fn lemma_method_lines_prefix(
    metrics: MetricsView,
    seconds: Seq<Seq<char>>,
    more: Seq<char>,
    slots: nat,
)
    requires
        slots <= seconds.len(),
    ensures
        method_lines(metrics, seconds.push(more), slots) == method_lines(metrics, seconds, slots),
    decreases slots,
{
    if slots > 0 {
        lemma_method_lines_prefix(metrics, seconds, more, (slots - 1) as nat);
    }
}

/// Appends the line of a value without labels.
pub(crate) fn push_gauge(output: &mut String, name: &str, value: u64)
    ensures
        final(output)@ == old(output)@ + gauge_line(name@, value),
{
    output.append(name);
    output.append(" ");
    push_decimal(output, value);
    output.append("\n");
    assert(output@ =~= old(output)@ + gauge_line(name@, value));
}

/// Appends the beginning of the line of a value of the method `label`.
pub(crate) fn push_series_start(output: &mut String, name: &str, label: &str, outcome: &str)
    ensures
        final(output)@ == old(output)@ + (name@ + "{method=\""@ + label@ + "\""@ + outcome@
            + "} "@),
{
    output.append(name);
    output.append("{method=\"");
    output.append(label);
    output.append("\"");
    output.append(outcome);
    output.append("} ");
    assert(output@ =~= old(output)@ + (name@ + "{method=\""@ + label@ + "\""@ + outcome@ + "} "@));
}

/// Appends the line of a number of the method `label`.
pub(crate) fn push_count(output: &mut String, name: &str, label: &str, outcome: &str, value: u64)
    ensures
        final(output)@ == old(output)@ + series_line(
            name@,
            label@,
            outcome@,
            text::decimal(value as nat),
        ),
{
    push_series_start(output, name, label, outcome);
    push_decimal(output, value);
    output.append("\n");
    assert(output@ =~= old(output)@ + series_line(
        name@,
        label@,
        outcome@,
        text::decimal(value as nat),
    ));
}

} // verus!
