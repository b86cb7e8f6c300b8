//! Pull-oriented metrics used by the validator's private metrics route.
//!
//! Updates only touch numbers. The Prometheus-compatible text is built by
//! [`PullMetrics::exposition`] when a scrape is requested.

use std::time::Duration;
use vstd::prelude::*;

use crate::clock;
use crate::exposition;
use crate::exposition::{push_count, push_gauge, push_series_start};
use crate::rpc_methods::{RPC_METHOD_LABELS, RPC_METHOD_SLOTS};

verus! {

/// Everything that is counted and sampled. The counters wrap around, the gauges of what
/// is going on never go below zero.
pub struct PullMetrics {
    pub accounts_index_count_in_mem: u64,
    pub accounts_index_capacity_in_mem: u64,
    pub accounts_index_estimate_mem_bytes: u64,
    /// A sampled value that is no longer exported: the number of scans that is exported
    /// is the live one, which sampling cannot overwrite.
    pub accounts_scan_active: u64,
    pub accounts_scan_max_root_distance: u64,
    pub jemalloc_allocated_bytes: u64,
    pub jemalloc_resident_bytes: u64,
    pub jemalloc_active_bytes: u64,
    pub jemalloc_retained_bytes: u64,
    pub recorded: RecordedMetrics,
}

/// What is counted by the recording functions and can be changed by nothing else.
pub struct RecordedMetrics {
    accounts_scan_active_live: u64,
    accounts_scan_started_total: u64,
    accounts_scan_completed_total: u64,
    rpc_calls: [u64; RPC_METHOD_SLOTS],
    rpc_responses_success: [u64; RPC_METHOD_SLOTS],
    rpc_responses_error: [u64; RPC_METHOD_SLOTS],
    rpc_duration_micros: [u64; RPC_METHOD_SLOTS],
    rpc_in_flight_by_method: [u64; RPC_METHOD_SLOTS],
}

/// The values of all metrics.
#[verifier::ext_equal]
pub struct MetricsView {
    pub accounts_index_count_in_mem: u64,
    pub accounts_index_capacity_in_mem: u64,
    pub accounts_index_estimate_mem_bytes: u64,
    pub accounts_scan_active: u64,
    pub accounts_scan_active_live: u64,
    pub accounts_scan_started_total: u64,
    pub accounts_scan_completed_total: u64,
    pub accounts_scan_max_root_distance: u64,
    pub jemalloc_allocated_bytes: u64,
    pub jemalloc_resident_bytes: u64,
    pub jemalloc_active_bytes: u64,
    pub jemalloc_retained_bytes: u64,
    pub rpc_calls: Seq<u64>,
    pub rpc_responses_success: Seq<u64>,
    pub rpc_responses_error: Seq<u64>,
    pub rpc_duration_micros: Seq<u64>,
    pub rpc_in_flight_by_method: Seq<u64>,
}

/// The counters of all slots after one more event in `slot`. An unknown slot counts
/// nothing.
pub open spec fn counted(counters: Seq<u64>, slot: int) -> Seq<u64> {
    if 0 <= slot < counters.len() {
        counters.update(slot, counters[slot].wrapping_add(1))
    } else {
        counters
    }
}

/// A gauge after one thing less is going on.
pub open spec fn decremented(value: u64) -> u64 {
    if value == 0 {
        0
    } else {
        (value - 1) as u64
    }
}

/// `total` and `more` together, or the largest number if they exceed it.
pub open spec fn accumulated(total: u64, more: u128) -> u64 {
    if total + more <= u64::MAX {
        (total + more) as u64
    } else {
        u64::MAX
    }
}

impl MetricsView {
    /// Nothing has been counted or sampled.
    pub open spec fn zero() -> MetricsView {
        let none = Seq::new(RPC_METHOD_SLOTS as nat, |slot: int| 0u64);
        MetricsView {
            accounts_index_count_in_mem: 0,
            accounts_index_capacity_in_mem: 0,
            accounts_index_estimate_mem_bytes: 0,
            accounts_scan_active: 0,
            accounts_scan_active_live: 0,
            accounts_scan_started_total: 0,
            accounts_scan_completed_total: 0,
            accounts_scan_max_root_distance: 0,
            jemalloc_allocated_bytes: 0,
            jemalloc_resident_bytes: 0,
            jemalloc_active_bytes: 0,
            jemalloc_retained_bytes: 0,
            rpc_calls: none,
            rpc_responses_success: none,
            rpc_responses_error: none,
            rpc_duration_micros: none,
            rpc_in_flight_by_method: none,
        }
    }

    /// Whether there is a counter for every slot.
    pub open spec fn wf(self) -> bool {
        &&& self.rpc_calls.len() == RPC_METHOD_SLOTS
        &&& self.rpc_responses_success.len() == RPC_METHOD_SLOTS
        &&& self.rpc_responses_error.len() == RPC_METHOD_SLOTS
        &&& self.rpc_duration_micros.len() == RPC_METHOD_SLOTS
        &&& self.rpc_in_flight_by_method.len() == RPC_METHOD_SLOTS
    }

    /// One more scan has started.
    pub open spec fn scan_started(self) -> MetricsView {
        MetricsView {
            accounts_scan_active_live: self.accounts_scan_active_live.wrapping_add(1),
            accounts_scan_started_total: self.accounts_scan_started_total.wrapping_add(1),
            ..self
        }
    }

    /// One more scan has completed.
    pub open spec fn scan_completed(self) -> MetricsView {
        MetricsView {
            accounts_scan_active_live: decremented(self.accounts_scan_active_live),
            accounts_scan_completed_total: self.accounts_scan_completed_total.wrapping_add(1),
            ..self
        }
    }

    /// One more request of the method in `slot` has arrived.
    pub open spec fn rpc_requested(self, slot: int) -> MetricsView {
        MetricsView {
            rpc_calls: counted(self.rpc_calls, slot),
            rpc_in_flight_by_method: counted(self.rpc_in_flight_by_method, slot),
            ..self
        }
    }

    /// A request of the method in `slot` has taken `micros` microseconds, and was answered
    /// with success, with an error, or not at all.
    pub open spec fn rpc_completed(
        self,
        slot: int,
        micros: u128,
        success: Option<bool>,
    ) -> MetricsView {
        MetricsView {
            rpc_duration_micros: if 0 <= slot < self.rpc_duration_micros.len() {
                self.rpc_duration_micros.update(
                    slot,
                    accumulated(self.rpc_duration_micros[slot], micros),
                )
            } else {
                self.rpc_duration_micros
            },
            rpc_responses_success: if success == Some(true) {
                counted(self.rpc_responses_success, slot)
            } else {
                self.rpc_responses_success
            },
            rpc_responses_error: if success == Some(false) {
                counted(self.rpc_responses_error, slot)
            } else {
                self.rpc_responses_error
            },
            ..self
        }
    }

    /// A request of the method in `slot` is no longer in flight.
    pub open spec fn rpc_finished(self, slot: int) -> MetricsView {
        if 0 <= slot < self.rpc_in_flight_by_method.len() {
            MetricsView {
                rpc_in_flight_by_method: self.rpc_in_flight_by_method.update(
                    slot,
                    decremented(self.rpc_in_flight_by_method[slot]),
                ),
                ..self
            }
        } else {
            self
        }
    }

    /// One complete allocator sample.
    pub open spec fn jemalloc_stored(
        self,
        allocated: u64,
        active: u64,
        resident: u64,
        retained: u64,
    ) -> MetricsView {
        MetricsView {
            jemalloc_allocated_bytes: allocated,
            jemalloc_active_bytes: active,
            jemalloc_resident_bytes: resident,
            jemalloc_retained_bytes: retained,
            ..self
        }
    }
}

impl RecordedMetrics {
    pub closed spec fn scan_active_live(&self) -> u64 {
        self.accounts_scan_active_live
    }

    pub closed spec fn scan_started_total(&self) -> u64 {
        self.accounts_scan_started_total
    }

    pub closed spec fn scan_completed_total(&self) -> u64 {
        self.accounts_scan_completed_total
    }

    pub closed spec fn calls(&self) -> Seq<u64> {
        self.rpc_calls@
    }

    pub closed spec fn responses_success(&self) -> Seq<u64> {
        self.rpc_responses_success@
    }

    pub closed spec fn responses_error(&self) -> Seq<u64> {
        self.rpc_responses_error@
    }

    pub closed spec fn micros_by_method(&self) -> Seq<u64> {
        self.rpc_duration_micros@
    }

    pub closed spec fn in_flight_by_method(&self) -> Seq<u64> {
        self.rpc_in_flight_by_method@
    }
}

impl View for PullMetrics {
    type V = MetricsView;

    open spec fn view(&self) -> MetricsView {
        MetricsView {
            accounts_index_count_in_mem: self.accounts_index_count_in_mem,
            accounts_index_capacity_in_mem: self.accounts_index_capacity_in_mem,
            accounts_index_estimate_mem_bytes: self.accounts_index_estimate_mem_bytes,
            accounts_scan_active: self.accounts_scan_active,
            accounts_scan_active_live: self.recorded.scan_active_live(),
            accounts_scan_started_total: self.recorded.scan_started_total(),
            accounts_scan_completed_total: self.recorded.scan_completed_total(),
            accounts_scan_max_root_distance: self.accounts_scan_max_root_distance,
            jemalloc_allocated_bytes: self.jemalloc_allocated_bytes,
            jemalloc_resident_bytes: self.jemalloc_resident_bytes,
            jemalloc_active_bytes: self.jemalloc_active_bytes,
            jemalloc_retained_bytes: self.jemalloc_retained_bytes,
            rpc_calls: self.recorded.calls(),
            rpc_responses_success: self.recorded.responses_success(),
            rpc_responses_error: self.recorded.responses_error(),
            rpc_duration_micros: self.recorded.micros_by_method(),
            rpc_in_flight_by_method: self.recorded.in_flight_by_method(),
        }
    }
}

impl Default for PullMetrics {
    fn default() -> (metrics: Self)
        ensures
            metrics@ == MetricsView::zero(),
    {
        let recorded = RecordedMetrics {
            accounts_scan_active_live: 0,
            accounts_scan_started_total: 0,
            accounts_scan_completed_total: 0,
            rpc_calls: [0;RPC_METHOD_SLOTS],
            rpc_responses_success: [0;RPC_METHOD_SLOTS],
            rpc_responses_error: [0;RPC_METHOD_SLOTS],
            rpc_duration_micros: [0;RPC_METHOD_SLOTS],
            rpc_in_flight_by_method: [0;RPC_METHOD_SLOTS],
        };
        let metrics = PullMetrics {
            accounts_index_count_in_mem: 0,
            accounts_index_capacity_in_mem: 0,
            accounts_index_estimate_mem_bytes: 0,
            accounts_scan_active: 0,
            accounts_scan_max_root_distance: 0,
            jemalloc_allocated_bytes: 0,
            jemalloc_resident_bytes: 0,
            jemalloc_active_bytes: 0,
            jemalloc_retained_bytes: 0,
            recorded,
        };
        assert(metrics@ =~= MetricsView::zero());
        metrics
    }
}

/// Counts one more event in `slot`, if there is such a slot.
fn count(counters: &mut [u64; RPC_METHOD_SLOTS], slot: usize)
    ensures
        final(counters)@ == counted(old(counters)@, slot as int),
{
    if slot < RPC_METHOD_SLOTS {
        counters[slot] = counters[slot].wrapping_add(1);
    }
}

impl PullMetrics {
    /// There is a counter for every slot.
    pub proof fn law_every_slot_has_a_counter(&self)
        ensures
            self@.wf(),
    {
    }

    /// A scan starts.
    pub fn record_accounts_scan_start(&mut self)
        ensures
            final(self)@ == old(self)@.scan_started(),
    {
        let active: u64 = self.recorded.accounts_scan_active_live;
        let started: u64 = self.recorded.accounts_scan_started_total;
        self.recorded.accounts_scan_active_live = active.wrapping_add(1);
        self.recorded.accounts_scan_started_total = started.wrapping_add(1);
    }

    /// A scan completes.
    pub fn record_accounts_scan_complete(&mut self)
        ensures
            final(self)@ == old(self)@.scan_completed(),
    {
        if let Some(live) = self.recorded.accounts_scan_active_live.checked_sub(1) {
            self.recorded.accounts_scan_active_live = live;
        }
        let completed: u64 = self.recorded.accounts_scan_completed_total;
        self.recorded.accounts_scan_completed_total = completed.wrapping_add(1);
    }

    /// A request of the method in `slot` arrives.
    pub fn record_rpc_request(&mut self, slot: usize)
        ensures
            final(self)@ == old(self)@.rpc_requested(slot as int),
    {
        count(&mut self.recorded.rpc_calls, slot);
        count(&mut self.recorded.rpc_in_flight_by_method, slot);
    }

    /// A request of the method in `slot` has taken `duration`, and was answered with
    /// success, with an error, or not at all.
    pub fn record_rpc_completion(&mut self, slot: usize, duration: Duration, success: Option<bool>)
        ensures
            final(self)@ == old(self)@.rpc_completed(
                slot as int,
                clock::duration_nanos(duration) / 1_000,
                success,
            ),
    {
        self.record_rpc_completion_micros(slot, clock::as_micros(&duration), success);
    }

    /// [`PullMetrics::record_rpc_completion`] for a duration in microseconds.
    pub fn record_rpc_completion_micros(
        &mut self,
        slot: usize,
        micros: u128,
        success: Option<bool>,
    )
        ensures
            final(self)@ == old(self)@.rpc_completed(slot as int, micros, success),
    {
        if slot < RPC_METHOD_SLOTS {
            let micros: u64 = if micros <= u64::MAX as u128 {
                micros as u64
            } else {
                u64::MAX
            };
            let total: u64 = self.recorded.rpc_duration_micros[slot];
            self.recorded.rpc_duration_micros[slot] = total.saturating_add(micros);
        }
        match success {
            Some(true) => count(&mut self.recorded.rpc_responses_success, slot),
            Some(false) => count(&mut self.recorded.rpc_responses_error, slot),
            None => {},
        }
        assert(self@ =~= old(self)@.rpc_completed(slot as int, micros, success));
    }

    /// A request of the method in `slot` is no longer in flight. Finishing more requests
    /// than there were leaves the gauge at zero.
    pub fn finish_rpc_request(&mut self, slot: usize)
        ensures
            final(self)@ == old(self)@.rpc_finished(slot as int),
    {
        if slot < RPC_METHOD_SLOTS {
            if let Some(in_flight) = self.recorded.rpc_in_flight_by_method[slot].checked_sub(1) {
                self.recorded.rpc_in_flight_by_method[slot] = in_flight;
            }
        }
        assert(self@ =~= old(self)@.rpc_finished(slot as int));
    }

    /// Publish one complete allocator sample. Callers should only invoke this
    /// after all four values have been read successfully.
    pub fn store_jemalloc_stats(
        &mut self,
        allocated: u64,
        active: u64,
        resident: u64,
        retained: u64,
    )
        ensures
            final(self)@ == old(self)@.jemalloc_stored(allocated, active, resident, retained),
    {
        self.jemalloc_allocated_bytes = allocated;
        self.jemalloc_active_bytes = active;
        self.jemalloc_resident_bytes = resident;
        self.jemalloc_retained_bytes = retained;
    }

    /// Appends the time `micros`, in microseconds, as `seconds` writes it.
    fn push_micros_as_seconds<F: Fn(u64) -> String>(
        output: &mut String,
        micros: u64,
        seconds: &F,
    ) -> (written: Ghost<Seq<char>>)
        requires
            call_requires(*seconds, (micros,)),
        ensures
            exposition::renders(*seconds, micros, written@),
            final(output)@ == old(output)@ + written@,
    {
        let written = seconds(micros);
        output.append(written.as_str());
        Ghost(written@)
    }

    /// Appends the lines of `slot`.
    fn push_slot<F: Fn(u64) -> String>(
        &self,
        output: &mut String,
        slot: usize,
        seconds: &F,
    ) -> (written: Ghost<Seq<char>>)
        requires
            slot < RPC_METHOD_SLOTS,
            forall|micros: u64| call_requires(*seconds, (micros,)),
        ensures
            exposition::renders(*seconds, self@.rpc_duration_micros[slot as int], written@),
            final(output)@ == old(output)@ + exposition::slot_lines(self@, slot as int, written@),
    {
        let label = RPC_METHOD_LABELS[slot];
        push_count(
            output,
            "agave_rpc_requests_total",
            label,
            "",
            self.recorded.rpc_calls[slot],
        );
        push_count(
            output,
            "agave_rpc_responses_total",
            label,
            ",outcome=\"success\"",
            self.recorded.rpc_responses_success[slot],
        );
        push_count(
            output,
            "agave_rpc_responses_total",
            label,
            ",outcome=\"error\"",
            self.recorded.rpc_responses_error[slot],
        );
        let ghost counted = output@;
        push_series_start(output, "agave_rpc_duration_seconds_total", label, "");
        let Ghost(written): Ghost<Seq<char>> = Self::push_micros_as_seconds(
            output,
            self.recorded.rpc_duration_micros[slot],
            seconds,
        );
        output.append("\n");
        assert(output@ =~= counted + exposition::duration_line(slot as int, written));
        push_count(
            output,
            "agave_rpc_in_flight",
            label,
            "",
            self.recorded.rpc_in_flight_by_method[slot],
        );
        assert(output@ =~= old(output)@ + exposition::slot_lines(self@, slot as int, written));
        Ghost(written)
    }

    /// Return a complete scrape. `seconds` writes a time in microseconds as a number of
    /// seconds.
    pub fn exposition<F: Fn(u64) -> String>(&self, seconds: F) -> (output: String)
        requires
            forall|micros: u64| call_requires(seconds, (micros,)),
        ensures
            exposition::is_scrape(self@, seconds, output@),
    {
        let mut output = String::new();
        push_gauge(
            &mut output,
            "agave_accounts_index_count_in_mem",
            self.accounts_index_count_in_mem,
        );
        push_gauge(
            &mut output,
            "agave_accounts_index_capacity_in_mem",
            self.accounts_index_capacity_in_mem,
        );
        push_gauge(
            &mut output,
            "agave_accounts_index_estimate_mem_bytes",
            self.accounts_index_estimate_mem_bytes,
        );
        push_gauge(
            &mut output,
            "agave_accounts_scan_active",
            self.recorded.accounts_scan_active_live,
        );
        push_gauge(
            &mut output,
            "agave_accounts_scan_started_total",
            self.recorded.accounts_scan_started_total,
        );
        push_gauge(
            &mut output,
            "agave_accounts_scan_completed_total",
            self.recorded.accounts_scan_completed_total,
        );
        push_gauge(
            &mut output,
            "agave_accounts_scan_max_root_distance",
            self.accounts_scan_max_root_distance,
        );
        push_gauge(&mut output, "agave_jemalloc_allocated_bytes", self.jemalloc_allocated_bytes);
        push_gauge(&mut output, "agave_jemalloc_resident_bytes", self.jemalloc_resident_bytes);
        push_gauge(&mut output, "agave_jemalloc_active_bytes", self.jemalloc_active_bytes);
        push_gauge(&mut output, "agave_jemalloc_retained_bytes", self.jemalloc_retained_bytes);
        assert(output@ =~= exposition::gauge_lines(self@));
        let ghost mut texts: Seq<Seq<char>> = Seq::empty();
        let mut slot: usize = 0;
        while slot < RPC_METHOD_SLOTS
            invariant
                slot <= RPC_METHOD_SLOTS,
                texts.len() == slot,
                forall|micros: u64| call_requires(seconds, (micros,)),
                forall|earlier: int|
                    0 <= earlier < slot ==> exposition::renders(
                        seconds,
                        self@.rpc_duration_micros[earlier],
                        #[trigger] texts[earlier],
                    ),
                output@ == exposition::gauge_lines(self@) + exposition::method_lines(
                    self@,
                    texts,
                    slot as nat,
                ),
            decreases RPC_METHOD_SLOTS - slot,
        {
            let Ghost(written): Ghost<Seq<char>> = self.push_slot(&mut output, slot, &seconds);
            proof {
                exposition::lemma_method_lines_prefix(self@, texts, written, slot as nat);
                texts = texts.push(written);
            }
            slot += 1;
            assert(output@ =~= exposition::gauge_lines(self@) + exposition::method_lines(
                self@,
                texts,
                slot as nat,
            ));
        }
        assert(exposition::is_scrape_with(self@, seconds, output@, texts));
        output
    }
}

} // verus!
