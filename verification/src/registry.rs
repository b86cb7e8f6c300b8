//! The place where a process keeps its metrics.

use vstd::prelude::*;

use crate::exposition;
use crate::pull_metrics::{MetricsView, PullMetrics};

verus! {

/// The metrics that a registry holds: nothing has been counted in one that was never used.
pub open spec fn registered(registry: Option<PullMetrics>) -> MetricsView {
    match registry {
        Some(metrics) => metrics@,
        None => MetricsView::zero(),
    }
}

/// The metrics in `registry`, which are made when they are first asked for.
pub fn pull_metrics(registry: &mut Option<PullMetrics>) -> (metrics: &mut PullMetrics)
    ensures
        metrics@ == registered(*old(registry)),
        (*old(registry)) matches Some(known) ==> *metrics == known,
        *final(registry) == Some(*final(metrics)),
{
    if registry.is_none() {
        *registry = Some(PullMetrics::default());
    }
    registry.as_mut().unwrap()
}

/// Render the private metrics endpoint response.
pub fn pull_metrics_exposition<F: Fn(u64) -> String>(
    registry: &mut Option<PullMetrics>,
    seconds: F,
) -> (output: String)
    requires
        forall|micros: u64| call_requires(seconds, (micros,)),
    ensures
        (*final(registry)) is Some,
        registered(*final(registry)) == registered(*old(registry)),
        exposition::is_scrape(registered(*old(registry)), seconds, output@),
{
    let metrics = pull_metrics(registry);
    metrics.exposition(seconds)
}

} // verus!
