//! The series of a scrape: which there are, and that none is there twice.

use vstd::prelude::*;

use crate::exposition;
use crate::pull_metrics::MetricsView;
use crate::rpc_methods;
use crate::rpc_methods::{RPC_METHOD_LABELS, RPC_METHOD_SLOTS};
use crate::text;

verus! {

/// The number of values without labels.
pub open spec fn gauge_count() -> nat {
    11
}

/// The number of values of each method.
pub open spec fn kind_count() -> nat {
    5
}

/// The number of series of a scrape.
pub open spec fn series_count() -> nat {
    gauge_count() + kind_count() * RPC_METHOD_SLOTS as nat
}

/// The name of the `n`th value without labels.
pub open spec fn gauge_name(n: int) -> Seq<char> {
    if n == 0 {
        "agave_accounts_index_count_in_mem"@
    } else if n == 1 {
        "agave_accounts_index_capacity_in_mem"@
    } else if n == 2 {
        "agave_accounts_index_estimate_mem_bytes"@
    } else if n == 3 {
        "agave_accounts_scan_active"@
    } else if n == 4 {
        "agave_accounts_scan_started_total"@
    } else if n == 5 {
        "agave_accounts_scan_completed_total"@
    } else if n == 6 {
        "agave_accounts_scan_max_root_distance"@
    } else if n == 7 {
        "agave_jemalloc_allocated_bytes"@
    } else if n == 8 {
        "agave_jemalloc_resident_bytes"@
    } else if n == 9 {
        "agave_jemalloc_active_bytes"@
    } else {
        "agave_jemalloc_retained_bytes"@
    }
}

/// The `n`th value without labels.
pub open spec fn gauge_value(metrics: MetricsView, n: int) -> u64 {
    if n == 0 {
        metrics.accounts_index_count_in_mem
    } else if n == 1 {
        metrics.accounts_index_capacity_in_mem
    } else if n == 2 {
        metrics.accounts_index_estimate_mem_bytes
    } else if n == 3 {
        metrics.accounts_scan_active_live
    } else if n == 4 {
        metrics.accounts_scan_started_total
    } else if n == 5 {
        metrics.accounts_scan_completed_total
    } else if n == 6 {
        metrics.accounts_scan_max_root_distance
    } else if n == 7 {
        metrics.jemalloc_allocated_bytes
    } else if n == 8 {
        metrics.jemalloc_resident_bytes
    } else if n == 9 {
        metrics.jemalloc_active_bytes
    } else {
        metrics.jemalloc_retained_bytes
    }
}

/// The name of the `kind`th value of a method.
pub open spec fn kind_name(kind: int) -> Seq<char> {
    if kind == 0 {
        "agave_rpc_requests_total"@
    } else if kind == 1 {
        "agave_rpc_responses_total"@
    } else if kind == 2 {
        "agave_rpc_responses_total"@
    } else if kind == 3 {
        "agave_rpc_duration_seconds_total"@
    } else {
        "agave_rpc_in_flight"@
    }
}

/// The further labels of the `kind`th value of a method.
pub open spec fn kind_outcome(kind: int) -> Seq<char> {
    if kind == 1 {
        ",outcome=\"success\""@
    } else if kind == 2 {
        ",outcome=\"error\""@
    } else {
        ""@
    }
}

/// The `kind`th value of the method in `slot`, as text.
pub open spec fn kind_value(
    metrics: MetricsView,
    seconds: Seq<Seq<char>>,
    slot: int,
    kind: int,
) -> Seq<char> {
    if kind == 0 {
        text::decimal(metrics.rpc_calls[slot] as nat)
    } else if kind == 1 {
        text::decimal(metrics.rpc_responses_success[slot] as nat)
    } else if kind == 2 {
        text::decimal(metrics.rpc_responses_error[slot] as nat)
    } else if kind == 3 {
        seconds[slot]
    } else {
        text::decimal(metrics.rpc_in_flight_by_method[slot] as nat)
    }
}

/// The series of the `kind`th value of the method in `slot`.
pub open spec fn method_series(slot: int, kind: int) -> Seq<char> {
    kind_name(kind) + "{method=\""@ + RPC_METHOD_LABELS@[slot]@ + "\""@ + kind_outcome(kind) + "}"@
}

/// The slot of the method to which the `n`th series belongs.
pub open spec fn slot_of(n: int) -> int {
    (n - gauge_count()) / (kind_count() as int)
}

/// Which value of its method the `n`th series has.
pub open spec fn kind_of(n: int) -> int {
    (n - gauge_count()) % (kind_count() as int)
}

/// The `n`th series of a scrape. It does not depend on the metrics.
pub open spec fn series_at(n: int) -> Seq<char> {
    if n < gauge_count() {
        gauge_name(n)
    } else {
        method_series(slot_of(n), kind_of(n))
    }
}

/// The value of the `n`th series, as text.
pub open spec fn value_at(metrics: MetricsView, seconds: Seq<Seq<char>>, n: int) -> Seq<char> {
    if n < gauge_count() {
        text::decimal(gauge_value(metrics, n) as nat)
    } else {
        kind_value(metrics, seconds, slot_of(n), kind_of(n))
    }
}

/// The `n`th line of a scrape: a series, a space, and its value.
pub open spec fn line_at(metrics: MetricsView, seconds: Seq<Seq<char>>, n: int) -> Seq<char> {
    series_at(n) + " "@ + value_at(metrics, seconds, n)
}

/// Whether `c` does not occur in `text`.
pub open spec fn free_of(text: Seq<char>, c: char) -> bool {
    forall|i: int| 0 <= i < text.len() ==> #[trigger] text[i] != c
}

/// Where the last line of `text` starts.
pub open spec fn last_line_start(text: Seq<char>) -> int
    decreases text.len(),
{
    if text.len() == 0 {
        0
    } else if text.last() == '\n' {
        text.len() as int
    } else {
        last_line_start(text.drop_last())
    }
}

/// The lines of a text of which each line is ended.
pub open spec fn lines_of(text: Seq<char>) -> Seq<Seq<char>>
    decreases text.len(),
{
    if text.len() == 0 {
        Seq::empty()
    } else {
        proof {
            lemma_last_line_start(text.drop_last());
        }
        let body = text.drop_last();
        let start = last_line_start(body);
        lines_of(body.take(start)).push(body.skip(start))
    }
}

/// What stands before the last space of `line`.
pub open spec fn before_last_space(line: Seq<char>) -> Seq<char>
    decreases line.len(),
{
    if line.len() == 0 {
        line
    } else if line.last() == ' ' {
        line.drop_last()
    } else {
        before_last_space(line.drop_last())
    }
}

/// The last line starts within the text.
pub proof fn lemma_last_line_start(text: Seq<char>)
    ensures
        0 <= last_line_start(text) <= text.len(),
    decreases text.len(),
{
    if text.len() > 0 {
        lemma_last_line_start(text.drop_last());
    }
}

/// After ended lines, the last line starts where they end.
proof fn lemma_last_line(before: Seq<char>, line: Seq<char>)
    requires
        before.len() == 0 || before.last() == '\n',
        free_of(line, '\n'),
    ensures
        last_line_start(before + line) == before.len(),
    decreases line.len(),
{
    if line.len() == 0 {
        assert(before + line =~= before);
    } else {
        assert((before + line).drop_last() =~= before + line.drop_last());
        assert((before + line).last() == line[line.len() - 1]);
        lemma_last_line(before, line.drop_last());
    }
}

/// One more line makes one more line.
proof fn lemma_one_more_line(before: Seq<char>, line: Seq<char>)
    requires
        before.len() == 0 || before.last() == '\n',
        free_of(line, '\n'),
    ensures
        lines_of(before + line + "\n"@) == lines_of(before).push(line),
        (before + line + "\n"@).last() == '\n',
{
    reveal_strlit("\n");
    let text = before + line + "\n"@;
    lemma_last_line(before, line);
    assert(text.drop_last() =~= before + line);
    assert((before + line).take(before.len() as int) =~= before);
    assert((before + line).skip(before.len() as int) =~= line);
}

/// The series of a line is what stands before its last space, if its value holds none.
proof fn lemma_before_last_space(series: Seq<char>, value: Seq<char>)
    requires
        free_of(value, ' '),
    ensures
        before_last_space(series + " "@ + value) == series,
    decreases value.len(),
{
    reveal_strlit(" ");
    let line = series + " "@ + value;
    if value.len() == 0 {
        assert(line.drop_last() =~= series);
    } else {
        assert(line.drop_last() =~= series + " "@ + value.drop_last());
        assert(line.last() == value[value.len() - 1]);
        lemma_before_last_space(series, value.drop_last());
    }
}

/// A number is written without spaces and in one line.
proof fn lemma_decimal_is_one_word(n: nat)
    ensures
        free_of(text::decimal(n), ' '),
        free_of(text::decimal(n), '\n'),
    decreases n,
{
    if n >= 10 {
        lemma_decimal_is_one_word(n / 10);
    }
}

/// The labels of the catalog are in one line.
proof fn lemma_labels_are_one_line()
    ensures
        forall|slot: int|
            0 <= slot < RPC_METHOD_SLOTS ==> free_of(
                (#[trigger] RPC_METHOD_LABELS@[slot])@,
                '\n',
            ),
{
    reveal_strlit("getBalance");
    assert(free_of("getBalance"@, '\n'));
    reveal_strlit("getEpochInfo");
    assert(free_of("getEpochInfo"@, '\n'));
    reveal_strlit("getGenesisHash");
    assert(free_of("getGenesisHash"@, '\n'));
    reveal_strlit("getHealth");
    assert(free_of("getHealth"@, '\n'));
    reveal_strlit("getIdentity");
    assert(free_of("getIdentity"@, '\n'));
    reveal_strlit("getSlot");
    assert(free_of("getSlot"@, '\n'));
    reveal_strlit("getBlockHeight");
    assert(free_of("getBlockHeight"@, '\n'));
    reveal_strlit("getHighestSnapshotSlot");
    assert(free_of("getHighestSnapshotSlot"@, '\n'));
    reveal_strlit("getTransactionCount");
    assert(free_of("getTransactionCount"@, '\n'));
    reveal_strlit("getVersion");
    assert(free_of("getVersion"@, '\n'));
    reveal_strlit("getVoteAccounts");
    assert(free_of("getVoteAccounts"@, '\n'));
    reveal_strlit("getLeaderSchedule");
    assert(free_of("getLeaderSchedule"@, '\n'));
    reveal_strlit("getMinimumBalanceForRentExemption");
    assert(free_of("getMinimumBalanceForRentExemption"@, '\n'));
    reveal_strlit("getInflationGovernor");
    assert(free_of("getInflationGovernor"@, '\n'));
    reveal_strlit("getInflationRate");
    assert(free_of("getInflationRate"@, '\n'));
    reveal_strlit("getEpochSchedule");
    assert(free_of("getEpochSchedule"@, '\n'));
    reveal_strlit("getSlotLeader");
    assert(free_of("getSlotLeader"@, '\n'));
    reveal_strlit("getSlotLeaders");
    assert(free_of("getSlotLeaders"@, '\n'));
    reveal_strlit("getBlockProduction");
    assert(free_of("getBlockProduction"@, '\n'));
    reveal_strlit("getAccountInfo");
    assert(free_of("getAccountInfo"@, '\n'));
    reveal_strlit("getMultipleAccounts");
    assert(free_of("getMultipleAccounts"@, '\n'));
    reveal_strlit("getBlockCommitment");
    assert(free_of("getBlockCommitment"@, '\n'));
    reveal_strlit("getTokenAccountBalance");
    assert(free_of("getTokenAccountBalance"@, '\n'));
    reveal_strlit("getTokenSupply");
    assert(free_of("getTokenSupply"@, '\n'));
    reveal_strlit("getProgramAccounts");
    assert(free_of("getProgramAccounts"@, '\n'));
    reveal_strlit("getLargestAccounts");
    assert(free_of("getLargestAccounts"@, '\n'));
    reveal_strlit("getSupply");
    assert(free_of("getSupply"@, '\n'));
    reveal_strlit("getTokenLargestAccounts");
    assert(free_of("getTokenLargestAccounts"@, '\n'));
    reveal_strlit("getTokenAccountsByOwner");
    assert(free_of("getTokenAccountsByOwner"@, '\n'));
    reveal_strlit("getTokenAccountsByDelegate");
    assert(free_of("getTokenAccountsByDelegate"@, '\n'));
    reveal_strlit("getInflationReward");
    assert(free_of("getInflationReward"@, '\n'));
    reveal_strlit("getClusterNodes");
    assert(free_of("getClusterNodes"@, '\n'));
    reveal_strlit("getRecentPerformanceSamples");
    assert(free_of("getRecentPerformanceSamples"@, '\n'));
    reveal_strlit("getSignatureStatuses");
    assert(free_of("getSignatureStatuses"@, '\n'));
    reveal_strlit("getMaxRetransmitSlot");
    assert(free_of("getMaxRetransmitSlot"@, '\n'));
    reveal_strlit("getMaxShredInsertSlot");
    assert(free_of("getMaxShredInsertSlot"@, '\n'));
    reveal_strlit("requestAirdrop");
    assert(free_of("requestAirdrop"@, '\n'));
    reveal_strlit("sendTransaction");
    assert(free_of("sendTransaction"@, '\n'));
    reveal_strlit("simulateTransaction");
    assert(free_of("simulateTransaction"@, '\n'));
    reveal_strlit("simulateBundle");
    assert(free_of("simulateBundle"@, '\n'));
    reveal_strlit("minimumLedgerSlot");
    assert(free_of("minimumLedgerSlot"@, '\n'));
    reveal_strlit("getBlock");
    assert(free_of("getBlock"@, '\n'));
    reveal_strlit("getBlockTime");
    assert(free_of("getBlockTime"@, '\n'));
    reveal_strlit("getBlocks");
    assert(free_of("getBlocks"@, '\n'));
    reveal_strlit("getBlocksWithLimit");
    assert(free_of("getBlocksWithLimit"@, '\n'));
    reveal_strlit("getTransaction");
    assert(free_of("getTransaction"@, '\n'));
    reveal_strlit("getSignaturesForAddress");
    assert(free_of("getSignaturesForAddress"@, '\n'));
    reveal_strlit("getFirstAvailableBlock");
    assert(free_of("getFirstAvailableBlock"@, '\n'));
    reveal_strlit("getLatestBlockhash");
    assert(free_of("getLatestBlockhash"@, '\n'));
    reveal_strlit("isBlockhashValid");
    assert(free_of("isBlockhashValid"@, '\n'));
    reveal_strlit("getFeeForMessage");
    assert(free_of("getFeeForMessage"@, '\n'));
    reveal_strlit("getStakeMinimumDelegation");
    assert(free_of("getStakeMinimumDelegation"@, '\n'));
    reveal_strlit("getRecentPrioritizationFees");
    assert(free_of("getRecentPrioritizationFees"@, '\n'));
    reveal_strlit("other");
    assert(free_of("other"@, '\n'));
}

/// The names of the values without labels are in one line, and end in a letter.
proof fn lemma_gauge_names()
    ensures
        forall|n: int|
            0 <= n < gauge_count() ==> {
                &&& free_of(#[trigger] gauge_name(n), '\n')
                &&& gauge_name(n).len() > 17
                &&& gauge_name(n).last() != '}'
                &&& gauge_of(gauge_name(n).len() as int, gauge_name(n)[17]) == n
            },
{
    reveal_strlit("agave_accounts_index_count_in_mem");
    assert(free_of("agave_accounts_index_count_in_mem"@, '\n'));
    reveal_strlit("agave_accounts_index_capacity_in_mem");
    assert(free_of("agave_accounts_index_capacity_in_mem"@, '\n'));
    reveal_strlit("agave_accounts_index_estimate_mem_bytes");
    assert(free_of("agave_accounts_index_estimate_mem_bytes"@, '\n'));
    reveal_strlit("agave_accounts_scan_active");
    assert(free_of("agave_accounts_scan_active"@, '\n'));
    reveal_strlit("agave_accounts_scan_started_total");
    assert(free_of("agave_accounts_scan_started_total"@, '\n'));
    reveal_strlit("agave_accounts_scan_completed_total");
    assert(free_of("agave_accounts_scan_completed_total"@, '\n'));
    reveal_strlit("agave_accounts_scan_max_root_distance");
    assert(free_of("agave_accounts_scan_max_root_distance"@, '\n'));
    reveal_strlit("agave_jemalloc_allocated_bytes");
    assert(free_of("agave_jemalloc_allocated_bytes"@, '\n'));
    reveal_strlit("agave_jemalloc_resident_bytes");
    assert(free_of("agave_jemalloc_resident_bytes"@, '\n'));
    reveal_strlit("agave_jemalloc_active_bytes");
    assert(free_of("agave_jemalloc_active_bytes"@, '\n'));
    reveal_strlit("agave_jemalloc_retained_bytes");
    assert(free_of("agave_jemalloc_retained_bytes"@, '\n'));
}

/// Which value without labels has a name of that length, with that eighteenth character.
spec fn gauge_of(len: int, eighteenth: char) -> int {
    if len == 33 && eighteenth == 'd' {
        0
    } else if len == 36 && eighteenth == 'd' {
        1
    } else if len == 39 && eighteenth == 'd' {
        2
    } else if len == 26 && eighteenth == 'a' {
        3
    } else if len == 33 && eighteenth == 'a' {
        4
    } else if len == 35 && eighteenth == 'a' {
        5
    } else if len == 37 && eighteenth == 'a' {
        6
    } else if len == 30 && eighteenth == 'l' {
        7
    } else if len == 29 && eighteenth == 's' {
        8
    } else if len == 27 && eighteenth == 't' {
        9
    } else if len == 29 && eighteenth == 't' {
        10
    } else {
        -1
    }
}

/// What is needed of the texts around the label of a series.
proof fn lemma_kinds(kind: int)
    requires
        0 <= kind < kind_count(),
    ensures
        free_of(kind_name(kind), '\n'),
        free_of(kind_outcome(kind), '\n'),
        free_of("{method=\""@, '\n'),
        free_of("\""@, '\n'),
        free_of("}"@, '\n'),
        "{method=\""@.len() == 9,
        "\""@.len() == 1,
        "}"@ == seq!['}'],
        kind_name(kind).len() > 12,
        kind_name(kind)[10] == (if kind == 3 {
            'd'
        } else if kind == 4 {
            'i'
        } else {
            'r'
        }),
        kind < 3 ==> kind_name(kind)[12] == (if kind == 0 {
            'q'
        } else {
            's'
        }),
        kind == 1 ==> kind_outcome(kind).len() == 18 && kind_outcome(kind)[16] == 's',
        kind == 2 ==> kind_outcome(kind).len() == 16 && kind_outcome(kind)[14] == 'r',
        kind != 1 && kind != 2 ==> kind_outcome(kind).len() == 0,
{
    reveal_strlit("{method=\"");
    reveal_strlit("\"");
    reveal_strlit("}");
    reveal_strlit("");
    reveal_strlit(",outcome=\"success\"");
    reveal_strlit(",outcome=\"error\"");
    reveal_strlit("agave_rpc_requests_total");
    reveal_strlit("agave_rpc_responses_total");
    reveal_strlit("agave_rpc_duration_seconds_total");
    reveal_strlit("agave_rpc_in_flight");
    assert("}"@ =~= seq!['}']);
}

/// The first `n` lines of a scrape, each ended.
pub open spec fn first_lines(metrics: MetricsView, seconds: Seq<Seq<char>>, n: nat) -> Seq<char>
    decreases n,
{
    if n == 0 {
        Seq::empty()
    } else {
        first_lines(metrics, seconds, (n - 1) as nat) + line_at(metrics, seconds, n - 1) + "\n"@
    }
}

/// The lines of the values without labels come first.
proof fn lemma_first_lines_gauges(metrics: MetricsView, seconds: Seq<Seq<char>>)
    ensures
        first_lines(metrics, seconds, gauge_count()) == exposition::gauge_lines(metrics),
{
    reveal_with_fuel(first_lines, 12);
    let line = |n: int| exposition::gauge_line(gauge_name(n), gauge_value(metrics, n));
    assert forall|n: nat| 0 < n <= 11 implies #[trigger] first_lines(metrics, seconds, n)
        == first_lines(metrics, seconds, (n - 1) as nat) + line(n - 1) by {
        assert(line_at(metrics, seconds, n - 1) + "\n"@ =~= line(n - 1));
        assert(first_lines(metrics, seconds, n) =~= first_lines(metrics, seconds, (n - 1) as nat)
            + line(n - 1));
    }
    assert(first_lines(metrics, seconds, 11) =~= line(0) + line(1) + line(2) + line(3) + line(4)
        + line(5) + line(6) + line(7) + line(8) + line(9) + line(10));
}

/// The line of the `kind`th value of the method in `slot`.
proof fn lemma_kind_line(metrics: MetricsView, seconds: Seq<Seq<char>>, slot: int, kind: int)
    requires
        0 <= slot < RPC_METHOD_SLOTS,
        0 <= kind < kind_count(),
    ensures
        line_at(metrics, seconds, gauge_count() + kind_count() * slot + kind) + "\n"@
            == exposition::series_line(
            kind_name(kind),
            RPC_METHOD_LABELS@[slot]@,
            kind_outcome(kind),
            kind_value(metrics, seconds, slot, kind),
        ),
{
    let n = gauge_count() + kind_count() * slot + kind;
    assert(slot_of(n) == slot && kind_of(n) == kind);
    reveal_strlit("}");
    reveal_strlit(" ");
    reveal_strlit("} ");
    assert("} "@ =~= "}"@ + " "@);
    let line = line_at(metrics, seconds, n) + "\n"@;
    let start = kind_name(kind) + "{method=\""@ + RPC_METHOD_LABELS@[slot]@ + "\""@ + kind_outcome(
        kind,
    );
    assert(start + "}"@ + " "@ =~= start + "} "@);
    assert(line == exposition::series_line(
        kind_name(kind),
        RPC_METHOD_LABELS@[slot]@,
        kind_outcome(kind),
        kind_value(metrics, seconds, slot, kind),
    ));
}

/// The lines of one method.
proof fn lemma_first_lines_slot(metrics: MetricsView, seconds: Seq<Seq<char>>, slot: nat)
    requires
        slot < RPC_METHOD_SLOTS,
    ensures
        first_lines(metrics, seconds, gauge_count() + kind_count() * (slot + 1)) == first_lines(
            metrics,
            seconds,
            gauge_count() + kind_count() * slot,
        ) + exposition::slot_lines(metrics, slot as int, seconds[slot as int]),
{
    lemma_kind_line(metrics, seconds, slot as int, 0);
    lemma_kind_line(metrics, seconds, slot as int, 1);
    lemma_kind_line(metrics, seconds, slot as int, 2);
    lemma_kind_line(metrics, seconds, slot as int, 3);
    lemma_kind_line(metrics, seconds, slot as int, 4);
    lemma_five_more_lines(
        metrics,
        seconds,
        gauge_count() + kind_count() * slot,
        exposition::requests_line(metrics, slot as int),
        exposition::success_line(metrics, slot as int),
        exposition::error_line(metrics, slot as int),
        exposition::duration_line(slot as int, seconds[slot as int]),
        exposition::in_flight_line(metrics, slot as int),
    );
}

/// The lines of the methods follow, slot by slot.
proof fn lemma_first_lines_methods(metrics: MetricsView, seconds: Seq<Seq<char>>, slots: nat)
    requires
        slots <= RPC_METHOD_SLOTS,
    ensures
        first_lines(metrics, seconds, gauge_count() + kind_count() * slots)
            == exposition::gauge_lines(metrics) + exposition::method_lines(metrics, seconds, slots),
    decreases slots,
{
    let gauges = exposition::gauge_lines(metrics);
    if slots == 0 {
        lemma_first_lines_gauges(metrics, seconds);
        assert(gauges + exposition::method_lines(metrics, seconds, 0) =~= gauges);
    } else {
        let before = (slots - 1) as nat;
        lemma_first_lines_methods(metrics, seconds, before);
        lemma_first_lines_slot(metrics, seconds, before);
        lemma_grouping(
            gauges,
            exposition::method_lines(metrics, seconds, before),
            exposition::slot_lines(metrics, before as int, seconds[before as int]),
        );
    }
}

/// How texts are grouped does not matter.
proof fn lemma_grouping(a: Seq<char>, b: Seq<char>, c: Seq<char>)
    ensures
        a + b + c == a + (b + c),
{
    assert(a + b + c =~= a + (b + c));
}

/// Five lines more.
proof fn lemma_five_more_lines(
    metrics: MetricsView,
    seconds: Seq<Seq<char>>,
    from: nat,
    a: Seq<char>,
    b: Seq<char>,
    c: Seq<char>,
    d: Seq<char>,
    e: Seq<char>,
)
    requires
        line_at(metrics, seconds, from as int) + "\n"@ == a,
        line_at(metrics, seconds, from + 1int) + "\n"@ == b,
        line_at(metrics, seconds, from + 2int) + "\n"@ == c,
        line_at(metrics, seconds, from + 3int) + "\n"@ == d,
        line_at(metrics, seconds, from + 4int) + "\n"@ == e,
    ensures
        first_lines(metrics, seconds, from + 5) == first_lines(metrics, seconds, from) + (a + b + c
            + d + e),
{
    let start = first_lines(metrics, seconds, from);
    assert(first_lines(metrics, seconds, from + 1) =~= start + a);
    assert(first_lines(metrics, seconds, from + 2) =~= start + a + b);
    assert(first_lines(metrics, seconds, from + 3) =~= start + a + b + c);
    assert(first_lines(metrics, seconds, from + 4) =~= start + a + b + c + d);
    assert(first_lines(metrics, seconds, from + 5) =~= start + a + b + c + d + e);
    assert(start + a + b + c + d + e =~= start + (a + b + c + d + e));
}

/// Whether each of the times is one word.
spec fn are_words(seconds: Seq<Seq<char>>) -> bool {
    forall|slot: int|
        0 <= slot < RPC_METHOD_SLOTS ==> free_of(#[trigger] seconds[slot], ' ') && free_of(
            seconds[slot],
            '\n',
        )
}

/// The place of a line tells its slot and its kind.
proof fn lemma_place(n: int)
    requires
        gauge_count() <= n < series_count(),
    ensures
        0 <= slot_of(n) < RPC_METHOD_SLOTS,
        0 <= kind_of(n) < kind_count(),
{
}

/// A series is in one line.
proof fn lemma_series_is_one_line(n: int)
    requires
        0 <= n < series_count(),
    ensures
        free_of(series_at(n), '\n'),
{
    if n < gauge_count() {
        lemma_gauge_names();
    } else {
        lemma_place(n);
        lemma_kinds(kind_of(n));
        lemma_labels_are_one_line();
    }
}

/// A value is one word.
proof fn lemma_value_is_one_word(metrics: MetricsView, seconds: Seq<Seq<char>>, n: int)
    requires
        0 <= n < series_count(),
        are_words(seconds),
    ensures
        free_of(value_at(metrics, seconds, n), ' '),
        free_of(value_at(metrics, seconds, n), '\n'),
{
    if n < gauge_count() {
        lemma_decimal_is_one_word(gauge_value(metrics, n) as nat);
    } else {
        lemma_place(n);
        let slot = slot_of(n);
        lemma_decimal_is_one_word(metrics.rpc_calls[slot] as nat);
        lemma_decimal_is_one_word(metrics.rpc_responses_success[slot] as nat);
        lemma_decimal_is_one_word(metrics.rpc_responses_error[slot] as nat);
        lemma_decimal_is_one_word(metrics.rpc_in_flight_by_method[slot] as nat);
    }
}

/// The first lines of a scrape are its lines.
proof fn lemma_lines_of_first_lines(metrics: MetricsView, seconds: Seq<Seq<char>>, n: nat)
    requires
        n <= series_count(),
        are_words(seconds),
    ensures
        lines_of(first_lines(metrics, seconds, n)) == Seq::new(
            n,
            |i: int| line_at(metrics, seconds, i),
        ),
        n > 0 ==> first_lines(metrics, seconds, n).len() > 0 && first_lines(
            metrics,
            seconds,
            n,
        ).last() == '\n',
    decreases n,
{
    if n == 0 {
        assert(lines_of(first_lines(metrics, seconds, n)) =~= Seq::new(
            n,
            |i: int| line_at(metrics, seconds, i),
        ));
    } else {
        let before = (n - 1) as nat;
        lemma_lines_of_first_lines(metrics, seconds, before);
        lemma_series_is_one_line(before as int);
        lemma_value_is_one_word(metrics, seconds, before as int);
        reveal_strlit(" ");
        reveal_strlit("\n");
        if n == 1 {
            assert(first_lines(metrics, seconds, before).len() == 0);
        }
        lemma_one_more_line(
            first_lines(metrics, seconds, before),
            line_at(metrics, seconds, before as int),
        );
        assert(lines_of(first_lines(metrics, seconds, n)) =~= Seq::new(
            n,
            |i: int| line_at(metrics, seconds, i),
        ));
    }
}

/// The lines of a scrape are those of its series.
proof fn lemma_lines_of_scrape(metrics: MetricsView, seconds: Seq<Seq<char>>)
    requires
        are_words(seconds),
    ensures
        lines_of(exposition::scrape(metrics, seconds)) == Seq::new(
            series_count(),
            |i: int| line_at(metrics, seconds, i),
        ),
        forall|n: int|
            0 <= n < series_count() ==> before_last_space(#[trigger] line_at(metrics, seconds, n))
                == series_at(n),
{
    lemma_first_lines_methods(metrics, seconds, RPC_METHOD_SLOTS as nat);
    lemma_lines_of_first_lines(metrics, seconds, series_count());
    assert forall|n: int| 0 <= n < series_count() implies before_last_space(
        #[trigger] line_at(metrics, seconds, n),
    ) == series_at(n) by {
        lemma_value_is_one_word(metrics, seconds, n);
        lemma_before_last_space(series_at(n), value_at(metrics, seconds, n));
    }
}

/// Whether `render` writes every time as one word.
pub open spec fn writes_words<F: Fn(u64) -> String>(render: F) -> bool {
    forall|micros: u64, written: String|
        #[trigger] call_ensures(render, (micros,), written) ==> free_of(written@, ' ') && free_of(
            written@,
            '\n',
        )
}

/// Every scrape has the same series, in the same order, whatever has been counted: its lines
/// are one for each series, and what stands before the last space of the `n`th line is the
/// `n`th series. After that space stands the value of the series at the time of the scrape.
pub proof fn law_every_scrape_has_the_same_series<F: Fn(u64) -> String>(
    metrics: MetricsView,
    render: F,
    output: Seq<char>,
)
    requires
        exposition::is_scrape(metrics, render, output),
        writes_words(render),
    ensures
        lines_of(output).len() == series_count(),
        forall|n: int|
            0 <= n < series_count() ==> before_last_space(#[trigger] lines_of(output)[n])
                == series_at(n),
        forall|seconds: Seq<Seq<char>>, n: int|
            #[trigger] exposition::is_scrape_with(metrics, render, output, seconds) && 0 <= n
                < series_count() ==> #[trigger] lines_of(output)[n] == line_at(
                metrics,
                seconds,
                n,
            ),
{
    assert forall|seconds: Seq<Seq<char>>| #[trigger]
        exposition::is_scrape_with(metrics, render, output, seconds) implies lines_of(output)
        == Seq::new(series_count(), |n: int| line_at(metrics, seconds, n)) by {
        lemma_rendered_times_are_words(metrics, render, output, seconds);
        lemma_lines_of_scrape(metrics, seconds);
    }
    let seconds = choose|seconds: Seq<Seq<char>>| #[trigger]
        exposition::is_scrape_with(metrics, render, output, seconds);
    lemma_rendered_times_are_words(metrics, render, output, seconds);
    lemma_lines_of_scrape(metrics, seconds);
    assert forall|n: int| 0 <= n < series_count() implies before_last_space(
        #[trigger] lines_of(output)[n],
    ) == series_at(n) by {
        assert(lines_of(output)[n] == line_at(metrics, seconds, n));
    }
}

/// The times of a scrape are words if they are written as such.
proof fn lemma_rendered_times_are_words<F: Fn(u64) -> String>(
    metrics: MetricsView,
    render: F,
    output: Seq<char>,
    seconds: Seq<Seq<char>>,
)
    requires
        exposition::is_scrape_with(metrics, render, output, seconds),
        writes_words(render),
    ensures
        are_words(seconds),
{
    assert forall|slot: int| 0 <= slot < RPC_METHOD_SLOTS implies free_of(
        #[trigger] seconds[slot],
        ' ',
    ) && free_of(seconds[slot], '\n') by {
        assert(exposition::renders(render, metrics.rpc_duration_micros[slot], seconds[slot]));
    }
}

/// What a series of a method is made of can be read off it.
proof fn lemma_method_series(slot: int, kind: int)
    requires
        0 <= slot < RPC_METHOD_SLOTS,
        0 <= kind < kind_count(),
    ensures
        ({
            let series = method_series(slot, kind);
            let start = kind_name(kind).len() + 9;
            let end = series.len() - 2 - kind_outcome(kind).len();
            &&& series.last() == '}'
            &&& series.len() > 12
            &&& series[10] == kind_name(kind)[10]
            &&& series[12] == kind_name(kind)[12]
            &&& kind == 1 ==> series[series.len() - 3] == 's'
            &&& kind == 2 ==> series[series.len() - 3] == 'r'
            &&& 0 <= start <= end <= series.len()
            &&& series.subrange(start as int, end as int) == RPC_METHOD_LABELS@[slot]@
        }),
{
    lemma_kinds(kind);
    let series = method_series(slot, kind);
    let start = kind_name(kind).len() + 9;
    let end = series.len() - 2 - kind_outcome(kind).len();
    assert(series.subrange(start as int, end as int) =~= RPC_METHOD_LABELS@[slot]@);
}

/// No series is there twice.
pub proof fn law_series_are_distinct(a: int, b: int)
    requires
        0 <= a < series_count(),
        0 <= b < series_count(),
    ensures
        series_at(a) == series_at(b) ==> a == b,
{
    if series_at(a) == series_at(b) {
        lemma_gauge_names();
        if a >= gauge_count() {
            lemma_place(a);
            lemma_method_series(slot_of(a), kind_of(a));
        }
        if b >= gauge_count() {
            lemma_place(b);
            lemma_method_series(slot_of(b), kind_of(b));
        }
        if a < gauge_count() && b < gauge_count() {
            assert(gauge_name(a) == gauge_name(b));
        } else if a < gauge_count() || b < gauge_count() {
            assert(series_at(a).last() == series_at(b).last());
        } else {
            lemma_kinds(kind_of(a));
            lemma_kinds(kind_of(b));
            assert(kind_of(a) == kind_of(b));
            rpc_methods::law_labels_are_distinct(slot_of(a), slot_of(b));
            assert(slot_of(a) == slot_of(b));
        }
    }
}

/// What stands after the last space of `line`.
pub open spec fn after_last_space(line: Seq<char>) -> Seq<char> {
    line.skip(before_last_space(line).len() as int + 1)
}

/// Whether `line` is the name of `series`, a space, and the number `value` as one writes it.
pub open spec fn reads(line: Seq<char>, series: Seq<char>, value: u64) -> bool {
    &&& before_last_space(line) == series
    &&& text::is_number(after_last_space(line), value as int)
    &&& line =~= series + seq![' '] + after_last_space(line)
}

/// The `n`th line of a scrape is its series and what was written as its value.
proof fn lemma_line_parts<F: Fn(u64) -> String>(
    metrics: MetricsView,
    render: F,
    output: Seq<char>,
    seconds: Seq<Seq<char>>,
    n: int,
)
    requires
        exposition::is_scrape_with(metrics, render, output, seconds),
        writes_words(render),
        0 <= n < series_count(),
    ensures
        before_last_space(lines_of(output)[n]) == series_at(n),
        after_last_space(lines_of(output)[n]) == value_at(metrics, seconds, n),
        lines_of(output)[n] == series_at(n) + seq![' '] + value_at(metrics, seconds, n),
{
    law_every_scrape_has_the_same_series(metrics, render, output);
    assert(lines_of(output)[n] == line_at(metrics, seconds, n));
    lemma_after_series(series_at(n), value_at(metrics, seconds, n));
}

/// After a series and a space stands its value.
proof fn lemma_after_series(series: Seq<char>, value: Seq<char>)
    ensures
        series + " "@ + value == series + seq![' '] + value,
        (series + " "@ + value).skip(series.len() as int + 1) == value,
{
    reveal_strlit(" ");
    assert(" "@ =~= seq![' ']);
    assert((series + " "@ + value).skip(series.len() as int + 1) =~= value);
}

/// The value of the `n`th series reads back, if it is a number.
proof fn lemma_line_reads<F: Fn(u64) -> String>(
    metrics: MetricsView,
    render: F,
    output: Seq<char>,
    seconds: Seq<Seq<char>>,
    n: int,
    value: u64,
)
    requires
        exposition::is_scrape_with(metrics, render, output, seconds),
        writes_words(render),
        0 <= n < series_count(),
        value_at(metrics, seconds, n) == text::decimal(value as nat),
    ensures
        reads(lines_of(output)[n], series_at(n), value),
{
    lemma_line_parts(metrics, render, output, seconds, n);
    text::law_decimal_reads_back(value as nat);
}

/// A monitor that reads a scrape gets every value without labels as it was at the time of
/// the scrape: under its name, in its line, as a number that reads back.
pub proof fn law_scrape_reads_back_every_gauge<F: Fn(u64) -> String>(
    metrics: MetricsView,
    render: F,
    output: Seq<char>,
)
    requires
        exposition::is_scrape(metrics, render, output),
        writes_words(render),
    ensures
        reads(
            lines_of(output)[0],
            "agave_accounts_index_count_in_mem"@,
            metrics.accounts_index_count_in_mem,
        ),
        reads(
            lines_of(output)[1],
            "agave_accounts_index_capacity_in_mem"@,
            metrics.accounts_index_capacity_in_mem,
        ),
        reads(
            lines_of(output)[2],
            "agave_accounts_index_estimate_mem_bytes"@,
            metrics.accounts_index_estimate_mem_bytes,
        ),
        reads(
            lines_of(output)[3],
            "agave_accounts_scan_active"@,
            metrics.accounts_scan_active_live,
        ),
        reads(
            lines_of(output)[4],
            "agave_accounts_scan_started_total"@,
            metrics.accounts_scan_started_total,
        ),
        reads(
            lines_of(output)[5],
            "agave_accounts_scan_completed_total"@,
            metrics.accounts_scan_completed_total,
        ),
        reads(
            lines_of(output)[6],
            "agave_accounts_scan_max_root_distance"@,
            metrics.accounts_scan_max_root_distance,
        ),
        reads(
            lines_of(output)[7],
            "agave_jemalloc_allocated_bytes"@,
            metrics.jemalloc_allocated_bytes,
        ),
        reads(
            lines_of(output)[8],
            "agave_jemalloc_resident_bytes"@,
            metrics.jemalloc_resident_bytes,
        ),
        reads(
            lines_of(output)[9],
            "agave_jemalloc_active_bytes"@,
            metrics.jemalloc_active_bytes,
        ),
        reads(
            lines_of(output)[10],
            "agave_jemalloc_retained_bytes"@,
            metrics.jemalloc_retained_bytes,
        ),
{
    let seconds = choose|seconds: Seq<Seq<char>>| #[trigger]
        exposition::is_scrape_with(metrics, render, output, seconds);
    assert forall|n: int| 0 <= n < gauge_count() implies reads(
        #[trigger] lines_of(output)[n],
        gauge_name(n),
        gauge_value(metrics, n),
    ) by {
        lemma_line_reads(metrics, render, output, seconds, n, gauge_value(metrics, n));
    }
}

/// A monitor that reads a scrape gets every value of every method as it was at the time of
/// the scrape: under its name and its labels, in its line, as a number that reads back, and
/// the time as it was written.
pub proof fn law_scrape_reads_back_every_method<F: Fn(u64) -> String>(
    metrics: MetricsView,
    render: F,
    output: Seq<char>,
    slot: int,
)
    requires
        exposition::is_scrape(metrics, render, output),
        writes_words(render),
        0 <= slot < RPC_METHOD_SLOTS,
    ensures
        ({
            let label = RPC_METHOD_LABELS@[slot]@;
            let line = |n: int| lines_of(output)[11 + 5 * slot + n];
            &&& reads(
                line(0),
                "agave_rpc_requests_total"@ + "{method=\""@ + label + "\""@ + "}"@,
                metrics.rpc_calls[slot],
            )
            &&& reads(
                line(1),
                "agave_rpc_responses_total"@ + "{method=\""@ + label + "\""@
                    + ",outcome=\"success\""@ + "}"@,
                metrics.rpc_responses_success[slot],
            )
            &&& reads(
                line(2),
                "agave_rpc_responses_total"@ + "{method=\""@ + label + "\""@
                    + ",outcome=\"error\""@ + "}"@,
                metrics.rpc_responses_error[slot],
            )
            &&& before_last_space(line(3)) == "agave_rpc_duration_seconds_total"@ + "{method=\""@
                + label + "\""@ + "}"@
            &&& is_written_by(
                render,
                metrics.rpc_duration_micros[slot],
                after_last_space(line(3)),
            )
            &&& reads(
                line(4),
                "agave_rpc_in_flight"@ + "{method=\""@ + label + "\""@ + "}"@,
                metrics.rpc_in_flight_by_method[slot],
            )
        }),
{
    let seconds = choose|seconds: Seq<Seq<char>>| #[trigger]
        exposition::is_scrape_with(metrics, render, output, seconds);
    let at = 11 + 5 * slot;
    assert forall|kind: int| 0 <= kind < 5 implies slot_of(at + kind) == slot && #[trigger] kind_of(
        at + kind,
    ) == kind by {}
    assert(kind_of(at + 0) == 0 && kind_of(at + 1) == 1 && kind_of(at + 2) == 2 && kind_of(at + 3)
        == 3 && kind_of(at + 4) == 4);
    lemma_line_reads(metrics, render, output, seconds, at + 0, metrics.rpc_calls[slot]);
    lemma_line_reads(metrics, render, output, seconds, at + 1, metrics.rpc_responses_success[slot]);
    lemma_line_reads(metrics, render, output, seconds, at + 2, metrics.rpc_responses_error[slot]);
    lemma_line_parts(metrics, render, output, seconds, at + 3);
    lemma_line_reads(
        metrics,
        render,
        output,
        seconds,
        at + 4,
        metrics.rpc_in_flight_by_method[slot],
    );
    assert(exposition::renders(render, metrics.rpc_duration_micros[slot], seconds[slot]));
    reveal_strlit("");
    let label = RPC_METHOD_LABELS@[slot]@;
    assert(series_at(at + 0) =~= "agave_rpc_requests_total"@ + "{method=\""@ + label + "\""@
        + "}"@);
    assert(series_at(at + 3) =~= "agave_rpc_duration_seconds_total"@ + "{method=\""@ + label
        + "\""@ + "}"@);
    assert(series_at(at + 4) =~= "agave_rpc_in_flight"@ + "{method=\""@ + label + "\""@ + "}"@);
}

/// A scrape is its lines, each a series, a space and its value, and nothing else, however the
/// times are written. Returns how they were.
pub proof fn law_scrape_is_its_lines<F: Fn(u64) -> String>(
    metrics: MetricsView,
    render: F,
    output: Seq<char>,
) -> (seconds: Seq<Seq<char>>)
    requires
        exposition::is_scrape(metrics, render, output),
    ensures
        seconds.len() == 54,
        forall|slot: int|
            0 <= slot < 54 ==> is_written_by(
                render,
                metrics.rpc_duration_micros[slot],
                #[trigger] seconds[slot],
            ),
        output == first_lines(metrics, seconds, 281),
        output.len() > 0 && output.last() == '\n',
{
    let seconds = choose|seconds: Seq<Seq<char>>| #[trigger]
        exposition::is_scrape_with(metrics, render, output, seconds);
    lemma_first_lines_methods(metrics, seconds, RPC_METHOD_SLOTS as nat);
    assert forall|slot: int| 0 <= slot < 54 implies is_written_by(
        render,
        metrics.rpc_duration_micros[slot],
        #[trigger] seconds[slot],
    ) by {
        assert(exposition::renders(render, metrics.rpc_duration_micros[slot], seconds[slot]));
    }
    reveal_strlit("\n");
    assert(output == first_lines(metrics, seconds, 280) + line_at(metrics, seconds, 280) + "\n"@);
    seconds
}

/// Whether `text` is what a call of `render` on `micros` can return.
pub open spec fn is_written_by<F: Fn(u64) -> String>(
    render: F,
    micros: u64,
    text: Seq<char>,
) -> bool {
    exists|written: String|
        #[trigger] call_ensures(render, (micros,), written) && written@ == text
}

} // verus!
