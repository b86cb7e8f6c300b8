//! What holds of the coordinator across several operations.

use vstd::prelude::*;

use crate::accounts::{LargestAccountsFilter, OutcomeView};
use crate::generation;
use crate::generation::{EntryView, GenerationState};
use crate::singleflight;
use crate::singleflight::{GenerationId, SingleflightAdmission, SingleflightView};

verus! {

/// How many steps a state is away from the start: a generation only ever moves on.
pub open spec fn progress(state: GenerationState) -> int {
    match state {
        GenerationState::Active => 0,
        GenerationState::Aborting => 1,
        GenerationState::Completing => 1,
        GenerationState::Terminal => 2,
    }
}

/// Whether `after` may follow `before` in the life of one generation: the state does not
/// go back, the abort flag stays the same, an abort is not taken back, and a published
/// outcome does not disappear.
pub open spec fn follows(before: EntryView, after: EntryView) -> bool {
    &&& before.state == after.state || progress(before.state) < progress(after.state)
    &&& before.flag == after.flag
    &&& before.abort ==> after.abort
    &&& before.value is Some ==> after.value is Some
}

/// Whether every generation is listed exactly until it has ended.
pub open spec fn listed_until_ended(table: SingleflightView) -> bool {
    forall|id: GenerationId| #[trigger]
        table.entries.contains_key(id) ==> (table.is_listed(id) <==> !(
        table.entries[id].state is Terminal))
}

/// `n` callers of the generation `id` of `key` go away, one after the other.
pub open spec fn all_left(
    table: SingleflightView,
    key: Option<LargestAccountsFilter>,
    id: GenerationId,
    n: nat,
) -> SingleflightView
    decreases n,
{
    if n == 0 {
        table
    } else {
        all_left(table, key, id, (n - 1) as nat).left(key, id)
    }
}

/// `n` handles to the generation `id` are dropped, one after the other.
pub open spec fn all_dropped(table: SingleflightView, id: GenerationId, n: nat) -> SingleflightView
    decreases n,
{
    if n == 0 {
        table
    } else {
        all_dropped(table, id, (n - 1) as nat).dropped(id)
    }
}

/// Callers of one key share a generation: the caller after the one that started it
/// finds it active, under the same name, and becomes its second caller.
pub proof fn law_same_key_coalesces(
    table: SingleflightView,
    key: Option<LargestAccountsFilter>,
    id: GenerationId,
    flag: int,
)
    requires
        table.consistent(),
        !table.running(key),
        !table.cleared(key).entries.contains_key(id),
    ensures
        ({
            let first = table.cleared(key).started(key, id, flag, 1, 2);
            let second = first.joined(key);
            &&& first.running(key)
            &&& first.entry_of(key).state is Active
            &&& first.current[key] == id
            &&& second.current == first.current
            &&& second.entries[id].waiters == 2
            &&& second.entries.dom() == first.entries.dom()
        }),
{
    let first = table.cleared(key).started(key, id, flag, 1, 2);
    assert(first.joined(key).entries.dom() =~= first.entries.dom());
}

/// Keys do not get in each other's way: starting or joining a generation of one key
/// leaves the generation of every other key as it was.
pub proof fn law_distinct_keys_are_independent(
    table: SingleflightView,
    key: Option<LargestAccountsFilter>,
    other: Option<LargestAccountsFilter>,
    id: GenerationId,
    flag: int,
)
    requires
        table.consistent(),
        key != other,
        table.current.contains_key(other),
    ensures
        !table.running(key) && !table.cleared(key).entries.contains_key(id) ==> {
            let after = table.cleared(key).started(key, id, flag, 1, 2);
            after.is_current(other, table.current[other]) && after.entry_of(other)
                == table.entry_of(other)
        },
        table.running(key) ==> {
            let after = table.joined(key);
            after.is_current(other, table.current[other]) && after.entry_of(other)
                == table.entry_of(other)
        },
{
    assert(table.current.contains_key(other));
    if table.current.contains_key(key) {
        let bare = SingleflightView { current: table.current.remove(key), ..table };
        assert(bare.is_current(other, table.current[other]));
        assert(table.current[key] != table.current[other]);
    }
}

/// A caller that joins and goes away again leaves the generation as it was.
pub proof fn law_leave_undoes_join(entry: EntryView)
    requires
        0 < entry.waiters < usize::MAX,
    ensures
        entry.joined().left() == entry,
{
}

/// A generation is aborted by its last caller and by no earlier one: of an active
/// generation with `n` callers, any fewer than `n` can go away and it stays active;
/// when all have gone, it is aborting and the producer has been told, by the flag that it
/// may have taken long before.
pub proof fn law_only_the_last_waiter_aborts(
    table: SingleflightView,
    key: Option<LargestAccountsFilter>,
    id: GenerationId,
    gone: nat,
)
    requires
        table.is_current(key, id),
        table.entries.contains_key(id),
        table.entries[id].state is Active,
        gone <= table.entries[id].waiters,
        table.entries[id].waiters > 0,
    ensures
        ({
            let after = all_left(table, key, id, gone);
            &&& after.current == table.current
            &&& after.flag_of(id) == table.flag_of(id)
            &&& after.entries[id].waiters == table.entries[id].waiters - gone
            &&& if gone < table.entries[id].waiters {
                after.entries[id].state is Active && after.entries[id].abort
                    == table.entries[id].abort
            } else {
                after.entries[id].state is Aborting && after.entries[id].abort
            }
        }),
    decreases gone,
{
    if gone > 0 {
        law_only_the_last_waiter_aborts(table, key, id, (gone - 1) as nat);
    }
}

/// Completion wins over callers that go away: once the producer has committed, no
/// number of departures aborts the generation.
pub proof fn law_completion_wins_over_departures(
    table: SingleflightView,
    key: Option<LargestAccountsFilter>,
    id: GenerationId,
    gone: nat,
)
    requires
        table.commits(key, id),
    ensures
        ({
            let after = all_left(table.committed(key, id), key, id, gone);
            &&& after.is_current(key, id)
            &&& after.entries[id].state is Completing
            &&& after.entries[id].abort == table.entries[id].abort
        }),
    decreases gone,
{
    if gone > 0 {
        law_completion_wins_over_departures(table, key, id, (gone - 1) as nat);
    }
}

/// Departure wins over a later completion: when the last caller of an active generation
/// has gone, its producer can no longer commit.
pub proof fn law_abort_wins_over_completion(
    table: SingleflightView,
    key: Option<LargestAccountsFilter>,
    id: GenerationId,
)
    requires
        table.is_current(key, id),
        table.entries[id].state is Active,
        table.entries[id].waiters == 1,
    ensures
        !table.left(key, id).commits(key, id),
        table.left(key, id).committed(key, id).entries[id].state is Aborting,
{
}

/// A generation that is aborting or completing keeps its key: until it publishes, no
/// operation on it lets another generation of that key start.
pub proof fn law_retiring_generation_keeps_its_key(
    table: SingleflightView,
    key: Option<LargestAccountsFilter>,
    id: GenerationId,
)
    requires
        table.consistent(),
        table.is_current(key, id),
        table.entries[id].state is Aborting || table.entries[id].state is Completing,
    ensures
        ({
            let retiring = |after: SingleflightView|
                after.is_current(key, id) && after.running(key) && !(after.entry_of(
                    key,
                ).state is Active);
            &&& retiring(table)
            &&& retiring(table.held(id))
            &&& retiring(table.dropped(id))
            &&& retiring(table.left(key, id))
            &&& retiring(table.left(key, id).dropped(id))
            &&& retiring(table.committed(key, id))
        }),
{
    let bare = table.with(id, table.entries[id].dropped());
    assert(bare.is_current(key, id));
    let left = table.left(key, id);
    let bare_left = left.with(id, left.entries[id].dropped());
    assert(bare_left.is_current(key, id));
}

/// Whoever holds a generation reads the outcome that was published last, and its key is
/// free: the next generation of that key is another one.
pub proof fn law_published_outcome_reaches_holders(
    table: SingleflightView,
    key: Option<LargestAccountsFilter>,
    id: GenerationId,
    outcome: OutcomeView,
)
    requires
        table.consistent(),
        table.holds(id),
    ensures
        ({
            let after = table.published(key, id, outcome);
            &&& after.holds(id)
            &&& after.entries[id].value == Some(outcome)
            &&& !after.is_current(key, id)
            &&& table.is_current(key, id) ==> {
                &&& after.entries[id].state is Terminal
                &&& !after.running(key)
                &&& after.cleared(key).entries.contains_key(id)
            }
        }),
{
}

/// Publishing touches nothing but the generation that publishes: every other one, and
/// the list of every other key, stay as they were.
pub proof fn law_publishing_is_local(
    table: SingleflightView,
    key: Option<LargestAccountsFilter>,
    id: GenerationId,
    outcome: OutcomeView,
    other: GenerationId,
)
    requires
        table.consistent(),
        table.entries.contains_key(id),
        other != id,
    ensures
        ({
            let after = table.published(key, id, outcome);
            &&& after.entries.contains_key(other) == table.entries.contains_key(other)
            &&& table.entries.contains_key(other) ==> after.entries[other] == table.entries[other]
            &&& forall|its: Option<LargestAccountsFilter>|
                its != key ==> (#[trigger] after.current.contains_key(its)
                    == table.current.contains_key(its)) && (table.current.contains_key(its)
                    ==> after.current[its] == table.current[its])
        }),
{
}

/// A stale producer does no harm: publishing, committing or leaving with a generation
/// that is not the one of `key`, be it an earlier one or one of another coordinator, leaves
/// the list, and the generation of `key`, alone.
pub proof fn law_stale_generation_does_no_harm(
    table: SingleflightView,
    key: Option<LargestAccountsFilter>,
    id: GenerationId,
    outcome: OutcomeView,
)
    requires
        !table.is_current(key, id),
    ensures
        table.published(key, id, outcome).current == table.current,
        table.current.contains_key(key) ==> table.published(key, id, outcome).entry_of(key)
            == table.entry_of(key),
        !table.commits(key, id),
        table.committed(key, id) == table,
        table.left(key, id) == table,
{
}

/// A producer that goes away without an outcome does not block its key: those who still
/// hold the generation read that it was aborted, and the next caller starts a new one.
pub proof fn law_lost_producer_can_be_replaced(
    table: SingleflightView,
    key: Option<LargestAccountsFilter>,
    id: GenerationId,
)
    requires
        table.consistent(),
        table.is_current(key, id),
        1 < table.entries[id].holders < usize::MAX,
    ensures
        ({
            let after = table.published(key, id, generation::producer_aborted_view()).dropped(id);
            &&& after.holds(id)
            &&& after.entries[id].value == Some(generation::producer_aborted_view())
            &&& !after.current.contains_key(key)
            &&& !after.running(key)
        }),
{
}

/// A generation lives in the table exactly until its last handle is dropped: of one that
/// is no longer listed and has `n` handles, fewer than `n` drops leave it readable, and
/// `n` drops remove it.
pub proof fn law_forgotten_with_the_last_handle(
    table: SingleflightView,
    id: GenerationId,
    gone: nat,
)
    requires
        table.holds(id),
        !table.is_listed(id),
        table.entries[id].holders < usize::MAX,
        gone <= table.entries[id].holders,
    ensures
        ({
            let after = all_dropped(table, id, gone);
            &&& after.current == table.current
            &&& after.entries.contains_key(id) == (gone < table.entries[id].holders)
            &&& gone < table.entries[id].holders ==> after.entries[id].value
                == table.entries[id].value && after.entries[id].holders
                == table.entries[id].holders - gone
        }),
    decreases gone,
{
    if gone > 0 {
        law_forgotten_with_the_last_handle(table, id, (gone - 1) as nat);
        let before = all_dropped(table, id, (gone - 1) as nat);
        let bare = before.with(id, before.entries[id].dropped());
        if bare.is_listed(id) {
            let key = choose|key: Option<LargestAccountsFilter>| #[trigger]
                bare.is_current(key, id);
            assert(table.is_current(key, id));
        }
    }
}

/// Every generation is listed exactly until it has ended: so it is of a coordinator
/// without generations, and every operation keeps it so.
pub proof fn law_listed_until_ended(
    table: SingleflightView,
    key: Option<LargestAccountsFilter>,
    id: GenerationId,
    flag: int,
    waiters: usize,
    holders: usize,
    outcome: OutcomeView,
)
    requires
        table.consistent(),
        listed_until_ended(table),
    ensures
        listed_until_ended(SingleflightView::empty()),
        table.running(key) == table.current.contains_key(key),
        table.cleared(key) == table,
        !table.running(key) && !table.entries.contains_key(id) ==> listed_until_ended(
            table.started(key, id, flag, waiters, holders),
        ),
        table.current.contains_key(key) ==> listed_until_ended(table.joined(key)),
        table.entries.contains_key(id) ==> {
            &&& listed_until_ended(table.held(id))
            &&& listed_until_ended(table.dropped(id))
            &&& listed_until_ended(table.left(key, id))
            &&& listed_until_ended(table.committed(key, id))
            &&& listed_until_ended(table.published(key, id, outcome))
        },
{
    if table.current.contains_key(key) {
        assert(table.is_current(key, table.current[key]));
        assert(table.is_listed(table.current[key]));
        lemma_relisted(table, table.joined(key));
    }
    if !table.running(key) && !table.entries.contains_key(id) {
        let after = table.started(key, id, flag, waiters, holders);
        assert forall|other: GenerationId| #[trigger] after.entries.contains_key(other) implies (
        after.is_listed(other) <==> !(after.entries[other].state is Terminal)) by {
            if other == id {
                assert(after.is_current(key, id));
            } else if table.is_listed(other) {
                let its = choose|its: Option<LargestAccountsFilter>| #[trigger]
                    table.is_current(its, other);
                assert(after.is_current(its, other));
            } else if after.is_listed(other) {
                let its = choose|its: Option<LargestAccountsFilter>| #[trigger]
                    after.is_current(its, other);
                assert(table.is_current(its, other));
            }
        }
    }
    if table.entries.contains_key(id) {
        lemma_relisted(table, table.held(id));
        lemma_relisted(table, table.dropped(id));
        lemma_relisted(table, table.left(key, id));
        lemma_relisted(table, table.committed(key, id));
        let after = table.published(key, id, outcome);
        if table.is_current(key, id) {
            assert forall|other: GenerationId| #[trigger]
                after.entries.contains_key(other) implies (after.is_listed(other) <==> !(
            after.entries[other].state is Terminal)) by {
                assert(table.entries.contains_key(other));
                if after.is_listed(other) {
                    let its = choose|its: Option<LargestAccountsFilter>| #[trigger]
                        after.is_current(its, other);
                    assert(table.is_current(its, other));
                } else if table.is_listed(other) && other != id {
                    let its = choose|its: Option<LargestAccountsFilter>| #[trigger]
                        table.is_current(its, other);
                    assert(after.is_current(its, other));
                }
            }
        } else {
            lemma_relisted(table, after);
        }
    }
}

/// An operation that leaves the list alone and ends no generation keeps every generation
/// listed until it has ended.
proof fn lemma_relisted(table: SingleflightView, after: SingleflightView)
    requires
        listed_until_ended(table),
        after.current == table.current,
        forall|id: GenerationId| #[trigger]
            after.entries.contains_key(id) ==> table.entries.contains_key(id) && (
            after.entries[id].state is Terminal <==> table.entries[id].state is Terminal),
    ensures
        listed_until_ended(after),
{
    assert forall|id: GenerationId| #[trigger]
        after.entries.contains_key(id) implies (after.is_listed(id) <==> !(
    after.entries[id].state is Terminal)) by {
        if after.is_listed(id) {
            let its = choose|its: Option<LargestAccountsFilter>| #[trigger]
                after.is_current(its, id);
            assert(table.is_current(its, id));
        }
        if table.is_listed(id) {
            let its = choose|its: Option<LargestAccountsFilter>| #[trigger]
                table.is_current(its, id);
            assert(after.is_current(its, id));
        }
    }
}

/// Nothing but publishing sets the outcome of a generation, and nothing but the departure
/// of its last caller tells its producer to abort.
pub proof fn law_outcome_and_abort_have_one_cause_each(entry: EntryView, outcome: OutcomeView)
    ensures
        entry.published(outcome).value == Some(outcome),
        entry.joined().value == entry.value,
        entry.left().value == entry.value,
        entry.committed().value == entry.value,
        entry.ended().value == entry.value,
        entry.held().value == entry.value,
        entry.dropped().value == entry.value,
        entry.left().abort == (entry.abort || (entry.waiters == 1 && entry.state is Active)),
        entry.joined().abort == entry.abort,
        entry.committed().abort == entry.abort,
        entry.published(outcome).abort == entry.abort,
        entry.ended().abort == entry.abort,
        entry.held().abort == entry.abort,
        entry.dropped().abort == entry.abort,
{
}

/// Generations only move on, whatever is done to them.
pub proof fn law_generations_only_move_on(entry: EntryView, outcome: OutcomeView)
    ensures
        follows(entry, entry.joined()),
        follows(entry, entry.left()),
        follows(entry, entry.committed()),
        follows(entry, entry.published(outcome)),
        follows(entry, entry.ended()),
        follows(entry, entry.held()),
        follows(entry, entry.dropped()),
{
}

/// What a coordinator does: every one of its functions takes one or two of these steps.
pub enum SingleflightStep {
    /// A generation of `key` starts, because there was none or it had ended.
    Start {
        key: Option<LargestAccountsFilter>,
        id: GenerationId,
        flag: int,
        waiters: usize,
        holders: usize,
    },
    /// A caller joins the generation of `key`.
    Join { key: Option<LargestAccountsFilter> },
    /// Someone takes a handle.
    Hold { id: GenerationId },
    /// Someone drops a handle.
    Drop { id: GenerationId },
    /// A caller goes away.
    Leave { key: Option<LargestAccountsFilter>, id: GenerationId },
    /// A producer has its outcome.
    Commit { key: Option<LargestAccountsFilter>, id: GenerationId },
    /// A producer publishes and ends its generation.
    Publish { key: Option<LargestAccountsFilter>, id: GenerationId, outcome: OutcomeView },
    /// Someone publishes without ending anything.
    Announce { id: GenerationId, outcome: OutcomeView },
}

impl SingleflightStep {
    /// Whether the step can be taken: what it is about is there, or, at the start of a
    /// generation, is not.
    pub open spec fn possible(self, table: SingleflightView) -> bool {
        match self {
            SingleflightStep::Start { key, id, .. } => !table.running(key) && !table.cleared(
                key,
            ).entries.contains_key(id),
            SingleflightStep::Join { key } => table.current.contains_key(key),
            SingleflightStep::Hold { id } => table.entries.contains_key(id),
            SingleflightStep::Drop { id } => table.entries.contains_key(id),
            SingleflightStep::Leave { .. } => true,
            SingleflightStep::Commit { .. } => true,
            SingleflightStep::Publish { id, .. } => table.entries.contains_key(id),
            SingleflightStep::Announce { id, .. } => table.entries.contains_key(id),
        }
    }

    /// The table after the step.
    pub open spec fn taken(self, table: SingleflightView) -> SingleflightView {
        match self {
            SingleflightStep::Start { key, id, flag, waiters, holders } => table.cleared(
                key,
            ).started(key, id, flag, waiters, holders),
            SingleflightStep::Join { key } => table.joined(key),
            SingleflightStep::Hold { id } => table.held(id),
            SingleflightStep::Drop { id } => table.dropped(id),
            SingleflightStep::Leave { key, id } => table.left(key, id),
            SingleflightStep::Commit { key, id } => table.committed(key, id),
            SingleflightStep::Publish { key, id, outcome } => table.published(key, id, outcome),
            SingleflightStep::Announce { id, outcome } => table.with(
                id,
                table.entries[id].published(outcome),
            ),
        }
    }

    /// Whether the step is that the generation `id` of `key` publishes and ends.
    pub open spec fn ends(self, key: Option<LargestAccountsFilter>, id: GenerationId) -> bool {
        self matches SingleflightStep::Publish { key: its_key, id: its_id, .. } && its_key == key
            && its_id == id
    }
}

/// The table after the steps.
pub open spec fn after_steps(
    table: SingleflightView,
    steps: Seq<SingleflightStep>,
) -> SingleflightView
    decreases steps.len(),
{
    if steps.len() == 0 {
        table
    } else {
        steps.last().taken(after_steps(table, steps.drop_last()))
    }
}

/// Whether the steps can be taken, one after the other.
pub open spec fn possible_steps(table: SingleflightView, steps: Seq<SingleflightStep>) -> bool
    decreases steps.len(),
{
    steps.len() > 0 ==> {
        &&& possible_steps(table, steps.drop_last())
        &&& steps.last().possible(after_steps(table, steps.drop_last()))
    }
}

/// Every step keeps the table consistent.
pub proof fn law_every_step_keeps_the_table_consistent(
    table: SingleflightView,
    step: SingleflightStep,
)
    requires
        table.consistent(),
        step.possible(table),
    ensures
        step.taken(table).consistent(),
{
    match step {
        SingleflightStep::Start { key, id, flag, waiters, holders } => {
            if table.current.contains_key(key) {
                singleflight::lemma_unlisted(table, key);
            }
            singleflight::lemma_started(table.cleared(key), key, id, flag, waiters, holders);
        },
        SingleflightStep::Join { key } => {
            assert(table.is_current(key, table.current[key]));
            singleflight::lemma_with(
                table,
                table.current[key],
                table.entry_of(key).joined().held().held(),
            );
        },
        SingleflightStep::Hold { id } => {
            singleflight::lemma_with(table, id, table.entries[id].held());
        },
        SingleflightStep::Drop { id } => {
            singleflight::lemma_dropped(table, id);
        },
        SingleflightStep::Leave { key, id } => {
            if table.is_current(key, id) {
                singleflight::lemma_with(table, id, table.entries[id].left());
            }
        },
        SingleflightStep::Commit { key, id } => {
            if table.is_current(key, id) {
                singleflight::lemma_with(table, id, table.entries[id].committed());
            }
        },
        SingleflightStep::Publish { key, id, outcome } => {
            if table.is_current(key, id) {
                let ended = table.entries[id].ended().published(outcome);
                singleflight::lemma_with(table, id, ended);
                singleflight::lemma_unlisted(table.with(id, ended), key);
            } else {
                singleflight::lemma_with(table, id, table.entries[id].published(outcome));
            }
        },
        SingleflightStep::Announce { id, outcome } => {
            singleflight::lemma_with(table, id, table.entries[id].published(outcome));
        },
    }
}

/// A generation that has not ended stays the one of its key, whatever is done to any
/// generation of any key, until it publishes and ends itself. So no caller of that key is
/// admitted as a producer: that takes a key whose generation is not running.
pub proof fn law_running_generation_keeps_its_key(
    table: SingleflightView,
    key: Option<LargestAccountsFilter>,
    id: GenerationId,
    step: SingleflightStep,
)
    requires
        table.consistent(),
        table.is_current(key, id),
        !(table.entries[id].state is Terminal),
        step.possible(table),
        !step.ends(key, id),
    ensures
        step.taken(table).is_current(key, id),
        step.taken(table).running(key),
        step.taken(table).entries.contains_key(id),
        !(step.taken(table).entries[id].state is Terminal),
        follows(table.entries[id], step.taken(table).entries[id]),
{
    assert(table.current.contains_key(key));
    match step {
        SingleflightStep::Start { key: its_key, .. } => {
            if table.current.contains_key(its_key) {
                let bare = SingleflightView { current: table.current.remove(its_key), ..table };
                assert(table.current[its_key] != table.current[key]);
                assert(bare.is_current(key, id));
            }
        },
        SingleflightStep::Drop { id: its_id } => {
            let bare = table.with(its_id, table.entries[its_id].dropped());
            assert(bare.is_current(key, id));
        },
        SingleflightStep::Publish { key: its_key, id: its_id, .. } => {
            if table.is_current(its_key, its_id) {
                assert(table.current[its_key] != table.current[key]);
            }
        },
        _ => {},
    }
}

/// One producer of a key at a time: from when a generation of `key` is there until it
/// publishes and ends, no matter what else happens in between, it stays the one generation
/// of `key`, and no caller of `key` is admitted as a producer.
pub proof fn law_one_producer_until_published(
    table: SingleflightView,
    key: Option<LargestAccountsFilter>,
    id: GenerationId,
    steps: Seq<SingleflightStep>,
)
    requires
        table.consistent(),
        table.is_current(key, id),
        !(table.entries[id].state is Terminal),
        possible_steps(table, steps),
        forall|n: int| 0 <= n < steps.len() ==> !(#[trigger] steps[n]).ends(key, id),
    ensures
        after_steps(table, steps).consistent(),
        after_steps(table, steps).is_current(key, id),
        after_steps(table, steps).running(key),
        !(after_steps(table, steps).entries[id].state is Terminal),
        after_steps(table, steps).flag_of(id) == table.flag_of(id),
    decreases steps.len(),
{
    assert(table.current.contains_key(key));
    if steps.len() > 0 {
        let earlier = steps.drop_last();
        assert forall|n: int| 0 <= n < earlier.len() implies !(#[trigger] earlier[n]).ends(
            key,
            id,
        ) by {
            assert(earlier[n] == steps[n]);
        }
        law_one_producer_until_published(table, key, id, earlier);
        let before = after_steps(table, earlier);
        law_every_step_keeps_the_table_consistent(before, steps.last());
        law_running_generation_keeps_its_key(before, key, id, steps.last());
    }
}

/// Whether the two tables hold the same generations, but for `id`.
pub open spec fn same_but(
    before: SingleflightView,
    after: SingleflightView,
    id: GenerationId,
) -> bool {
    forall|other: GenerationId|
        #![trigger after.entries.contains_key(other)]
        #![trigger after.entries[other]]
        other != id ==> after.entries.contains_key(other) == before.entries.contains_key(other) && (
        before.entries.contains_key(other) ==> after.entries[other] == before.entries[other])
}

/// A generation that has just started holds no outcome and no abort: whoever waits on it
/// before something is published has to wait. It is the generation of its key, and nothing
/// else has changed.
pub proof fn law_new_generation_holds_no_outcome(
    table: SingleflightView,
    key: Option<LargestAccountsFilter>,
    id: GenerationId,
    flag: int,
    waiters: usize,
    holders: usize,
)
    ensures
        ({
            let after = table.started(key, id, flag, waiters, holders);
            &&& after.entries.contains_key(id)
            &&& after.entries[id].value is None
            &&& !after.entries[id].abort
            &&& after.entries[id].state == GenerationState::Active
            &&& after.entries[id].flag == flag
            &&& after.entries[id].waiters == waiters
            &&& after.entries[id].holders == holders
            &&& after.current.contains_key(key)
            &&& after.current[key] == id
            &&& forall|other: Option<LargestAccountsFilter>|
                other != key ==> (#[trigger] after.current.contains_key(other)
                    == table.current.contains_key(other)) && (table.current.contains_key(other)
                    ==> after.current[other] == table.current[other])
            &&& same_but(table, after, id)
        }),
{
}

/// A caller that joins adds itself and its two handles to the generation of its key, and
/// changes nothing else.
pub proof fn law_joining_adds_one_caller(
    table: SingleflightView,
    key: Option<LargestAccountsFilter>,
    id: GenerationId,
)
    requires
        table.consistent(),
        table.current.contains_key(key),
        table.current[key] == id,
    ensures
        ({
            let before = table.entries[id];
            let after = table.joined(key);
            &&& after.current == table.current
            &&& after.entries.contains_key(id)
            &&& before.waiters < usize::MAX ==> after.entries[id].waiters == before.waiters + 1
            &&& before.waiters == usize::MAX ==> after.entries[id].waiters == 0
            &&& before.holders > usize::MAX - 2 ==> after.entries[id].holders == usize::MAX
            &&& before.holders <= usize::MAX - 2 ==> after.entries[id].holders == before.holders
                + 2
            &&& after.entries[id] == EntryView {
                waiters: after.entries[id].waiters,
                holders: after.entries[id].holders,
                ..before
            }
            &&& same_but(table, after, id)
        }),
{
}

/// A handle that is taken adds one to the handles of its generation, and changes nothing
/// else.
pub proof fn law_holding_adds_one_handle(table: SingleflightView, id: GenerationId)
    requires
        table.entries.contains_key(id),
    ensures
        ({
            let before = table.entries[id];
            let after = table.held(id);
            &&& after.current == table.current
            &&& after.entries.contains_key(id)
            &&& before.holders < usize::MAX ==> after.entries[id].holders == before.holders + 1
            &&& before.holders == usize::MAX ==> after.entries[id].holders == usize::MAX
            &&& after.entries[id] == EntryView { holders: after.entries[id].holders, ..before }
            &&& same_but(table, after, id)
        }),
{
}

/// A handle that is dropped takes one from the handles of its generation. The generation is
/// forgotten exactly if that was its last handle and no key has it; nothing else changes. A
/// count that has reached its limit stays there.
pub proof fn law_dropping_takes_one_handle(table: SingleflightView, id: GenerationId)
    requires
        table.entries.contains_key(id),
        table.entries[id].holders > 0,
    ensures
        ({
            let before = table.entries[id];
            let after = table.dropped(id);
            let listed = exists|key: Option<LargestAccountsFilter>| #[trigger]
                table.current.contains_key(key) && table.current[key] == id;
            &&& after.current == table.current
            &&& after.entries.contains_key(id) <==> before.holders > 1 || listed
            &&& before.holders > 1 || listed ==> after.entries[id] == EntryView {
                holders: after.entries[id].holders,
                ..before
            }
            &&& 1 < before.holders < usize::MAX || listed && before.holders == 1
                ==> after.entries[id].holders == before.holders - 1
            &&& before.holders == usize::MAX ==> after.entries[id].holders == usize::MAX
            &&& same_but(table, after, id)
        }),
{
    let bare = table.with(id, table.entries[id].dropped());
    if exists|key: Option<LargestAccountsFilter>| #[trigger]
        table.current.contains_key(key) && table.current[key] == id {
        let key = choose|key: Option<LargestAccountsFilter>| #[trigger]
            table.current.contains_key(key) && table.current[key] == id;
        assert(bare.is_current(key, id));
    }
    if bare.is_listed(id) {
        let key = choose|key: Option<LargestAccountsFilter>| #[trigger] bare.is_current(key, id);
        assert(table.current.contains_key(key) && table.current[key] == id);
    }
}

/// A caller that leaves takes one from the callers of its generation, as long as that is the
/// one of its key. If it was the last caller of an active generation, the producer is told
/// to abort; in every other case it is not. Nothing else changes.
pub proof fn law_leaving_takes_one_caller(
    table: SingleflightView,
    key: Option<LargestAccountsFilter>,
    id: GenerationId,
)
    requires
        table.consistent(),
    ensures
        ({
            let before = table.entries[id];
            let after = table.left(key, id);
            let current = table.current.contains_key(key) && table.current[key] == id;
            &&& !current ==> after == table
            &&& current ==> {
                &&& after.current == table.current
                &&& after.entries.contains_key(id)
                &&& before.waiters > 0 ==> after.entries[id].waiters == before.waiters - 1
                &&& before.waiters == 0 ==> after.entries[id].waiters == usize::MAX
                &&& before.waiters == 1 && before.state == GenerationState::Active ==> {
                    &&& after.entries[id].state == GenerationState::Aborting
                    &&& after.entries[id].abort
                }
                &&& before.waiters != 1 || before.state != GenerationState::Active ==> {
                    &&& after.entries[id].state == before.state
                    &&& after.entries[id].abort == before.abort
                }
                &&& after.entries[id].value == before.value
                &&& after.entries[id].flag == before.flag
                &&& after.entries[id].holders == before.holders
                &&& same_but(table, after, id)
            }
        }),
{
    if table.current.contains_key(key) {
        assert(table.entries.contains_key(table.current[key]));
    }
}

/// The producer of the active generation of a key can commit, whatever the key: it is told
/// so, and its generation is completing from then on. No other producer can, and nothing
/// else changes.
pub proof fn law_active_generation_commits(
    table: SingleflightView,
    key: Option<LargestAccountsFilter>,
    id: GenerationId,
)
    requires
        table.consistent(),
    ensures
        ({
            let before = table.entries[id];
            let after = table.committed(key, id);
            let active = table.current.contains_key(key) && table.current[key] == id
                && before.state == GenerationState::Active;
            &&& active ==> {
                &&& table.commits(key, id)
                &&& after.current == table.current
                &&& after.entries.contains_key(id)
                &&& after.entries[id] == EntryView { state: GenerationState::Completing, ..before }
                &&& same_but(table, after, id)
            }
            &&& !active ==> {
                &&& !table.commits(key, id)
                &&& after.current == table.current
                &&& after.entries =~= table.entries
            }
        }),
{
    if table.current.contains_key(key) {
        assert(table.entries.contains_key(table.current[key]));
    }
}

/// What is published is what its generation then holds, for whoever holds the generation. If
/// it is the one of its key, it has ended and the key has none; if not, its state and all
/// keys stay as they were. Nothing else changes.
pub proof fn law_publishing_sets_the_outcome(
    table: SingleflightView,
    key: Option<LargestAccountsFilter>,
    id: GenerationId,
    outcome: OutcomeView,
)
    requires
        table.consistent(),
        table.entries.contains_key(id),
    ensures
        ({
            let before = table.entries[id];
            let after = table.published(key, id, outcome);
            let current = table.current.contains_key(key) && table.current[key] == id;
            &&& after.entries.contains_key(id) <==> !current || before.holders > 0
            &&& !current ==> {
                &&& after.current == table.current
                &&& after.entries[id] == EntryView { value: Some(outcome), ..before }
            }
            &&& current ==> {
                &&& !after.current.contains_key(key)
                &&& before.holders > 0 ==> after.entries[id] == EntryView {
                    value: Some(outcome),
                    state: GenerationState::Terminal,
                    ..before
                }
            }
            &&& forall|other: Option<LargestAccountsFilter>|
                other != key ==> (#[trigger] after.current.contains_key(other)
                    == table.current.contains_key(other)) && (table.current.contains_key(other)
                    ==> after.current[other] == table.current[other])
            &&& same_but(table, after, id)
        }),
{
    if table.is_current(key, id) {
        let bare = SingleflightView {
            current: table.current.remove(key),
            ..table.with(id, table.entries[id].ended().published(outcome))
        };
        if bare.is_listed(id) {
            let other = choose|other: Option<LargestAccountsFilter>| #[trigger]
                bare.is_current(other, id);
            assert(table.current[other] == table.current[key]);
        }
    }
}

/// A key is taken exactly as long as it has a generation that has not ended. Where it has
/// one that has ended, that one is taken off the list before the next starts, and is
/// forgotten if nobody holds it; nothing else changes.
pub proof fn law_key_is_taken_until_its_generation_ends(
    table: SingleflightView,
    key: Option<LargestAccountsFilter>,
)
    requires
        table.consistent(),
    ensures
        ({
            let id = table.current[key];
            let taken = table.current.contains_key(key) && table.entries[id].state
                != GenerationState::Terminal;
            let after = table.cleared(key);
            &&& table.running(key) == taken
            &&& table.entry_of(key) == table.entries[id]
            &&& taken || !table.current.contains_key(key) ==> after == table
            &&& !taken && table.current.contains_key(key) ==> {
                &&& !after.current.contains_key(key)
                &&& after.entries.contains_key(id) <==> table.entries[id].holders > 0
                &&& table.entries[id].holders > 0 ==> after.entries[id] == table.entries[id]
                &&& forall|other: Option<LargestAccountsFilter>|
                    other != key ==> (#[trigger] after.current.contains_key(other)
                        == table.current.contains_key(other)) && (table.current.contains_key(other)
                        ==> after.current[other] == table.current[other])
                &&& same_but(table, after, id)
            }
        }),
{
    if table.current.contains_key(key) {
        let id = table.current[key];
        let bare = SingleflightView { current: table.current.remove(key), ..table };
        if bare.is_listed(id) {
            let other = choose|other: Option<LargestAccountsFilter>| #[trigger]
                bare.is_current(other, id);
            assert(table.current[other] == table.current[key]);
        }
    }
}

/// The words in which the coordinator is described mean what they say.
pub proof fn law_what_is_current_and_held(
    table: SingleflightView,
    key: Option<LargestAccountsFilter>,
    id: GenerationId,
)
    ensures
        table.is_current(key, id) <==> table.current.contains_key(key) && table.current[key] == id,
        table.holds(id) <==> table.entries.contains_key(id) && table.entries[id].holders > 0,
        table.flag_of(id) == table.entries[id].flag,
        SingleflightView::empty().current == Map::<
            Option<LargestAccountsFilter>,
            GenerationId,
        >::empty(),
        SingleflightView::empty().entries == Map::<GenerationId, EntryView>::empty(),
{
}

/// One caller's admission is to one generation of one key: its handle, and what it hands
/// back when it leaves, stand for that generation.
pub proof fn law_admission_is_to_one_generation(
    admission: SingleflightAdmission,
    key: Option<LargestAccountsFilter>,
    id: GenerationId,
)
    ensures
        admission.admits(key, id) <==> admission.entry@ == id && admission.waiter.id() == id
            && admission.waiter.key() == key,
{
}

/// Whatever happens, a generation that is held has one abort flag, through which an abort is
/// never taken back, and an outcome that is never lost.
pub proof fn law_held_generation_only_moves_on(
    table: SingleflightView,
    id: GenerationId,
    step: SingleflightStep,
)
    requires
        table.consistent(),
        table.holds(id),
        step.possible(table),
        step.taken(table).entries.contains_key(id),
    ensures
        follows(table.entries[id], step.taken(table).entries[id]),
        step.taken(table).flag_of(id) == table.flag_of(id),
        table.entries[id].abort ==> step.taken(table).entries[id].abort,
{
    match step {
        SingleflightStep::Start { key, .. } => {
            law_key_is_taken_until_its_generation_ends(table, key);
        },
        _ => {},
    }
}

/// Before anything is published, whoever waits has to wait: of a generation without an
/// outcome, no step but a publication by it sets one.
pub proof fn law_no_outcome_before_publication(
    table: SingleflightView,
    id: GenerationId,
    step: SingleflightStep,
)
    requires
        table.consistent(),
        table.holds(id),
        table.entries[id].value is None,
        step.possible(table),
        !(step matches SingleflightStep::Publish { id: its_id, .. } && its_id == id),
        !(step matches SingleflightStep::Announce { id: its_id, .. } && its_id == id),
        step.taken(table).entries.contains_key(id),
    ensures
        step.taken(table).entries[id].value is None,
{
    match step {
        SingleflightStep::Start { key, .. } => {
            law_key_is_taken_until_its_generation_ends(table, key);
        },
        _ => {},
    }
}

/// A producer that went away tells those who wait so, in these words.
pub proof fn law_lost_producer_is_told_in_words()
    ensures
        generation::producer_aborted_view() == Err::<
            (u64, Seq<crate::accounts::BalanceView>),
            Seq<char>,
        >("producer task aborted"@),
{
}

} // verus!
