//! One computation at a time for each largest-accounts filter.
//!
//! Callers that ask for the same filter share one *generation*: the first becomes its
//! producer, the others wait for the outcome. When the last caller of an active
//! generation goes away, the generation is told to abort; no new generation of that
//! filter starts before the old one has ended.

use std::collections::HashMap;
use vstd::prelude::*;
use vstd::std_specs::hash::*;

use crate::accounts;
use crate::accounts::{LargestAccountsFilter, LargestAccountsOutcome, OutcomeView};
use crate::generation;
use crate::generation::{EntryView, GenerationState, InflightEntry};
use crate::outcome_channel;
use crate::outcome_channel::OutcomeReceiver;

verus! {

/// What tells one generation from all others: the channel that only it has, and its place
/// in the coordinator that it belongs to.
pub struct GenerationId {
    pub index: int,
    pub channel: int,
}

/// What stands for one generation of one coordinator. A handle carries a receiving end of
/// the generation's channel, by which it is told apart from the handles of every other
/// generation, of this coordinator or of another. A generation stays in memory as long as a
/// handle to it exists.
#[derive(Debug)]
pub struct EntryHandle {
    index: usize,
    receiver: OutcomeReceiver,
}

impl View for EntryHandle {
    type V = GenerationId;

    closed spec fn view(&self) -> GenerationId {
        GenerationId {
            index: self.index as int,
            channel: outcome_channel::receiver_channel(self.receiver),
        }
    }
}

impl EntryHandle {
    /// Whether both handles belong to the same generation.
    pub fn same_entry(&self, other: &EntryHandle) -> (same: bool)
        ensures
            same == (self@ == other@),
    {
        self.index == other.index && outcome_channel::same_channel(&self.receiver, &other.receiver)
    }
}

/// What the coordinator knows: which generation each filter has, and every generation
/// that someone may still read.
#[verifier::ext_equal]
pub struct SingleflightView {
    pub current: Map<Option<LargestAccountsFilter>, GenerationId>,
    pub entries: Map<GenerationId, EntryView>,
}

impl SingleflightView {
    /// No generation at all.
    pub open spec fn empty() -> SingleflightView {
        SingleflightView { current: Map::empty(), entries: Map::empty() }
    }

    /// Whether `id` is the generation of `key`.
    pub open spec fn is_current(
        self,
        key: Option<LargestAccountsFilter>,
        id: GenerationId,
    ) -> bool {
        self.current.contains_key(key) && self.current[key] == id
    }

    /// Whether `id` is the generation of any key.
    pub open spec fn is_listed(self, id: GenerationId) -> bool {
        exists|key: Option<LargestAccountsFilter>| #[trigger] self.is_current(key, id)
    }

    /// Whether someone has a handle to the generation `id`.
    pub open spec fn holds(self, id: GenerationId) -> bool {
        self.entries.contains_key(id) && self.entries[id].holders > 0
    }

    /// The generation of `key`.
    pub open spec fn entry_of(self, key: Option<LargestAccountsFilter>) -> EntryView {
        self.entries[self.current[key]]
    }

    /// The abort flag of the generation `id`.
    pub open spec fn flag_of(self, id: GenerationId) -> int {
        self.entries[id].flag
    }

    /// What every operation keeps: the listed generations exist, no generation is
    /// listed twice, and every other generation is held by someone.
    pub open spec fn consistent(self) -> bool {
        &&& forall|key: Option<LargestAccountsFilter>| #[trigger]
            self.current.contains_key(key) ==> self.entries.contains_key(self.current[key])
        &&& forall|a: Option<LargestAccountsFilter>, b: Option<LargestAccountsFilter>|
            #![trigger self.current[a], self.current[b]]
            self.current.contains_key(a) && self.current.contains_key(b) && self.current[a]
                == self.current[b] ==> a == b
        &&& forall|id: GenerationId| #[trigger]
            self.entries.contains_key(id) ==> self.is_listed(id) || self.entries[id].holders > 0
    }

    /// The generation `id` replaced by `entry`.
    pub open spec fn with(self, id: GenerationId, entry: EntryView) -> SingleflightView {
        SingleflightView { entries: self.entries.insert(id, entry), ..self }
    }

    /// The generation `id` forgotten, if nothing refers to it.
    pub open spec fn collected(self, id: GenerationId) -> SingleflightView {
        if self.entries.contains_key(id) && self.entries[id].holders == 0 && !self.is_listed(id) {
            SingleflightView { entries: self.entries.remove(id), ..self }
        } else {
            self
        }
    }

    /// A new generation `id` of `key`, with the abort flag `flag`.
    pub open spec fn started(
        self,
        key: Option<LargestAccountsFilter>,
        id: GenerationId,
        flag: int,
        waiters: usize,
        holders: usize,
    ) -> SingleflightView {
        SingleflightView {
            current: self.current.insert(key, id),
            entries: self.entries.insert(id, EntryView::fresh(flag, waiters, holders)),
        }
    }

    /// `key` without a generation.
    pub open spec fn unlisted(self, key: Option<LargestAccountsFilter>) -> SingleflightView {
        SingleflightView { current: self.current.remove(key), ..self }.collected(self.current[key])
    }

    /// Whether `key` has a generation that has not ended.
    pub open spec fn running(self, key: Option<LargestAccountsFilter>) -> bool {
        self.current.contains_key(key) && !(self.entry_of(key).state is Terminal)
    }

    /// The table in which a new generation of `key` can start: an ended one is taken
    /// off the list.
    pub open spec fn cleared(self, key: Option<LargestAccountsFilter>) -> SingleflightView {
        if self.current.contains_key(key) && self.entry_of(key).state is Terminal {
            self.unlisted(key)
        } else {
            self
        }
    }

    /// One more handle to `id`.
    pub open spec fn held(self, id: GenerationId) -> SingleflightView {
        self.with(id, self.entries[id].held())
    }

    /// One more caller of the generation of `key`, with its two handles.
    pub open spec fn joined(self, key: Option<LargestAccountsFilter>) -> SingleflightView {
        self.with(self.current[key], self.entry_of(key).joined().held().held())
    }

    /// One handle to `id` less.
    pub open spec fn dropped(self, id: GenerationId) -> SingleflightView {
        self.with(id, self.entries[id].dropped()).collected(id)
    }

    /// A caller of the generation `id` of `key` goes away.
    pub open spec fn left(
        self,
        key: Option<LargestAccountsFilter>,
        id: GenerationId,
    ) -> SingleflightView {
        if self.is_current(key, id) {
            self.with(id, self.entries[id].left())
        } else {
            self
        }
    }

    /// The producer of the generation `id` of `key` has its outcome.
    pub open spec fn committed(
        self,
        key: Option<LargestAccountsFilter>,
        id: GenerationId,
    ) -> SingleflightView {
        if self.is_current(key, id) {
            self.with(id, self.entries[id].committed())
        } else {
            self
        }
    }

    /// Whether the producer of the generation `id` of `key` may publish a success.
    pub open spec fn commits(self, key: Option<LargestAccountsFilter>, id: GenerationId) -> bool {
        self.is_current(key, id) && self.entries[id].state is Active
    }

    /// The generation `id` of `key` publishes `outcome` and ends. One that is no longer
    /// the generation of `key` publishes to those who still hold it.
    pub open spec fn published(
        self,
        key: Option<LargestAccountsFilter>,
        id: GenerationId,
        outcome: OutcomeView,
    ) -> SingleflightView {
        if self.is_current(key, id) {
            self.with(id, self.entries[id].ended().published(outcome)).unlisted(key)
        } else {
            self.with(id, self.entries[id].published(outcome))
        }
    }
}

/// Replacing a generation by one that is still listed or held keeps the table
/// consistent.
pub(crate) proof fn lemma_with(table: SingleflightView, id: GenerationId, entry: EntryView)
    requires
        table.consistent(),
        table.entries.contains_key(id),
        table.is_listed(id) || entry.holders > 0,
    ensures
        table.with(id, entry).consistent(),
{
    let after = table.with(id, entry);
    assert forall|other: GenerationId| #[trigger]
        after.entries.contains_key(other) implies after.is_listed(other)
        || after.entries[other].holders > 0 by {
        assert(table.entries.contains_key(other));
        if table.is_listed(other) {
            let key = choose|key: Option<LargestAccountsFilter>| #[trigger]
                table.is_current(key, other);
            assert(after.is_current(key, other));
        }
    }
}

/// Starting a generation under an unused name keeps the table consistent.
pub(crate) proof fn lemma_started(
    table: SingleflightView,
    key: Option<LargestAccountsFilter>,
    id: GenerationId,
    flag: int,
    waiters: usize,
    holders: usize,
)
    requires
        table.consistent(),
        !table.current.contains_key(key),
        !table.entries.contains_key(id),
    ensures
        table.started(key, id, flag, waiters, holders).consistent(),
{
    let after = table.started(key, id, flag, waiters, holders);
    assert forall|other: GenerationId| #[trigger]
        after.entries.contains_key(other) implies after.is_listed(other)
        || after.entries[other].holders > 0 by {
        if other == id {
            assert(after.is_current(key, id));
        } else {
            assert(table.entries.contains_key(other));
            if table.is_listed(other) {
                let its = choose|its: Option<LargestAccountsFilter>| #[trigger]
                    table.is_current(its, other);
                assert(after.is_current(its, other));
            }
        }
    }
}

/// Taking a key off the list keeps the table consistent.
pub(crate) proof fn lemma_unlisted(table: SingleflightView, key: Option<LargestAccountsFilter>)
    requires
        table.consistent(),
        table.current.contains_key(key),
    ensures
        table.unlisted(key).consistent(),
{
    let id = table.current[key];
    let bare = SingleflightView { current: table.current.remove(key), ..table };
    let after = table.unlisted(key);
    assert forall|other: GenerationId| #[trigger]
        after.entries.contains_key(other) implies after.is_listed(other)
        || after.entries[other].holders > 0 by {
        assert(table.entries.contains_key(other));
        if table.is_listed(other) && other != id {
            let its = choose|its: Option<LargestAccountsFilter>| #[trigger]
                table.is_current(its, other);
            assert(after.is_current(its, other));
        }
        if other == id && bare.is_listed(id) {
            let its = choose|its: Option<LargestAccountsFilter>| #[trigger]
                bare.is_current(its, id);
            assert(after.is_current(its, id));
        }
    }
    assert forall|its: Option<LargestAccountsFilter>| #[trigger]
        after.current.contains_key(its) implies after.entries.contains_key(after.current[its]) by {
        assert(table.current.contains_key(its));
        assert(bare.is_current(its, after.current[its]));
    }
}

/// Dropping a handle keeps the table consistent.
pub(crate) proof fn lemma_dropped(table: SingleflightView, id: GenerationId)
    requires
        table.consistent(),
        table.entries.contains_key(id),
    ensures
        table.dropped(id).consistent(),
{
    let bare = table.with(id, table.entries[id].dropped());
    let after = table.dropped(id);
    assert forall|other: GenerationId| #[trigger]
        after.entries.contains_key(other) implies after.is_listed(other)
        || after.entries[other].holders > 0 by {
        assert(table.entries.contains_key(other));
        if table.is_listed(other) {
            let its = choose|its: Option<LargestAccountsFilter>| #[trigger]
                table.is_current(its, other);
            assert(after.is_current(its, other));
        }
        if bare.is_listed(other) {
            let its = choose|its: Option<LargestAccountsFilter>| #[trigger]
                bare.is_current(its, other);
            assert(after.is_current(its, other));
        }
    }
    assert forall|its: Option<LargestAccountsFilter>| #[trigger]
        after.current.contains_key(its) implies after.entries.contains_key(after.current[its]) by {
        assert(table.current.contains_key(its));
        assert(bare.is_current(its, after.current[its]));
    }
}

/// The filter whose code is `code`.
spec fn filter_of(code: u64) -> Option<LargestAccountsFilter> {
    if code == 0 {
        None
    } else if code == 1 {
        Some(LargestAccountsFilter::Circulating)
    } else {
        Some(LargestAccountsFilter::NonCirculating)
    }
}

/// A set of keys has at most three elements.
proof fn lemma_three_keys(keys: Set<Option<LargestAccountsFilter>>)
    ensures
        keys.finite(),
        keys.len() <= 3,
{
    let all = set![
        None,
        Some(LargestAccountsFilter::Circulating),
        Some(LargestAccountsFilter::NonCirculating),
    ];
    assert forall|key: Option<LargestAccountsFilter>| keys.contains(key) implies all.contains(
        key,
    ) by {
        match key {
            None => {},
            Some(LargestAccountsFilter::Circulating) => {},
            Some(LargestAccountsFilter::NonCirculating) => {},
        }
    }
    vstd::set_lib::lemma_len_subset(keys, all);
}

/// One caller admitted to a generation.
pub struct SingleflightAdmission {
    /// Whether this caller has to compute the outcome.
    pub is_producer: bool,
    pub entry: EntryHandle,
    pub waiter: SingleflightWaiterLease,
}

impl SingleflightAdmission {
    /// Whether this admission is one to the generation `id` of `key`.
    pub open spec fn admits(&self, key: Option<LargestAccountsFilter>, id: GenerationId) -> bool {
        self.entry@ == id && self.waiter.id() == id && self.waiter.key() == key
    }
}

/// One caller that waits on a generation, to be handed back when it goes away.
pub struct SingleflightWaiterLease {
    key: Option<LargestAccountsFilter>,
    entry: EntryHandle,
}

impl SingleflightWaiterLease {
    /// The key of the generation that the caller waits on.
    pub closed spec fn key(&self) -> Option<LargestAccountsFilter> {
        self.key
    }

    /// The generation that the caller waits on.
    pub closed spec fn id(&self) -> GenerationId {
        self.entry@
    }
}

/// Bounded coordinator for exactly the three filter-only keys: no filter, the
/// circulating and the non-circulating accounts.
///
/// Only the filter is the key. Distinct keys can have three simultaneous producers.
pub struct LargestAccountsSingleflight {
    /// The generation of each key, by the code of the key.
    inner: HashMap<u64, usize>,
    /// Every generation that is listed or held, at the place that its handles name.
    entries: Vec<Option<InflightEntry>>,
}

impl View for LargestAccountsSingleflight {
    type V = SingleflightView;

    closed spec fn view(&self) -> SingleflightView {
        SingleflightView {
            current: Map::new(
                |key: Option<LargestAccountsFilter>|
                    self.inner@.contains_key(accounts::filter_code_spec(key)),
                |key: Option<LargestAccountsFilter>|
                    self.id_at(self.inner@[accounts::filter_code_spec(key)] as int),
            ),
            entries: Map::new(
                |id: GenerationId| self.occupied(id.index) && id == self.id_at(id.index),
                |id: GenerationId| self.entries@[id.index]->0@,
            ),
        }
    }
}

impl LargestAccountsSingleflight {
    /// Whether there is a generation at `index`.
    spec fn occupied(&self, index: int) -> bool {
        0 <= index < self.entries@.len() && self.entries@[index] is Some
    }

    /// The generation at `index`.
    spec fn id_at(&self, index: int) -> GenerationId {
        GenerationId { index, channel: self.entries@[index]->0.channel() }
    }

    /// Whether every generation has its channel, under one of the three keys.
    pub closed spec fn table_wf(&self) -> bool {
        &&& forall|index: int| #[trigger]
            self.occupied(index) ==> self.entries@[index]->0.wf()
        &&& forall|code: u64| #[trigger]
            self.inner@.contains_key(code) ==> code < 3 && self.occupied(self.inner@[code] as int)
    }

    /// What every coordinator satisfies.
    pub open spec fn wf(&self) -> bool {
        self.table_wf() && self@.consistent()
    }

    /// Whether `entry` is a handle that this coordinator gave out and counts.
    pub open spec fn knows(&self, entry: &EntryHandle) -> bool {
        self@.holds(entry@)
    }

    /// A coordinator without any generation.
    pub fn new() -> (coordinator: Self)
        ensures
            coordinator.wf(),
            coordinator@ == SingleflightView::empty(),
    {
        let coordinator = LargestAccountsSingleflight {
            inner: HashMap::new(),
            entries: Vec::new(),
        };
        assert(coordinator@ =~= SingleflightView::empty());
        coordinator
    }

    /// The generation that `entry` stands for.
    pub fn entry(&self, entry: &EntryHandle) -> (inflight: &InflightEntry)
        requires
            self.wf(),
            self.knows(entry),
        ensures
            inflight@ == self@.entries[entry@],
            inflight.channel() == entry@.channel,
    {
        self.entry_at(entry.index)
    }

    /// The generation at `index`.
    fn entry_at(&self, index: usize) -> (inflight: &InflightEntry)
        requires
            self.table_wf(),
            self.occupied(index as int),
        ensures
            inflight.wf(),
            inflight@ == self@.entries[self.id_at(index as int)],
            inflight.channel() == self.id_at(index as int).channel,
    {
        self.entries[index].as_ref().unwrap()
    }

    /// The generation at `index`, to be changed.
    fn entry_mut(&mut self, index: usize) -> (inflight: &mut InflightEntry)
        requires
            old(self).table_wf(),
            old(self).occupied(index as int),
        ensures
            inflight.wf(),
            inflight@ == old(self)@.entries[old(self).id_at(index as int)],
            final(inflight).wf() && final(inflight).channel() == inflight.channel() ==> {
                &&& final(self).table_wf()
                &&& final(self)@ == old(self)@.with(
                    old(self).id_at(index as int),
                    final(inflight)@,
                )
                &&& final(self).occupied(index as int)
                &&& final(self).id_at(index as int) == old(self).id_at(index as int)
            },
    {
        proof {
            self.lemma_changed(index as int);
        }
        self.entries[index].as_mut().unwrap()
    }

    /// Changing the generation at one index, but for its channel, changes nothing else.
    proof fn lemma_changed(&self, index: int)
        requires
            self.table_wf(),
            self.occupied(index),
        ensures
            forall|after: Self, entry: InflightEntry|
                #![trigger after.table_wf(), entry.wf()]
                after.inner == self.inner && after.entries@ == self.entries@.update(
                    index,
                    Some(entry),
                ) && entry.wf() && entry.channel() == self.id_at(index).channel ==> {
                    &&& after.table_wf()
                    &&& after@ == self@.with(self.id_at(index), entry@)
                    &&& after.occupied(index)
                    &&& after.id_at(index) == self.id_at(index)
                },
    {
        assert forall|after: Self, entry: InflightEntry|
            #![trigger after.table_wf(), entry.wf()]
            after.inner == self.inner && after.entries@ == self.entries@.update(index, Some(entry))
                && entry.wf() && entry.channel() == self.id_at(index).channel implies {
            &&& after.table_wf()
            &&& after@ == self@.with(self.id_at(index), entry@)
            &&& after.occupied(index)
            &&& after.id_at(index) == self.id_at(index)
        } by {
            assert forall|other: int| #[trigger] after.occupied(other) implies self.occupied(other)
                && after.id_at(other) == self.id_at(other) by {}
            assert forall|other: int| #[trigger] self.occupied(other) implies after.occupied(other)
                && after.id_at(other) == self.id_at(other) by {}
            assert(after@.current =~= self@.current);
            assert(after@.entries =~= self@.entries.insert(self.id_at(index), entry@));
        }
    }

    /// A handle to the generation at `index`.
    fn handle_at(&self, index: usize) -> (handle: EntryHandle)
        requires
            self.table_wf(),
            self.occupied(index as int),
        ensures
            handle@ == self.id_at(index as int),
    {
        EntryHandle { index, receiver: self.entry_at(index).subscribe() }
    }

    /// Where the generation of `key` is.
    fn current(&self, key: &Option<LargestAccountsFilter>) -> (current: Option<usize>)
        requires
            self.wf(),
        ensures
            match current {
                Some(index) => self.occupied(index as int) && self@.is_current(
                    *key,
                    self.id_at(index as int),
                ),
                None => !self@.current.contains_key(*key),
            },
    {
        broadcast use group_hash_axioms;

        match self.inner.get(&accounts::filter_code(key)) {
            Some(index) => {
                assert(self@.current.contains_key(*key));
                Some(*index)
            },
            None => None,
        }
    }

    /// Where the generation of `key` is, if `entry` is a handle to it.
    fn current_if(&self, key: &Option<LargestAccountsFilter>, entry: &EntryHandle) -> (current:
        Option<usize>)
        requires
            self.wf(),
        ensures
            match current {
                Some(index) => self.occupied(index as int) && self.id_at(index as int) == entry@
                    && self@.is_current(*key, entry@),
                None => !self@.is_current(*key, entry@),
            },
    {
        match self.current(key) {
            Some(index) => {
                if index == entry.index && self.entry_at(index).announces_to(&entry.receiver) {
                    Some(index)
                } else {
                    None
                }
            },
            None => None,
        }
    }

    /// Whether the generation at `index` is listed under any key.
    fn listed(&self, index: usize) -> (listed: bool)
        requires
            self.table_wf(),
        ensures
            listed == self@.is_listed(self.id_at(index as int)),
            listed == exists|code: u64| #[trigger]
                self.inner@.contains_key(code) && self.inner@[code] == index,
    {
        broadcast use group_hash_axioms;

        let mut code: u64 = 0;
        while code < 3
            invariant
                code <= 3,
                forall|earlier: u64|
                    earlier < code && #[trigger] self.inner@.contains_key(earlier)
                        ==> self.inner@[earlier] != index,
            decreases 3 - code,
        {
            broadcast use group_hash_axioms;

            if let Some(place) = self.inner.get(&code) {
                if *place == index {
                    assert(self@.is_current(filter_of(code), self.id_at(index as int)));
                    return true;
                }
            }
            code += 1;
        }
        proof {
            if self@.is_listed(self.id_at(index as int)) {
                let key = choose|key: Option<LargestAccountsFilter>| #[trigger]
                    self@.is_current(key, self.id_at(index as int));
                assert(self.inner@.contains_key(accounts::filter_code_spec(key)));
            }
        }
        false
    }

    /// Forgets the generation at `index` if nothing refers to it.
    fn collect(&mut self, index: usize)
        requires
            old(self).table_wf(),
            old(self).occupied(index as int),
        ensures
            final(self).table_wf(),
            final(self)@ == old(self)@.collected(old(self).id_at(index as int)),
    {
        if !self.listed(index) {
            let held = self.entry_at(index).is_held();
            if !held {
                self.entries[index] = None;
                proof {
                    assert forall|other: int| #[trigger] self.occupied(other) implies other != index
                        && old(self).occupied(other) && self.id_at(other) == old(self).id_at(
                        other,
                    ) by {}
                    assert forall|other: int|
                        other != index && #[trigger] old(self).occupied(
                            other,
                        ) implies self.occupied(other) && self.id_at(other) == old(self).id_at(
                        other,
                    ) by {}
                    assert(self@.current =~= old(self)@.current);
                    assert(self@.entries =~= old(self)@.entries.remove(
                        old(self).id_at(index as int),
                    ));
                }
            }
        }
    }

    /// Takes `key` off the list, whose generation is at `index`.
    fn unlist(&mut self, key: &Option<LargestAccountsFilter>, index: usize)
        requires
            old(self).wf(),
            old(self).occupied(index as int),
            old(self)@.is_current(*key, old(self).id_at(index as int)),
        ensures
            final(self).wf(),
            final(self)@ == old(self)@.unlisted(*key),
    {
        broadcast use group_hash_axioms;

        proof {
            lemma_unlisted(self@, *key);
        }
        self.inner.remove(&accounts::filter_code(key));
        assert forall|other: int| #[trigger] self.occupied(other) == old(self).occupied(other) by {}
        assert(self@ =~= (SingleflightView {
            current: old(self)@.current.remove(*key),
            ..old(self)@
        }));
        assert(self.id_at(index as int) == old(self).id_at(index as int));
        self.collect(index);
    }

    /// Starts a generation of `key`.
    fn start(
        &mut self,
        key: &Option<LargestAccountsFilter>,
        waiters: usize,
        holders: usize,
    ) -> (index: usize)
        requires
            old(self).wf(),
            !old(self)@.current.contains_key(*key),
        ensures
            final(self).wf(),
            final(self).occupied(index as int),
            !old(self)@.entries.contains_key(final(self).id_at(index as int)),
            final(self)@ == old(self)@.started(
                *key,
                final(self).id_at(index as int),
                final(self)@.flag_of(final(self).id_at(index as int)),
                waiters,
                holders,
            ),
    {
        broadcast use group_hash_axioms;

        let mut index: usize = 0;
        while index < self.entries.len() && self.entries[index].is_some()
            invariant
                index <= self.entries@.len(),
            decreases self.entries@.len() - index,
        {
            index += 1;
        }
        let entry = InflightEntry::fresh(waiters, holders);
        let ghost id = GenerationId { index: index as int, channel: entry.channel() };
        let ghost flag = entry@.flag;
        proof {
            lemma_started(self@, *key, id, flag, waiters, holders);
        }
        if index < self.entries.len() {
            self.entries[index] = Some(entry);
        } else {
            self.entries.push(Some(entry));
        }
        self.inner.insert(accounts::filter_code(key), index);
        proof {
            assert(self.id_at(index as int) == id);
            assert forall|other: int| other != index && #[trigger] self.occupied(other) implies old(
                self,
            ).occupied(other) && self.id_at(other) == old(self).id_at(other) by {}
            assert forall|other: int| #[trigger] old(self).occupied(other) implies other != index
                && self.occupied(other) && self.id_at(other) == old(self).id_at(other) by {}
            assert forall|its: Option<LargestAccountsFilter>|
                its != *key && #[trigger] old(self)@.current.contains_key(its) implies
                self@.current.contains_key(its) && self@.current[its] == old(
                self,
            )@.current[its] by {
                assert(old(self)@.entries.contains_key(old(self)@.current[its]));
            }
            assert(self@.current =~= old(self)@.current.insert(*key, id));
            assert(self@.entries =~= old(self)@.entries.insert(
                id,
                EntryView::fresh(flag, waiters, holders),
            ));
        }
        index
    }

    /// Admits one caller of `key`: to the active generation of `key`, or, as its
    /// producer, to a new one if there is none. A generation that is aborting or
    /// completing admits nobody; it is returned instead, and has to end first.
    pub fn get_or_create_with_waiter(&mut self, key: &Option<LargestAccountsFilter>) -> (admission:
        Result<SingleflightAdmission, EntryHandle>)
        requires
            old(self).wf(),
        ensures
            final(self).wf(),
            !old(self)@.running(*key) ==> {
                &&& admission matches Ok(admitted)
                &&& admitted.is_producer
                &&& admitted.admits(*key, admitted.entry@)
                &&& !old(self)@.cleared(*key).entries.contains_key(admitted.entry@)
                &&& final(self)@ == old(self)@.cleared(*key).started(
                    *key,
                    admitted.entry@,
                    final(self)@.flag_of(admitted.entry@),
                    1,
                    2,
                )
            },
            old(self)@.running(*key) && old(self)@.entry_of(*key).state is Active ==> {
                &&& admission matches Ok(admitted)
                &&& !admitted.is_producer
                &&& admitted.admits(*key, old(self)@.current[*key])
                &&& final(self)@ == old(self)@.joined(*key)
            },
            old(self)@.running(*key) && !(old(self)@.entry_of(*key).state is Active) ==> {
                &&& admission matches Err(retiring)
                &&& retiring@ == old(self)@.current[*key]
                &&& final(self)@ == old(self)@.held(old(self)@.current[*key])
            },
    {
        if let Some(index) = self.current(key) {
            let ghost id = self.id_at(index as int);
            let state = self.entry_at(index).state();
            match state {
                GenerationState::Active => {
                    proof {
                        lemma_with(self@, id, self@.joined(*key).entries[id]);
                    }
                    let existing = self.entry_mut(index);
                    existing.join();
                    existing.hold();
                    existing.hold();
                    return Ok(
                        SingleflightAdmission {
                            is_producer: false,
                            entry: self.handle_at(index),
                            waiter: SingleflightWaiterLease {
                                key: *key,
                                entry: self.handle_at(index),
                            },
                        },
                    );
                },
                GenerationState::Aborting | GenerationState::Completing => {
                    proof {
                        lemma_with(self@, id, self@.entries[id].held());
                    }
                    self.entry_mut(index).hold();
                    return Err(self.handle_at(index));
                },
                GenerationState::Terminal => {
                    self.unlist(key, index);
                },
            }
        }
        let index: usize = self.start(key, 1, 2);
        Ok(
            SingleflightAdmission {
                is_producer: true,
                entry: self.handle_at(index),
                waiter: SingleflightWaiterLease { key: *key, entry: self.handle_at(index) },
            },
        )
    }

    /// The generation of `key`, whatever its state, or a new one without callers.
    /// Returns whether it is new.
    pub fn get_or_create(&mut self, key: &Option<LargestAccountsFilter>) -> (result: (
        bool,
        EntryHandle,
    ))
        requires
            old(self).wf(),
        ensures
            final(self).wf(),
            result.0 == !old(self)@.current.contains_key(*key),
            if result.0 {
                &&& !old(self)@.entries.contains_key(result.1@)
                &&& final(self)@ == old(self)@.started(
                    *key,
                    result.1@,
                    final(self)@.flag_of(result.1@),
                    0,
                    1,
                )
            } else {
                &&& result.1@ == old(self)@.current[*key]
                &&& final(self)@ == old(self)@.held(result.1@)
            },
    {
        if let Some(index) = self.current(key) {
            let ghost id = self.id_at(index as int);
            proof {
                lemma_with(self@, id, self@.entries[id].held());
            }
            self.entry_mut(index).hold();
            (false, self.handle_at(index))
        } else {
            let index: usize = self.start(key, 0, 1);
            (true, self.handle_at(index))
        }
    }

    /// Whether the producer of `entry` may publish a success: only while `entry` is the
    /// active generation of `key`. From then on the generation can no longer abort.
    pub fn try_commit_success(
        &mut self,
        key: &Option<LargestAccountsFilter>,
        entry: &EntryHandle,
    ) -> (committed: bool)
        requires
            old(self).wf(),
        ensures
            final(self).wf(),
            committed == old(self)@.commits(*key, entry@),
            final(self)@ == old(self)@.committed(*key, entry@),
    {
        if let Some(index) = self.current_if(key, entry) {
            proof {
                lemma_with(self@, entry@, self@.entries[entry@].committed());
            }
            return self.entry_mut(index).commit();
        }
        false
    }

    /// Publishes `result` to everyone who waits on `entry`, without ending it.
    pub fn publish(&mut self, entry: &EntryHandle, result: LargestAccountsOutcome)
        requires
            old(self).wf(),
            old(self).knows(entry),
        ensures
            final(self).wf(),
            final(self)@ == old(self)@.with(
                entry@,
                old(self)@.entries[entry@].published(accounts::outcome_view(result)),
            ),
    {
        proof {
            lemma_with(
                self@,
                entry@,
                self@.entries[entry@].published(accounts::outcome_view(result)),
            );
        }
        self.entry_mut(entry.index).publish(result);
    }

    /// Publishes `result` to everyone who waits on `entry`. If `entry` is the generation
    /// of `key`, it ends and the next caller of `key` starts a new one.
    pub fn publish_and_remove(
        &mut self,
        key: &Option<LargestAccountsFilter>,
        entry: &EntryHandle,
        result: LargestAccountsOutcome,
    )
        requires
            old(self).wf(),
            old(self).knows(entry),
        ensures
            final(self).wf(),
            final(self)@ == old(self)@.published(*key, entry@, accounts::outcome_view(result)),
    {
        match self.current_if(key, entry) {
            Some(index) => {
                proof {
                    lemma_with(
                        self@,
                        entry@,
                        self@.entries[entry@].ended().published(accounts::outcome_view(result)),
                    );
                }
                let existing = self.entry_mut(index);
                existing.end();
                existing.publish(result);
                self.unlist(key, index);
            },
            None => {
                self.publish(entry, result);
            },
        }
    }

    /// A caller goes away. If it was the last one of an active generation, the
    /// generation is told to abort.
    pub fn drop_waiter(&mut self, waiter: SingleflightWaiterLease)
        requires
            old(self).wf(),
            old(self)@.holds(waiter.id()),
        ensures
            final(self).wf(),
            final(self)@ == old(self)@.left(waiter.key(), waiter.id()).dropped(waiter.id()),
    {
        if let Some(index) = self.current_if(&waiter.key, &waiter.entry) {
            proof {
                lemma_with(self@, waiter.id(), self@.entries[waiter.id()].left());
            }
            self.entry_mut(index).leave();
        }
        self.drop_handle(waiter.entry);
    }

    /// One more handle to the generation of `entry`.
    pub fn clone_handle(&mut self, entry: &EntryHandle) -> (copy: EntryHandle)
        requires
            old(self).wf(),
            old(self).knows(entry),
        ensures
            final(self).wf(),
            copy@ == entry@,
            final(self)@ == old(self)@.held(entry@),
    {
        proof {
            lemma_with(self@, entry@, self@.entries[entry@].held());
        }
        self.entry_mut(entry.index).hold();
        self.handle_at(entry.index)
    }

    /// Takes a handle back. The generation is forgotten with its last handle, unless it
    /// is still the generation of its key.
    pub fn drop_handle(&mut self, entry: EntryHandle)
        requires
            old(self).wf(),
            old(self).knows(&entry),
        ensures
            final(self).wf(),
            final(self)@ == old(self)@.dropped(entry@),
    {
        proof {
            lemma_dropped(self@, entry@);
        }
        self.entry_mut(entry.index).drop_holder();
        self.collect(entry.index);
    }

    /// There are as many listed keys as codes, and at most three.
    proof fn lemma_count(&self)
        requires
            self.table_wf(),
        ensures
            self@.current.dom().len() == self.inner@.dom().len(),
            self@.current.dom().len() <= 3,
            self.inner@.dom().finite(),
    {
        let keys = self@.current.dom();
        lemma_three_keys(keys);
        let code = |key: Option<LargestAccountsFilter>| accounts::filter_code_spec(key);
        assert forall|number: u64| #[trigger] self.inner@.dom().contains(number) implies keys.map(
            code,
        ).contains(number) by {
            assert(keys.contains(filter_of(number)));
            assert(code(filter_of(number)) == number);
        }
        assert(keys.map(code) =~= self.inner@.dom());
        vstd::set_lib::lemma_map_size(keys, self.inner@.dom(), code);
    }

    /// Whether `key` has a generation.
    pub fn is_inflight(&self, key: &Option<LargestAccountsFilter>) -> (inflight: bool)
        requires
            self.wf(),
        ensures
            inflight == self@.current.contains_key(*key),
    {
        self.current(key).is_some()
    }

    /// The number of keys that have a generation.
    pub fn inflight_count(&self) -> (count: usize)
        requires
            self.wf(),
        ensures
            count == self@.current.dom().len(),
            count <= 3,
    {
        broadcast use group_hash_axioms;

        proof {
            self.lemma_count();
        }
        self.inner.len()
    }

    /// Whether no key has a generation.
    pub fn is_empty(&self) -> (empty: bool)
        requires
            self.wf(),
        ensures
            empty == (self@.current == Map::<Option<LargestAccountsFilter>, GenerationId>::empty()),
    {
        broadcast use group_hash_axioms;

        proof {
            self.lemma_count();
            if self.inner@.dom().is_empty() {
                assert(self@.current =~= Map::empty());
            } else {
                let code = self.inner@.dom().choose();
                let key = filter_of(code);
                assert(self@.current.contains_key(key));
            }
        }
        self.inner.is_empty()
    }
}

/// What the producer of a generation holds while it computes, to be handed back when it
/// is done. A producer that goes away without having completed its generation publishes
/// that it was aborted.
pub struct SingleflightLease {
    key: Option<LargestAccountsFilter>,
    entry: EntryHandle,
    completed: bool,
}

impl SingleflightLease {
    /// The key of the generation.
    pub closed spec fn key(&self) -> Option<LargestAccountsFilter> {
        self.key
    }

    /// The generation.
    pub closed spec fn id(&self) -> GenerationId {
        self.entry@
    }

    /// Whether the producer is done.
    pub closed spec fn completed(&self) -> bool {
        self.completed
    }

    /// The lease of the producer of the generation of `entry`.
    pub fn new(key: Option<LargestAccountsFilter>, entry: EntryHandle) -> (lease: Self)
        ensures
            lease.key() == key,
            lease.id() == entry@,
            !lease.completed(),
    {
        SingleflightLease { key, entry, completed: false }
    }

    /// The producer is done: handing the lease back publishes nothing.
    pub fn mark_completed(&mut self)
        ensures
            final(self).key() == old(self).key(),
            final(self).id() == old(self).id(),
            final(self).completed(),
    {
        self.completed = true;
    }

    /// [`LargestAccountsSingleflight::try_commit_success`] for this generation.
    pub fn try_commit_success(&self, coordinator: &mut LargestAccountsSingleflight) -> (committed:
        bool)
        requires
            old(coordinator).wf(),
        ensures
            final(coordinator).wf(),
            committed == old(coordinator)@.commits(self.key(), self.id()),
            final(coordinator)@ == old(coordinator)@.committed(self.key(), self.id()),
    {
        coordinator.try_commit_success(&self.key, &self.entry)
    }

    /// [`LargestAccountsSingleflight::publish_and_remove`] for this generation.
    pub fn publish_and_remove(
        &self,
        coordinator: &mut LargestAccountsSingleflight,
        result: LargestAccountsOutcome,
    )
        requires
            old(coordinator).wf(),
            old(coordinator)@.holds(self.id()),
        ensures
            final(coordinator).wf(),
            final(coordinator)@ == old(coordinator)@.published(
                self.key(),
                self.id(),
                accounts::outcome_view(result),
            ),
    {
        coordinator.publish_and_remove(&self.key, &self.entry, result);
    }

    /// The producer goes away. Unless it was done, those who wait are told that it was
    /// aborted, and the generation ends.
    pub fn drop_producer(self, coordinator: &mut LargestAccountsSingleflight)
        requires
            old(coordinator).wf(),
            old(coordinator)@.holds(self.id()),
        ensures
            final(coordinator).wf(),
            final(coordinator)@ == if self.completed() {
                old(coordinator)@.dropped(self.id())
            } else {
                old(coordinator)@.published(
                    self.key(),
                    self.id(),
                    generation::producer_aborted_view(),
                ).dropped(self.id())
            },
    {
        if !self.completed {
            self.publish_and_remove(coordinator, generation::producer_aborted());
        }
        coordinator.drop_handle(self.entry);
    }
}

impl EntryHandle {
    /// A handle stands for the generation at its place whose channel it is an end of.
    proof fn law_handle_stands_for_its_generation(&self)
        ensures
            self@.index == self.index,
            self@.channel == outcome_channel::receiver_channel(self.receiver),
    {
    }
}

} // verus!
