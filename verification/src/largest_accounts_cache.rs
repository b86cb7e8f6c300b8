//! Keeps the largest accounts of each filter for a limited time.

use std::collections::HashMap;
use std::time::SystemTime;
use vstd::prelude::*;
use vstd::std_specs::hash::*;

use crate::accounts;
use crate::accounts::{
    copy_balances, filter_code, AccountBalance, BalanceView, LargestAccountsFilter,
};
use crate::clock;
use crate::clock::Timestamp;

verus! {

/// The answers that were cached last, by filter.
#[derive(Debug)]
pub struct LargestAccountsCache {
    /// For how many seconds an answer is good.
    duration: u64,
    /// The answers, by the code of their filter.
    cache: HashMap<u64, LargestAccountsCacheValue>,
}

/// One cached answer.
#[derive(Debug)]
pub struct LargestAccountsCacheValue {
    accounts: Vec<AccountBalance>,
    slot: u64,
    cached_time: Timestamp,
}

/// What one answer is made of.
pub struct CachedAnswer {
    pub slot: u64,
    pub accounts: Seq<BalanceView>,
    /// When the answer was cached, in nanoseconds since the Unix epoch.
    pub cached_time: int,
}

impl CachedAnswer {
    /// Whether the answer is good for another while: it is not from the future, and less
    /// than `duration` seconds old.
    pub open spec fn is_fresh(self, now: int, duration: u64) -> bool {
        self.cached_time <= now && now - self.cached_time < duration * 1_000_000_000
    }
}

/// What the cache holds.
#[verifier::ext_equal]
pub struct CacheView {
    pub duration: u64,
    pub answers: Map<Option<LargestAccountsFilter>, CachedAnswer>,
}

impl CacheView {
    /// The answer for `filter` at the time `now`.
    pub open spec fn lookup(self, filter: Option<LargestAccountsFilter>, now: int) -> Option<
        (u64, Seq<BalanceView>),
    > {
        if self.answers.contains_key(filter) && self.answers[filter].is_fresh(now, self.duration) {
            Some((self.answers[filter].slot, self.answers[filter].accounts))
        } else {
            None
        }
    }

    /// The cache with a new answer for `filter`.
    pub open spec fn stored(
        self,
        filter: Option<LargestAccountsFilter>,
        slot: u64,
        accounts: Seq<BalanceView>,
        cached_time: int,
    ) -> CacheView {
        CacheView {
            answers: self.answers.insert(filter, CachedAnswer { slot, accounts, cached_time }),
            ..self
        }
    }
}

/// The content of what the cache returns.
pub open spec fn answer_view(answer: Option<(u64, Vec<AccountBalance>)>) -> Option<
    (u64, Seq<BalanceView>),
> {
    match answer {
        Some((slot, list)) => Some((slot, accounts::balances_view(list@))),
        None => None,
    }
}

impl View for LargestAccountsCacheValue {
    type V = CachedAnswer;

    closed spec fn view(&self) -> CachedAnswer {
        CachedAnswer {
            slot: self.slot,
            accounts: accounts::balances_view(self.accounts@),
            cached_time: self.cached_time@,
        }
    }
}

impl View for LargestAccountsCache {
    type V = CacheView;

    closed spec fn view(&self) -> CacheView {
        CacheView {
            duration: self.duration,
            answers: Map::new(
                |filter: Option<LargestAccountsFilter>|
                    self.cache@.contains_key(accounts::filter_code_spec(filter)),
                |filter: Option<LargestAccountsFilter>|
                    self.cache@[accounts::filter_code_spec(filter)]@,
            ),
        }
    }
}

impl Clone for LargestAccountsCacheValue {
    fn clone(&self) -> (copy: Self)
        ensures
            copy@ == self@,
    {
        LargestAccountsCacheValue {
            accounts: copy_balances(self.accounts.as_slice()),
            slot: self.slot,
            cached_time: self.cached_time,
        }
    }
}

impl Clone for LargestAccountsCache {
    fn clone(&self) -> (copy: Self)
        ensures
            copy@ == self@,
    {
        let circulating = Some(LargestAccountsFilter::Circulating);
        let non_circulating = Some(LargestAccountsFilter::NonCirculating);
        let mut copy = LargestAccountsCache::new(self.duration);
        copy.copy_answer(self, &None);
        copy.copy_answer(self, &circulating);
        copy.copy_answer(self, &non_circulating);
        assert(copy@ =~= self@);
        copy
    }
}

impl LargestAccountsCache {
    /// Caches what `other` has for `filter`.
    fn copy_answer(&mut self, other: &LargestAccountsCache, filter: &Option<LargestAccountsFilter>)
        ensures
            final(self)@ == (if other@.answers.contains_key(*filter) {
                CacheView {
                    answers: old(self)@.answers.insert(*filter, other@.answers[*filter]),
                    ..old(self)@
                }
            } else {
                old(self)@
            }),
    {
        broadcast use group_hash_axioms;

        if let Some(value) = other.cache.get(&filter_code(filter)) {
            self.cache.insert(filter_code(filter), value.clone());
            assert(self@.answers =~= old(self)@.answers.insert(*filter, other@.answers[*filter]));
        }
    }

    /// An empty cache whose answers are good for `duration` seconds.
    pub fn new(duration: u64) -> (cache: Self)
        ensures
            cache@ == (CacheView { duration, answers: Map::empty() }),
    {
        let cache = LargestAccountsCache { duration, cache: HashMap::new() };
        assert(cache@ =~= (CacheView { duration, answers: Map::empty() }));
        cache
    }

    /// The cached answer for `filter`, if it is good now.
    pub fn get_largest_accounts(&self, filter: &Option<LargestAccountsFilter>) -> (answer: Option<
        (u64, Vec<AccountBalance>),
    >)
        ensures
            exists|now: SystemTime|
                answer_view(answer) == self@.lookup(
                    *filter,
                    #[trigger] clock::nanos_since_epoch(now),
                ),
    {
        self.get_largest_accounts_at(filter, Timestamp::now())
    }

    /// The cached answer for `filter`, if it is good at the time `now`.
    pub fn get_largest_accounts_at(
        &self,
        filter: &Option<LargestAccountsFilter>,
        now: Timestamp,
    ) -> (answer: Option<(u64, Vec<AccountBalance>)>)
        ensures
            answer_view(answer) == self@.lookup(*filter, now@),
    {
        broadcast use group_hash_axioms;

        match self.cache.get(&filter_code(filter)) {
            Some(value) => {
                if value.cached_time.elapsed_is_less_than(now, self.duration) {
                    Some((value.slot, copy_balances(value.accounts.as_slice())))
                } else {
                    None
                }
            },
            None => None,
        }
    }

    /// Caches an answer for `filter`, as of now.
    pub fn set_largest_accounts(
        &mut self,
        filter: &Option<LargestAccountsFilter>,
        slot: u64,
        accounts: &[AccountBalance],
    )
        ensures
            exists|now: SystemTime|
                final(self)@ == old(self)@.stored(
                    *filter,
                    slot,
                    accounts::balances_view(accounts@),
                    #[trigger] clock::nanos_since_epoch(now),
                ),
    {
        self.set_largest_accounts_with_time(filter, slot, accounts, Timestamp::now());
    }

    /// Caches an answer for `filter`, as of `cached_time`.
    pub fn set_largest_accounts_with_time(
        &mut self,
        filter: &Option<LargestAccountsFilter>,
        slot: u64,
        accounts: &[AccountBalance],
        cached_time: Timestamp,
    )
        ensures
            final(self)@ == old(self)@.stored(
                *filter,
                slot,
                accounts::balances_view(accounts@),
                cached_time@,
            ),
    {
        broadcast use group_hash_axioms;

        self.cache.insert(
            filter_code(filter),
            LargestAccountsCacheValue { accounts: copy_balances(accounts), slot, cached_time },
        );
        assert(self@ =~= old(self)@.stored(
            *filter,
            slot,
            accounts::balances_view(accounts@),
            cached_time@,
        ));
    }
}

/// What was cached comes back: from the time of caching until its duration has passed,
/// and at no other time.
pub proof fn law_answers_live_for_their_duration(
    cache: CacheView,
    filter: Option<LargestAccountsFilter>,
    slot: u64,
    accounts: Seq<BalanceView>,
    cached_time: int,
    now: int,
)
    ensures
        cache.stored(filter, slot, accounts, cached_time).lookup(filter, now) == (if cached_time
            <= now < cached_time + cache.duration * 1_000_000_000 {
            Some((slot, accounts))
        } else {
            None
        }),
{
}

/// Answers for other filters are not touched.
pub proof fn law_filters_are_independent(
    cache: CacheView,
    filter: Option<LargestAccountsFilter>,
    other: Option<LargestAccountsFilter>,
    slot: u64,
    accounts: Seq<BalanceView>,
    cached_time: int,
    now: int,
)
    requires
        filter != other,
    ensures
        cache.stored(filter, slot, accounts, cached_time).lookup(other, now) == cache.lookup(
            other,
            now,
        ),
{
}

/// An expired answer does not come back as time goes on.
pub proof fn law_expiry_is_final(
    cache: CacheView,
    filter: Option<LargestAccountsFilter>,
    then: int,
    now: int,
)
    requires
        cache.answers.contains_key(filter),
        cache.answers[filter].cached_time <= then <= now,
        cache.lookup(filter, then) is None,
    ensures
        cache.lookup(filter, now) is None,
{
}

/// With a duration of zero seconds nothing is ever answered.
pub proof fn law_zero_duration_answers_nothing(
    cache: CacheView,
    filter: Option<LargestAccountsFilter>,
    now: int,
)
    requires
        cache.duration == 0,
    ensures
        cache.lookup(filter, now) is None,
{
}

/// An answer comes back if there is one for the filter that was cached before and less than
/// the duration of the cache ago, and then with its slot and its accounts.
pub proof fn law_lookup_gives_the_cached_answer(
    cache: CacheView,
    filter: Option<LargestAccountsFilter>,
    now: int,
)
    ensures
        !cache.answers.contains_key(filter) ==> cache.lookup(filter, now) is None,
        cache.answers.contains_key(filter) ==> {
            let cached = cache.answers[filter];
            let age = now - cached.cached_time;
            &&& 0 <= age < cache.duration * 1_000_000_000 ==> cache.lookup(filter, now) == Some(
                (cached.slot, cached.accounts),
            )
            &&& age < 0 || age >= cache.duration * 1_000_000_000 ==> cache.lookup(
                filter,
                now,
            ) is None
        },
{
}

/// Caching an answer replaces the one of its filter, and changes neither the others nor for
/// how long answers are good.
pub proof fn law_storing_replaces_one_answer(
    cache: CacheView,
    filter: Option<LargestAccountsFilter>,
    slot: u64,
    accounts: Seq<BalanceView>,
    cached_time: int,
)
    ensures
        ({
            let after = cache.stored(filter, slot, accounts, cached_time);
            &&& after.duration == cache.duration
            &&& after.answers.contains_key(filter)
            &&& after.answers[filter].slot == slot
            &&& after.answers[filter].accounts == accounts
            &&& after.answers[filter].cached_time == cached_time
            &&& forall|other: Option<LargestAccountsFilter>|
                other != filter ==> (#[trigger] after.answers.contains_key(other)
                    == cache.answers.contains_key(other)) && (cache.answers.contains_key(other)
                    ==> after.answers[other] == cache.answers[other])
        }),
{
}

/// What the cache hands out is the slot and the accounts, in order.
pub proof fn law_answer_is_its_content(slot: u64, list: Vec<AccountBalance>)
    ensures
        answer_view(None) is None,
        answer_view(Some((slot, list))) matches Some(answer) && answer.0 == slot && answer.1.len()
            == list@.len() && (forall|i: int|
            0 <= i < list@.len() ==> (#[trigger] answer.1[i]).address == list@[i].address@
                && answer.1[i].lamports == list@[i].lamports),
{
}

impl LargestAccountsCacheValue {
    /// One cached answer is what was cached.
    proof fn law_cached_answer_is_what_was_cached(&self)
        ensures
            self@.slot == self.slot,
            self@.accounts == accounts::balances_view(self.accounts@),
            self@.cached_time == self.cached_time@,
    {
    }
}

} // verus!
