//! Counts the tokens that are in existence and reports their number.

use vstd::prelude::*;

verus! {

/// A value of the metric `name`, to be sent.
#[derive(Debug, Clone, Copy, PartialEq, Eq)]
pub struct CountDatapoint {
    pub name: &'static str,
    pub count: i64,
}

/// What [`created_count`] returns.
pub open spec fn created_count_spec(handles: usize, counter_exists: bool) -> i64 {
    if counter_exists {
        handles as i64
    } else {
        (handles + 1) as i64
    }
}

/// What [`token_dropped_count`] returns.
pub open spec fn token_dropped_count_spec(handles: usize, counter_exists: bool) -> i64 {
    if counter_exists {
        handles.saturating_sub(2) as i64
    } else {
        handles.saturating_sub(1) as i64
    }
}

/// What [`counter_dropped_count`] returns.
pub open spec fn counter_dropped_count_spec(handles: usize) -> i64 {
    handles.saturating_sub(1) as i64
}

/// The count to report when a token is created, where the counter, if it exists, and its
/// tokens are `handles` before: the counter is no token, and the new token is one.
pub fn created_count(handles: usize, counter_exists: bool) -> (count: i64)
    requires
        counter_exists || handles < usize::MAX,
    ensures
        count == created_count_spec(handles, counter_exists),
        counter_exists ==> count == handles as i64,
        !counter_exists ==> count == (handles + 1) as i64,
{
    let tokens: usize = if counter_exists {
        handles
    } else {
        handles + 1
    };
    #[verifier::truncate]
    (tokens as i64)
}

/// The count to report when a token goes away, where the counter, if it exists, and its
/// tokens are `handles` before: one is taken off for the token, and one for the counter if
/// it exists.
pub fn token_dropped_count(handles: usize, counter_exists: bool) -> (count: i64)
    ensures
        handles >= 2 && counter_exists ==> count == (handles - 2) as i64,
        handles >= 1 && !counter_exists ==> count == (handles - 1) as i64,
        count == token_dropped_count_spec(handles, counter_exists),
{
    let taken: usize = if counter_exists {
        2
    } else {
        1
    };
    #[verifier::truncate]
    (handles.saturating_sub(taken) as i64)
}

/// The count to report when the counter goes away, where it and its tokens are `handles`
/// before: one is taken off for the counter, and no token goes away with it.
pub fn counter_dropped_count(handles: usize) -> (count: i64)
    ensures
        handles >= 1 ==> count == (handles - 1) as i64,
        count == counter_dropped_count_spec(handles),
{
    #[verifier::truncate]
    (handles.saturating_sub(1) as i64)
}

/// What a counter and its tokens share.
pub struct TokenTally {
    /// The name of the metric.
    pub name: Seq<char>,
    /// The number of tokens.
    pub tokens: nat,
    /// Whether the counter has not gone away.
    pub counter_exists: bool,
}

impl TokenTally {
    /// One more token.
    pub open spec fn created(self) -> TokenTally {
        TokenTally { tokens: self.tokens + 1, ..self }
    }

    /// One token less.
    pub open spec fn token_dropped(self) -> TokenTally {
        TokenTally { tokens: (self.tokens - 1) as nat, ..self }
    }

    /// The counter has gone away.
    pub open spec fn counter_dropped(self) -> TokenTally {
        TokenTally { counter_exists: false, ..self }
    }

    /// The counter, if it exists, and its tokens.
    pub open spec fn handles(self) -> nat {
        if self.counter_exists {
            self.tokens + 1
        } else {
            self.tokens
        }
    }

    /// Whether `datapoint` reports the number of tokens.
    pub open spec fn is_reported_by(self, datapoint: CountDatapoint) -> bool {
        datapoint.name@ == self.name && datapoint.count == self.tokens
    }
}

/// A helper that reports the number of created tokens as a datapoint: the state that the
/// counter and its tokens share, which outlives the counter as long as there are tokens.
pub struct TokenCounter {
    name: &'static str,
    tokens: usize,
    counter_exists: bool,
}

/// A token for `TokenCounter`.
pub struct CounterToken {
    name: &'static str,
}

impl CounterToken {
    /// The name of the metric that the token is counted in.
    pub closed spec fn name(&self) -> Seq<char> {
        self.name@
    }
}

impl View for TokenCounter {
    type V = TokenTally;

    closed spec fn view(&self) -> TokenTally {
        TokenTally {
            name: self.name@,
            tokens: self.tokens as nat,
            counter_exists: self.counter_exists,
        }
    }
}

impl TokenCounter {
    /// There are no more tokens than fit into the address space.
    #[verifier::type_invariant]
    spec fn countable(self) -> bool {
        self.tokens <= isize::MAX
    }

    /// Creates a new counter with the specified metrics `name`.
    pub fn new(name: &'static str) -> (counter: Self)
        ensures
            counter@ == (TokenTally { name: name@, tokens: 0, counter_exists: true }),
    {
        TokenCounter { name, tokens: 0, counter_exists: true }
    }

    /// The number of tokens.
    pub fn tokens(&self) -> (tokens: usize)
        ensures
            tokens == self@.tokens,
    {
        self.tokens
    }

    /// The counter, if it exists, and its tokens.
    fn handles(&self) -> (handles: usize)
        ensures
            handles == self@.handles(),
            handles <= isize::MAX + 1,
    {
        proof {
            use_type_invariant(self);
        }
        if self.counter_exists {
            self.tokens + 1
        } else {
            self.tokens
        }
    }

    /// One more token, and what is to be reported.
    fn add_token(&mut self) -> (created: (CounterToken, CountDatapoint))
        requires
            old(self)@.tokens < isize::MAX,
        ensures
            final(self)@ == old(self)@.created(),
            created.0.name() == old(self)@.name,
            final(self)@.is_reported_by(created.1),
    {
        let count: i64 = created_count(self.handles(), self.counter_exists);
        self.tokens = self.tokens + 1;
        (CounterToken { name: self.name }, CountDatapoint { name: self.name, count })
    }

    /// Creates a new token for this counter, and what is to be reported. The metric's
    /// value will be equal to the number of `CounterToken`s.
    pub fn create_token(&mut self) -> (created: (CounterToken, CountDatapoint))
        requires
            old(self)@.counter_exists,
            old(self)@.tokens < isize::MAX,
        ensures
            final(self)@ == old(self)@.created(),
            created.0.name() == old(self)@.name,
            final(self)@.is_reported_by(created.1),
    {
        self.add_token()
    }

    /// Creates one more token from `token`, be the counter there or not, and what is to be
    /// reported.
    pub fn clone_token(&mut self, token: &CounterToken) -> (created: (CounterToken, CountDatapoint))
        requires
            token.name() == old(self)@.name,
            0 < old(self)@.tokens < isize::MAX,
        ensures
            final(self)@ == old(self)@.created(),
            created.0.name() == old(self)@.name,
            final(self)@.is_reported_by(created.1),
    {
        self.add_token()
    }

    /// `token` goes away. Returns what is to be reported.
    pub fn drop_token(&mut self, token: CounterToken) -> (datapoint: CountDatapoint)
        requires
            token.name() == old(self)@.name,
            old(self)@.tokens > 0,
        ensures
            final(self)@ == old(self)@.token_dropped(),
            final(self)@.is_reported_by(datapoint),
    {
        proof {
            use_type_invariant(&*self);
        }
        let count: i64 = token_dropped_count(self.handles(), self.counter_exists);
        self.tokens = self.tokens - 1;
        CountDatapoint { name: self.name, count }
    }

    /// The counter goes away; its tokens stay. Returns what is to be reported.
    pub fn drop_counter(&mut self) -> (datapoint: CountDatapoint)
        requires
            old(self)@.counter_exists,
        ensures
            final(self)@ == old(self)@.counter_dropped(),
            final(self)@.is_reported_by(datapoint),
    {
        proof {
            use_type_invariant(&*self);
        }
        let count: i64 = counter_dropped_count(self.handles());
        self.counter_exists = false;
        CountDatapoint { name: self.name, count }
    }
}

/// What can happen to a counter and its tokens.
pub enum TokenEvent {
    /// A token is created, by the counter or from another token.
    Created,
    /// A token goes away.
    Dropped,
    /// The counter goes away.
    CounterDropped,
}

/// The state after a number of events.
pub open spec fn after_events(tally: TokenTally, events: Seq<TokenEvent>) -> TokenTally
    decreases events.len(),
{
    if events.len() == 0 {
        tally
    } else {
        let before = after_events(tally, events.drop_last());
        match events.last() {
            TokenEvent::Created => before.created(),
            TokenEvent::Dropped => before.token_dropped(),
            TokenEvent::CounterDropped => before.counter_dropped(),
        }
    }
}

/// By how many tokens the creations among the events exceed the drops.
pub open spec fn token_balance(events: Seq<TokenEvent>) -> int
    decreases events.len(),
{
    if events.len() == 0 {
        0
    } else {
        token_balance(events.drop_last()) + match events.last() {
            TokenEvent::Created => 1int,
            TokenEvent::Dropped => -1int,
            TokenEvent::CounterDropped => 0int,
        }
    }
}

/// When a token is created, the number of tokens is reported, be the counter there or not.
pub proof fn law_creation_reports_the_number_of_tokens(tally: TokenTally)
    requires
        tally.tokens < isize::MAX,
    ensures
        created_count_spec(tally.handles() as usize, tally.counter_exists)
            == tally.created().tokens,
{
}

/// When a token goes away, the number of the remaining ones is reported, be the counter
/// there or not.
pub proof fn law_drop_reports_the_number_of_tokens(tally: TokenTally)
    requires
        0 < tally.tokens <= isize::MAX,
    ensures
        token_dropped_count_spec(tally.handles() as usize, tally.counter_exists)
            == tally.token_dropped().tokens,
{
}

/// When the counter goes away, the number of tokens is reported, and it does not change.
pub proof fn law_counter_drop_reports_the_number_of_tokens(tally: TokenTally)
    requires
        tally.counter_exists,
        tally.tokens <= isize::MAX,
    ensures
        counter_dropped_count_spec(tally.handles() as usize) == tally.counter_dropped().tokens,
        tally.counter_dropped().tokens == tally.tokens,
{
}

/// The number of tokens is what was created less what went away, whenever the counter goes
/// away in between.
pub proof fn law_tokens_are_balanced(tally: TokenTally, events: Seq<TokenEvent>)
    requires
        forall|n: int|
            0 <= n <= events.len() ==> 0 <= tally.tokens + token_balance(#[trigger] events.take(n)),
    ensures
        after_events(tally, events).tokens == tally.tokens + token_balance(events),
        after_events(tally, events).name == tally.name,
    decreases events.len(),
{
    assert(events.take(events.len() as int) =~= events);
    if events.len() > 0 {
        let before = events.drop_last();
        assert forall|n: int| 0 <= n <= before.len() implies 0 <= tally.tokens + token_balance(
            #[trigger] before.take(n),
        ) by {
            assert(before.take(n) =~= events.take(n));
        }
        law_tokens_are_balanced(tally, before);
    }
}

/// Each event changes one thing: a creation adds one token, a drop takes one away, and the
/// end of the counter leaves all tokens in existence.
pub proof fn law_each_event_changes_one_thing(tally: TokenTally)
    ensures
        tally.created().tokens == tally.tokens + 1,
        tally.created().name == tally.name,
        tally.created().counter_exists == tally.counter_exists,
        tally.tokens > 0 ==> tally.token_dropped().tokens + 1 == tally.tokens,
        tally.token_dropped().name == tally.name,
        tally.token_dropped().counter_exists == tally.counter_exists,
        tally.counter_dropped().tokens == tally.tokens,
        tally.counter_dropped().name == tally.name,
        !tally.counter_dropped().counter_exists,
{
}

/// A token that is created and goes away again leaves everything as it was.
pub proof fn law_drop_undoes_creation(tally: TokenTally)
    ensures
        tally.created().token_dropped() == tally,
{
}

/// A report carries the name of the metric and the number of tokens.
pub proof fn law_reports_carry_the_number_of_tokens(tally: TokenTally, datapoint: CountDatapoint)
    ensures
        tally.is_reported_by(datapoint) <==> datapoint.name@ == tally.name && datapoint.count
            == tally.tokens,
{
}

/// What is reported is the number of handles, less the counter if it exists, plus the token
/// that comes or less the one that goes, and never less than zero.
pub proof fn law_counts_follow_the_handles(handles: usize)
    ensures
        handles <= 2 ==> token_dropped_count_spec(handles, true) == 0,
        handles <= 1 ==> token_dropped_count_spec(handles, false) == 0,
        handles <= 1 ==> counter_dropped_count_spec(handles) == 0,
        2 <= handles <= isize::MAX ==> token_dropped_count_spec(handles, true) + 2 == handles,
        1 <= handles <= isize::MAX ==> token_dropped_count_spec(handles, false) + 1 == handles,
        1 <= handles <= isize::MAX ==> counter_dropped_count_spec(handles) + 1 == handles,
        handles <= isize::MAX ==> created_count_spec(handles, true) == handles,
        handles < isize::MAX ==> created_count_spec(handles, false) == handles + 1,
{
}

} // verus!
