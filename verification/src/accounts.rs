//! The values that a largest-accounts request is made of: its filter, the balances
//! it answers with, and the outcome that is handed to every caller.

use vstd::prelude::*;

verus! {

/// Which accounts a largest-accounts request is restricted to.
#[derive(Debug, Clone, Copy, PartialEq, Eq, Structural)]
pub enum LargestAccountsFilter {
    Circulating,
    NonCirculating,
}

/// The number by which a filter, or its absence, is kept in a table.
pub open spec fn filter_code_spec(filter: Option<LargestAccountsFilter>) -> u64 {
    match filter {
        None => 0,
        Some(LargestAccountsFilter::Circulating) => 1,
        Some(LargestAccountsFilter::NonCirculating) => 2,
    }
}

/// The number by which a filter, or its absence, is kept in a table.
pub fn filter_code(filter: &Option<LargestAccountsFilter>) -> (code: u64)
    ensures
        code == filter_code_spec(*filter),
{
    match filter {
        None => 0,
        Some(LargestAccountsFilter::Circulating) => 1,
        Some(LargestAccountsFilter::NonCirculating) => 2,
    }
}

/// One account and what it holds.
#[derive(Debug, PartialEq, Eq)]
pub struct AccountBalance {
    pub address: String,
    pub lamports: u64,
}

/// The mathematical content of an [`AccountBalance`].
pub struct BalanceView {
    pub address: Seq<char>,
    pub lamports: u64,
}

impl View for AccountBalance {
    type V = BalanceView;

    open spec fn view(&self) -> BalanceView {
        BalanceView { address: self.address@, lamports: self.lamports }
    }
}

impl Clone for AccountBalance {
    fn clone(&self) -> (copy: Self)
        ensures
            copy@ == self@,
    {
        AccountBalance { address: self.address.clone(), lamports: self.lamports }
    }
}

/// A slot with the largest accounts at that slot, or the reason why there are none.
pub type LargestAccountsOutcome = Result<(u64, Vec<AccountBalance>), String>;

/// The mathematical content of a [`LargestAccountsOutcome`].
pub type OutcomeView = Result<(u64, Seq<BalanceView>), Seq<char>>;

/// The contents of a list of balances, in order.
pub open spec fn balances_view(accounts: Seq<AccountBalance>) -> Seq<BalanceView> {
    accounts.map_values(|account: AccountBalance| account@)
}

/// The content of an outcome.
pub open spec fn outcome_view(outcome: LargestAccountsOutcome) -> OutcomeView {
    match outcome {
        Ok((slot, accounts)) => Ok((slot, balances_view(accounts@))),
        Err(reason) => Err(reason@),
    }
}

/// The content of an outcome that may not be there yet.
pub open spec fn published_view(published: Option<LargestAccountsOutcome>) -> Option<OutcomeView> {
    match published {
        Some(outcome) => Some(outcome_view(outcome)),
        None => None,
    }
}

/// Copies a list of balances.
pub fn copy_balances(accounts: &[AccountBalance]) -> (copy: Vec<AccountBalance>)
    ensures
        balances_view(copy@) == balances_view(accounts@),
{
    let mut copy: Vec<AccountBalance> = Vec::new();
    let mut next: usize = 0;
    while next < accounts.len()
        invariant
            next <= accounts@.len(),
            balances_view(copy@) == balances_view(accounts@.take(next as int)),
        decreases accounts@.len() - next,
    {
        let ghost copied = copy@;
        copy.push(accounts[next].clone());
        assert(balances_view(copy@) =~= balances_view(copied).push(accounts@[next as int]@));
        assert(balances_view(accounts@.take(next + 1)) =~= balances_view(
            accounts@.take(next as int),
        ).push(accounts@[next as int]@));
        next += 1;
    }
    assert(accounts@.take(next as int) =~= accounts@);
    copy
}

/// An account is its address and its balance.
pub proof fn law_balance_is_address_and_lamports(account: AccountBalance)
    ensures
        account@.address == account.address@,
        account@.lamports == account.lamports,
{
}

/// A list of balances is its accounts, in order, and nothing else.
pub proof fn law_balances_are_the_accounts_in_order(accounts: Seq<AccountBalance>)
    ensures
        balances_view(accounts).len() == accounts.len(),
        forall|i: int|
            0 <= i < accounts.len() ==> (#[trigger] balances_view(accounts)[i]).address
                == accounts[i].address@ && balances_view(accounts)[i].lamports
                == accounts[i].lamports,
{
}

/// An outcome is its slot and its accounts, or its reason; one that is not there yet is
/// nothing.
pub proof fn law_outcome_is_its_content(
    slot: u64,
    accounts: Vec<AccountBalance>,
    reason: String,
    outcome: LargestAccountsOutcome,
)
    ensures
        outcome_view(Ok((slot, accounts))) matches Ok(success) && success.0 == slot
            && success.1.len() == accounts@.len() && (forall|i: int|
            0 <= i < accounts@.len() ==> (#[trigger] success.1[i]).address
                == accounts@[i].address@ && success.1[i].lamports == accounts@[i].lamports),
        outcome_view(Err(reason)) matches Err(text) && text == reason@,
        published_view(None) is None,
        published_view(Some(outcome)) == Some(outcome_view(outcome)),
{
}

/// Filters, and the absence of one, are told apart by their codes.
pub proof fn law_filter_codes_are_distinct(
    a: Option<LargestAccountsFilter>,
    b: Option<LargestAccountsFilter>,
)
    ensures
        filter_code_spec(a) == filter_code_spec(b) ==> a == b,
        filter_code_spec(a) < 3,
{
}

} // verus!
