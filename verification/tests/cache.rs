use std::time::{Duration, SystemTime, UNIX_EPOCH};
use validator_metrics::{AccountBalance, LargestAccountsCache, LargestAccountsFilter, Timestamp};

const SECOND: u128 = 1_000_000_000;

fn balances() -> Vec<AccountBalance> {
    vec![
        AccountBalance { address: "A".to_string(), lamports: 2 },
        AccountBalance { address: "B".to_string(), lamports: 1 },
    ]
}

#[test]
fn test_old_entries_expire() {
    let mut cache = LargestAccountsCache::new(1);

    let filter = Some(LargestAccountsFilter::Circulating);

    let accounts: Vec<AccountBalance> = Vec::new();

    cache.set_largest_accounts(&filter, 1000, &accounts);
    let later = SystemTime::now().duration_since(UNIX_EPOCH).unwrap().as_nanos() + SECOND;
    assert_eq!(cache.get_largest_accounts_at(&filter, Timestamp::SinceEpoch(later)), None);
    let earlier = later - 2 * SECOND;
    cache.set_largest_accounts_with_time(&filter, 1000, &accounts, Timestamp::SinceEpoch(earlier));
    assert_eq!(cache.get_largest_accounts(&filter), None);
}

#[test]
fn a_fresh_answer_comes_back() {
    let mut cache = LargestAccountsCache::new(3600);
    assert_eq!(cache.get_largest_accounts(&None), None);
    cache.set_largest_accounts(&None, 1000, &balances());
    assert_eq!(cache.get_largest_accounts(&None), Some((1000, balances())));
    cache.set_largest_accounts(&None, 1001, &[]);
    assert_eq!(cache.get_largest_accounts(&None), Some((1001, vec![])));
    assert_eq!(cache.clone().get_largest_accounts(&None), Some((1001, vec![])));
}

#[test]
fn answers_live_for_exactly_their_duration() {
    let mut cache = LargestAccountsCache::new(2);
    let start = 5 * SECOND;
    cache.set_largest_accounts_with_time(&None, 7, &balances(), Timestamp::SinceEpoch(start));
    let answer = |nanos: u128| cache.get_largest_accounts_at(&None, Timestamp::SinceEpoch(nanos));
    assert_eq!(answer(start - 1), None);
    assert_eq!(answer(start), Some((7, balances())));
    assert_eq!(answer(start + 2 * SECOND - 1), Some((7, balances())));
    assert_eq!(answer(start + 2 * SECOND), None);
    assert_eq!(answer(u128::MAX), None);
}

#[test]
fn answers_from_before_the_epoch_are_timed_too() {
    let mut cache = LargestAccountsCache::new(2);
    cache.set_largest_accounts_with_time(&None, 7, &[], Timestamp::BeforeEpoch(SECOND));
    let answer = |time: Timestamp| cache.get_largest_accounts_at(&None, time);
    assert_eq!(answer(Timestamp::BeforeEpoch(SECOND + 1)), None);
    assert_eq!(answer(Timestamp::BeforeEpoch(SECOND)), Some((7, vec![])));
    assert_eq!(answer(Timestamp::BeforeEpoch(0)), Some((7, vec![])));
    assert_eq!(answer(Timestamp::SinceEpoch(SECOND - 1)), Some((7, vec![])));
    assert_eq!(answer(Timestamp::SinceEpoch(SECOND)), None);
    assert_eq!(answer(Timestamp::SinceEpoch(u128::MAX)), None);
    cache.set_largest_accounts_with_time(&None, 7, &[], Timestamp::SinceEpoch(0));
    assert_eq!(
        cache.get_largest_accounts_at(&None, Timestamp::BeforeEpoch(0)),
        Some((7, vec![]))
    );
    assert_eq!(cache.get_largest_accounts_at(&None, Timestamp::BeforeEpoch(1)), None);
}

#[test]
fn filters_are_cached_apart() {
    let circulating = Some(LargestAccountsFilter::Circulating);
    let non_circulating = Some(LargestAccountsFilter::NonCirculating);
    let mut cache = LargestAccountsCache::new(3600);
    cache.set_largest_accounts(&circulating, 1, &balances());
    assert_eq!(cache.get_largest_accounts(&non_circulating), None);
    assert_eq!(cache.get_largest_accounts(&None), None);
    cache.set_largest_accounts(&non_circulating, 2, &[]);
    cache.set_largest_accounts(&None, 3, &[]);
    assert_eq!(cache.get_largest_accounts(&circulating), Some((1, balances())));
    assert_eq!(cache.get_largest_accounts(&non_circulating), Some((2, vec![])));
    assert_eq!(cache.get_largest_accounts(&None), Some((3, vec![])));
}

#[test]
fn a_duration_of_zero_answers_nothing() {
    let mut cache = LargestAccountsCache::new(0);
    cache.set_largest_accounts_with_time(&None, 7, &[], Timestamp::SinceEpoch(5));
    assert_eq!(cache.get_largest_accounts_at(&None, Timestamp::SinceEpoch(5)), None);
}

#[test]
fn the_clock_is_the_system_clock() {
    let before = SystemTime::now().duration_since(UNIX_EPOCH).unwrap().as_nanos();
    let now = Timestamp::now();
    let after = SystemTime::now().duration_since(UNIX_EPOCH).unwrap().as_nanos();
    match now {
        Timestamp::SinceEpoch(nanos) => assert!(before <= nanos && nanos <= after),
        Timestamp::BeforeEpoch(_) => panic!("the epoch is past"),
    }
}

#[test]
fn system_times_are_taken_by_their_distance_from_the_epoch() {
    let step = Duration::from_nanos(1_500_000_000);
    assert_eq!(
        Timestamp::from_system_time(&(UNIX_EPOCH + step)),
        Timestamp::SinceEpoch(1_500_000_000)
    );
    assert_eq!(
        Timestamp::from_system_time(&(UNIX_EPOCH - step)),
        Timestamp::BeforeEpoch(1_500_000_000)
    );
}

#[test]
fn a_copy_keeps_every_answer_and_goes_its_own_way() {
    let circulating = Some(LargestAccountsFilter::Circulating);
    let at = Timestamp::SinceEpoch(5 * SECOND);
    let mut cache = LargestAccountsCache::new(2);
    cache.set_largest_accounts_with_time(&None, 7, &balances(), at);
    cache.set_largest_accounts_with_time(&circulating, 8, &[], at);
    let mut copy = cache.clone();
    assert_eq!(copy.get_largest_accounts_at(&None, at), Some((7, balances())));
    assert_eq!(copy.get_largest_accounts_at(&circulating, at), Some((8, vec![])));
    let end = Timestamp::SinceEpoch(7 * SECOND);
    assert_eq!(copy.get_largest_accounts_at(&None, end), None);
    copy.set_largest_accounts_with_time(&None, 9, &[], at);
    assert_eq!(copy.get_largest_accounts_at(&None, at), Some((9, vec![])));
    assert_eq!(cache.get_largest_accounts_at(&None, at), Some((7, balances())));
}
