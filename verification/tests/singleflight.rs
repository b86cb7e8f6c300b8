use std::sync::atomic::Ordering;
use std::sync::Arc;
use validator_metrics::{
    AccountBalance, GenerationState, LargestAccountsFilter, LargestAccountsOutcome,
    LargestAccountsSingleflight, SingleflightAdmission, SingleflightLease, WaitEvent, WaitStep,
};

fn read(
    coordinator: &LargestAccountsSingleflight,
    entry: &validator_metrics::EntryHandle,
) -> Option<LargestAccountsOutcome> {
    match coordinator.entry(entry).wait(WaitEvent::Changed) {
        WaitStep::Done(outcome) => Some(outcome),
        WaitStep::AwaitChange => None,
    }
}

fn drop_admission(coordinator: &mut LargestAccountsSingleflight, admission: SingleflightAdmission) {
    coordinator.drop_handle(admission.entry);
    coordinator.drop_waiter(admission.waiter);
}

#[test]
fn test_singleflight_coalesces_same_key() {
    let mut sf = LargestAccountsSingleflight::new();
    let key = Some(LargestAccountsFilter::Circulating);
    let (is_prod1, e1) = sf.get_or_create(&key);
    assert!(is_prod1);
    assert_eq!(sf.inflight_count(), 1);
    let (is_prod2, e2) = sf.get_or_create(&key);
    assert!(!is_prod2);
    assert!(e1.same_entry(&e2));
    assert_eq!(read(&sf, &e1), None);

    let accounts = vec![AccountBalance { address: "A".to_string(), lamports: 1 }];
    sf.publish(&e1, Ok((100, accounts.clone())));

    let r1 = read(&sf, &e1).unwrap().unwrap();
    let r2 = read(&sf, &e2).unwrap().unwrap();
    assert_eq!(r1, r2);
    assert_eq!(r1.0, 100);
    assert_eq!(r1.1, accounts);
    assert_eq!(sf.inflight_count(), 1);
}

#[test]
fn test_singleflight_distinct_keys_simultaneous() {
    let mut sf = LargestAccountsSingleflight::new();
    let k_none: Option<LargestAccountsFilter> = None;
    let k_circ = Some(LargestAccountsFilter::Circulating);
    let k_non = Some(LargestAccountsFilter::NonCirculating);
    let (p1, _) = sf.get_or_create(&k_none);
    let (p2, _) = sf.get_or_create(&k_circ);
    let (p3, _) = sf.get_or_create(&k_non);
    assert!(p1 && p2 && p3);
    assert_eq!(sf.inflight_count(), 3);
    let (p1b, _) = sf.get_or_create(&k_none);
    assert!(!p1b);
    assert_eq!(sf.inflight_count(), 3);
}

#[test]
fn test_singleflight_abnormal_closes() {
    let mut sf = LargestAccountsSingleflight::new();
    let key: Option<LargestAccountsFilter> = None;
    let (is_prod, entry) = sf.get_or_create(&key);
    assert!(is_prod);
    assert!(sf.is_inflight(&key));
    let held = sf.clone_handle(&entry);
    SingleflightLease::new(key, held).drop_producer(&mut sf);
    let res = read(&sf, &entry).unwrap();
    assert!(res.is_err());
    assert_eq!(res, Err("producer task aborted".to_string()));
    assert!(!sf.is_inflight(&key));
    let (is_prod2, _) = sf.get_or_create(&key);
    assert!(is_prod2);
}

#[test]
fn test_waiter_drop_aborts_only_after_last_real_waiter() {
    let mut coordinator = LargestAccountsSingleflight::new();
    let key = Some(LargestAccountsFilter::Circulating);
    let producer = coordinator
        .get_or_create_with_waiter(&key)
        .unwrap_or_else(|_| panic!("initial admission must succeed"));
    let waiter = coordinator
        .get_or_create_with_waiter(&key)
        .unwrap_or_else(|_| panic!("waiter admission must succeed"));
    let entry = coordinator.clone_handle(&producer.entry);

    drop_admission(&mut coordinator, producer);
    assert!(!coordinator.entry(&entry).abort_token().load(Ordering::SeqCst));
    drop_admission(&mut coordinator, waiter);
    assert!(coordinator.entry(&entry).abort_token().load(Ordering::SeqCst));
    assert_eq!(coordinator.entry(&entry).state(), GenerationState::Aborting);

    let Err(retiring) = coordinator.get_or_create_with_waiter(&key) else {
        panic!("an aborting generation must not admit a new producer");
    };
    assert!(retiring.same_entry(&entry));
    coordinator.publish_and_remove(&key, &entry, Err("aborted".to_string()));

    let replacement = coordinator
        .get_or_create_with_waiter(&key)
        .unwrap_or_else(|_| panic!("replacement admission must succeed"));
    assert!(replacement.is_producer);
    let replacement_entry = coordinator.clone_handle(&replacement.entry);
    drop_admission(&mut coordinator, replacement);
    coordinator.publish_and_remove(&key, &replacement_entry, Err("test cleanup".to_string()));
    assert!(coordinator.is_empty());
}

#[test]
fn test_new_caller_waits_for_aborting_generation_to_terminate() {
    let mut coordinator = LargestAccountsSingleflight::new();
    let key = Some(LargestAccountsFilter::NonCirculating);
    let first = coordinator
        .get_or_create_with_waiter(&key)
        .unwrap_or_else(|_| panic!("initial admission must succeed"));
    let entry = coordinator.clone_handle(&first.entry);
    drop_admission(&mut coordinator, first);
    assert!(coordinator.entry(&entry).abort_token().load(Ordering::SeqCst));

    let Err(retiring) = coordinator.get_or_create_with_waiter(&key) else {
        panic!("caller must wait for the retiring generation");
    };
    assert_eq!(read(&coordinator, &retiring), None);

    coordinator.publish_and_remove(&key, &entry, Err("aborted".to_string()));
    assert_eq!(read(&coordinator, &retiring), Some(Err("aborted".to_string())));
    let replacement = coordinator
        .get_or_create_with_waiter(&key)
        .unwrap_or_else(|_| panic!("replacement admission must succeed"));
    assert!(replacement.is_producer);
    let replacement_entry = coordinator.clone_handle(&replacement.entry);
    drop_admission(&mut coordinator, replacement);
    coordinator.publish_and_remove(&key, &replacement_entry, Err("test cleanup".to_string()));
}

#[test]
fn test_completion_wins_over_waiter_drop() {
    let mut coordinator = LargestAccountsSingleflight::new();
    let key = Some(LargestAccountsFilter::Circulating);
    let producer = coordinator
        .get_or_create_with_waiter(&key)
        .unwrap_or_else(|_| panic!("initial admission must succeed"));
    let waiter = coordinator
        .get_or_create_with_waiter(&key)
        .unwrap_or_else(|_| panic!("waiter admission must succeed"));
    let entry = coordinator.clone_handle(&producer.entry);
    let held = coordinator.clone_handle(&entry);
    let mut lease = SingleflightLease::new(key, held);

    assert!(lease.try_commit_success(&mut coordinator));
    drop_admission(&mut coordinator, waiter);
    assert!(!coordinator.entry(&entry).abort_token().load(Ordering::SeqCst));
    assert_eq!(coordinator.entry(&entry).state(), GenerationState::Completing);

    lease.publish_and_remove(&mut coordinator, Ok((1, vec![])));
    lease.mark_completed();
    drop_admission(&mut coordinator, producer);
    assert!(coordinator.is_empty());

    lease.drop_producer(&mut coordinator);
    assert_eq!(read(&coordinator, &entry), Some(Ok((1, vec![]))));
}

#[test]
fn departures_cannot_abort_a_completing_generation() {
    let mut coordinator = LargestAccountsSingleflight::new();
    let only = coordinator.get_or_create_with_waiter(&None).ok().unwrap();
    let entry = coordinator.clone_handle(&only.entry);
    assert!(coordinator.try_commit_success(&None, &entry));
    assert!(!coordinator.try_commit_success(&None, &entry));
    drop_admission(&mut coordinator, only);
    assert_eq!(coordinator.entry(&entry).state(), GenerationState::Completing);
    assert!(!coordinator.entry(&entry).abort_token().load(Ordering::SeqCst));
    assert!(coordinator.get_or_create_with_waiter(&None).is_err());
}

#[test]
fn an_aborting_generation_cannot_commit() {
    let mut coordinator = LargestAccountsSingleflight::new();
    let only = coordinator.get_or_create_with_waiter(&None).ok().unwrap();
    let entry = coordinator.clone_handle(&only.entry);
    drop_admission(&mut coordinator, only);
    assert!(!coordinator.try_commit_success(&None, &entry));
    assert_eq!(coordinator.entry(&entry).state(), GenerationState::Aborting);
}

#[test]
fn a_stale_producer_does_no_harm() {
    let mut coordinator = LargestAccountsSingleflight::new();
    let (_, old) = coordinator.get_or_create(&None);
    coordinator.publish_and_remove(&None, &old, Ok((1, vec![])));
    assert_eq!(coordinator.entry(&old).state(), GenerationState::Terminal);
    let (is_new, current) = coordinator.get_or_create(&None);
    assert!(is_new);
    assert!(!current.same_entry(&old));

    coordinator.publish_and_remove(&None, &old, Err("late".to_string()));
    assert!(!coordinator.try_commit_success(&None, &old));
    assert_eq!(read(&coordinator, &old), Some(Err("late".to_string())));
    assert_eq!(read(&coordinator, &current), None);
    assert!(coordinator.is_inflight(&None));
    assert_eq!(coordinator.entry(&current).state(), GenerationState::Active);
}

#[test]
fn a_late_departure_does_not_touch_the_next_generation() {
    let mut coordinator = LargestAccountsSingleflight::new();
    let first = coordinator.get_or_create_with_waiter(&None).ok().unwrap();
    coordinator.publish_and_remove(&None, &first.entry, Ok((1, vec![])));
    let second = coordinator.get_or_create_with_waiter(&None).ok().unwrap();
    assert!(second.is_producer);
    drop_admission(&mut coordinator, first);
    assert_eq!(coordinator.entry(&second.entry).state(), GenerationState::Active);
    assert!(!coordinator.entry(&second.entry).abort_token().load(Ordering::SeqCst));
}

#[test]
fn a_closed_channel_means_an_aborted_producer() {
    let mut coordinator = LargestAccountsSingleflight::new();
    let (_, entry) = coordinator.get_or_create(&None);
    match coordinator.entry(&entry).wait(WaitEvent::Closed) {
        WaitStep::Done(outcome) => {
            assert_eq!(outcome, Err("producer task aborted".to_string()));
        }
        WaitStep::AwaitChange => panic!("nothing more will come"),
    }
}

#[test]
fn subscribers_see_what_is_published() {
    let mut coordinator = LargestAccountsSingleflight::new();
    let (_, entry) = coordinator.get_or_create(&None);
    let mut receiver = coordinator.entry(&entry).subscribe();
    assert_eq!(*receiver.borrow(), None);
    assert!(!receiver.has_changed().unwrap());
    coordinator.publish_and_remove(&None, &entry, Ok((5, vec![])));
    assert!(receiver.has_changed().unwrap());
    assert_eq!(*receiver.borrow_and_update(), Some(Ok((5, vec![]))));
    coordinator.drop_handle(entry);
    assert!(receiver.has_changed().is_err());
    assert_eq!(*receiver.borrow(), Some(Ok((5, vec![]))));
}

#[test]
fn a_generation_without_subscribers_keeps_its_outcome() {
    let mut coordinator = LargestAccountsSingleflight::new();
    let (_, entry) = coordinator.get_or_create(&None);
    coordinator.publish_and_remove(&None, &entry, Ok((5, vec![])));
    let receiver = coordinator.entry(&entry).subscribe();
    assert_eq!(*receiver.borrow(), Some(Ok((5, vec![]))));
}

#[test]
fn forgotten_generations_make_room() {
    let mut coordinator = LargestAccountsSingleflight::new();
    let (_, first) = coordinator.get_or_create(&None);
    let copy = coordinator.clone_handle(&first);
    coordinator.publish_and_remove(&None, &first, Ok((1, vec![])));
    coordinator.drop_handle(first);
    assert_eq!(read(&coordinator, &copy), Some(Ok((1, vec![]))));
    let (_, second) = coordinator.get_or_create(&None);
    assert!(!second.same_entry(&copy));
    coordinator.drop_handle(copy);
    let (_, third) = coordinator.get_or_create(&Some(LargestAccountsFilter::Circulating));
    assert!(!third.same_entry(&second));
    assert_eq!(read(&coordinator, &third), None);
    assert_eq!(coordinator.inflight_count(), 2);
}

#[test]
fn handles_of_another_coordinator_are_told_apart() {
    let mut ours = LargestAccountsSingleflight::new();
    let mut theirs = LargestAccountsSingleflight::new();
    let (_, our_entry) = ours.get_or_create(&None);
    let (_, their_entry) = theirs.get_or_create(&None);
    assert!(!our_entry.same_entry(&their_entry));
    assert!(!ours.try_commit_success(&None, &their_entry));
    assert_eq!(ours.entry(&our_entry).state(), GenerationState::Active);
    assert!(theirs.try_commit_success(&None, &their_entry));
    assert_eq!(theirs.entry(&their_entry).state(), GenerationState::Completing);
    assert!(ours.try_commit_success(&None, &our_entry));
}

#[test]
fn publishing_alone_does_not_end_a_generation() {
    let mut coordinator = LargestAccountsSingleflight::new();
    let (_, entry) = coordinator.get_or_create(&None);
    coordinator.publish(&entry, Ok((5, vec![])));
    assert_eq!(read(&coordinator, &entry), Some(Ok((5, vec![]))));
    assert_eq!(coordinator.entry(&entry).state(), GenerationState::Active);
    assert!(coordinator.is_inflight(&None));
}

#[test]
fn an_abort_token_taken_early_tells_of_a_later_abort() {
    let mut coordinator = LargestAccountsSingleflight::new();
    let circulating = Some(LargestAccountsFilter::Circulating);
    let first = coordinator.get_or_create_with_waiter(&None).ok().unwrap();
    let second = coordinator.get_or_create_with_waiter(&None).ok().unwrap();
    let other = coordinator.get_or_create_with_waiter(&circulating).ok().unwrap();
    let entry = coordinator.clone_handle(&first.entry);
    let token = coordinator.entry(&entry).abort_token();
    let other_token = coordinator.entry(&other.entry).abort_token();
    assert!(Arc::ptr_eq(&token, &coordinator.entry(&second.entry).abort_token()));
    assert!(!Arc::ptr_eq(&token, &other_token));
    drop_admission(&mut coordinator, first);
    assert!(!token.load(Ordering::SeqCst));
    drop_admission(&mut coordinator, second);
    assert!(token.load(Ordering::SeqCst));
    assert!(!other_token.load(Ordering::SeqCst));

    coordinator.publish_and_remove(&None, &entry, Err("aborted".to_string()));
    coordinator.drop_handle(entry);
    assert!(token.load(Ordering::SeqCst));
    let next = coordinator.get_or_create_with_waiter(&None).ok().unwrap();
    assert!(!coordinator.entry(&next.entry).abort_token().load(Ordering::SeqCst));
}

#[test]
fn a_running_generation_keeps_its_key_whatever_else_happens() {
    let mut coordinator = LargestAccountsSingleflight::new();
    let circulating = Some(LargestAccountsFilter::Circulating);
    let producer = coordinator.get_or_create_with_waiter(&None).ok().unwrap();
    assert!(producer.is_producer);
    let (_, elsewhere) = coordinator.get_or_create(&circulating);
    coordinator.publish_and_remove(&None, &elsewhere, Ok((1, vec![])));
    coordinator.publish_and_remove(&circulating, &elsewhere, Ok((2, vec![])));
    coordinator.publish_and_remove(&circulating, &producer.entry, Ok((3, vec![])));
    coordinator.publish(&producer.entry, Ok((4, vec![])));
    coordinator.drop_handle(elsewhere);
    let joined = coordinator.get_or_create_with_waiter(&None).ok().unwrap();
    assert!(!joined.is_producer);
    assert!(joined.entry.same_entry(&producer.entry));

    assert!(coordinator.try_commit_success(&None, &producer.entry));
    assert!(coordinator.get_or_create_with_waiter(&None).is_err());
    coordinator.publish_and_remove(&None, &producer.entry, Ok((5, vec![])));
    assert!(coordinator.get_or_create_with_waiter(&None).ok().unwrap().is_producer);
}
