use validator_metrics::token_counter::{
    counter_dropped_count, created_count, token_dropped_count,
};
use validator_metrics::{CountDatapoint, MovingStat, TokenCounter};

#[test]
fn a_moving_stat_adds_up_growth() {
    let mut stat = MovingStat::default();
    let mut last = MovingStat::default();
    stat.update_stat(&mut last, 10);
    stat.update_stat(&mut last, 25);
    assert_eq!(stat.load_and_reset(), 25);
    assert_eq!(stat.load_and_reset(), 0);
    stat.update_stat(&mut last, 30);
    assert_eq!(stat.load_and_reset(), 5);
    assert_eq!(last.load_and_reset(), 30);
}

#[test]
fn a_reading_that_goes_back_adds_nothing() {
    let mut stat = MovingStat::default();
    let mut last = MovingStat::default();
    stat.update_stat(&mut last, 10);
    stat.update_stat(&mut last, 3);
    stat.update_stat(&mut last, 4);
    assert_eq!(stat.load_and_reset(), 11);
}

#[test]
fn a_moving_stat_wraps_around() {
    let mut stat = MovingStat::default();
    stat.update_stat(&mut MovingStat::default(), u64::MAX);
    stat.update_stat(&mut MovingStat::default(), 3);
    assert_eq!(stat.load_and_reset(), 2);
}

fn reported(count: i64) -> CountDatapoint {
    CountDatapoint { name: "tokens", count }
}

#[test]
fn tokens_report_their_number() {
    let mut counter = TokenCounter::new("tokens");
    assert_eq!(counter.tokens(), 0);
    let (first, datapoint) = counter.create_token();
    assert_eq!(datapoint, reported(1));
    let (second, datapoint) = counter.create_token();
    assert_eq!(datapoint, reported(2));
    let (third, datapoint) = counter.clone_token(&second);
    assert_eq!(datapoint, reported(3));
    assert_eq!(counter.tokens(), 3);
    assert_eq!(counter.drop_token(third), reported(2));
    assert_eq!(counter.drop_token(second), reported(1));
    assert_eq!(counter.drop_token(first), reported(0));
    assert_eq!(counter.drop_counter(), reported(0));
    assert_eq!(counter.tokens(), 0);
}

#[test]
fn tokens_of_a_dropped_counter_are_all_counted() {
    let mut counter = TokenCounter::new("tokens");
    let (first, _) = counter.create_token();
    let (second, _) = counter.clone_token(&first);
    assert_eq!(counter.drop_counter(), reported(2));
    assert_eq!(counter.drop_token(first), reported(1));
    let (third, datapoint) = counter.clone_token(&second);
    assert_eq!(datapoint, reported(2));
    assert_eq!(counter.drop_token(second), reported(1));
    assert_eq!(counter.drop_token(third), reported(0));
}

#[test]
fn a_dropped_counter_reports_its_tokens() {
    for tokens in 0..5 {
        let mut counter = TokenCounter::new("tokens");
        for _ in 0..tokens {
            counter.create_token();
        }
        assert_eq!(counter.drop_counter(), reported(tokens));
    }
}

#[test]
fn counts_follow_the_number_of_handles() {
    assert_eq!(created_count(1, true), 1);
    assert_eq!(created_count(7, true), 7);
    assert_eq!(created_count(7, false), 8);
    assert_eq!(token_dropped_count(0, true), 0);
    assert_eq!(token_dropped_count(1, true), 0);
    assert_eq!(token_dropped_count(2, true), 0);
    assert_eq!(token_dropped_count(7, true), 5);
    assert_eq!(token_dropped_count(0, false), 0);
    assert_eq!(token_dropped_count(1, false), 0);
    assert_eq!(token_dropped_count(2, false), 1);
    assert_eq!(token_dropped_count(7, false), 6);
    assert_eq!(counter_dropped_count(0), 0);
    assert_eq!(counter_dropped_count(1), 0);
    assert_eq!(counter_dropped_count(7), 6);
}
