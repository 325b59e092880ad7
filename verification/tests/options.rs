use rucent::options::HistoryOptions;
use rucent::options::PublishOptions;
use rucent::options::with_limit;
use rucent::options::with_reverse;
use rucent::options::with_skip_history;

#[test]
fn test_with_skip_history_true() {
    let mut options = PublishOptions { skip_history: false };
    let option = with_skip_history(true);
    options.apply(option);
    assert_eq!(options.skip_history, true);
}

#[test]
fn test_with_skip_history_false() {
    let mut options = PublishOptions { skip_history: true };
    let option = with_skip_history(false);
    options.apply(option);
    assert_eq!(options.skip_history, false);
}

#[test]
fn test_with_skip_history_multiple_calls() {
    let mut options = PublishOptions { skip_history: false };
    let option1 = with_skip_history(true);
    let option2 = with_skip_history(false);
    let option3 = with_skip_history(true);

    options.apply(option1);
    assert_eq!(options.skip_history, true);

    options.apply(option2);
    assert_eq!(options.skip_history, false);

    options.apply(option3);
    assert_eq!(options.skip_history, true);
}

#[test]
fn test_with_skip_history_no_error_with_default_options() {
    let mut options = PublishOptions { skip_history: false };
    let option = with_skip_history(true);

    // This should not panic or throw an error
    options.apply(option);

    assert_eq!(options.skip_history, true);
}

#[test]
fn history_mutators_fill_distinct_fields() {
    let opts = HistoryOptions::build(vec![with_limit(20), with_reverse(true)]);
    assert!(opts.since.is_none());
    assert_eq!(opts.limit, Some(20));
    assert_eq!(opts.reverse, Some(true));
}

#[test]
fn history_mutators_commute_on_distinct_fields() {
    let a = HistoryOptions::build(vec![with_limit(20), with_reverse(true)]);
    let b = HistoryOptions::build(vec![with_reverse(true), with_limit(20)]);
    assert_eq!(a.limit, b.limit);
    assert_eq!(a.reverse, b.reverse);
    assert_eq!(a.since.is_none(), b.since.is_none());
}

#[test]
fn history_same_field_is_last_write_wins() {
    let opts = HistoryOptions::build(vec![with_limit(5), with_limit(20)]);
    assert_eq!(opts.limit, Some(20));
}

#[test]
fn history_defaults_are_unset() {
    let opts: HistoryOptions = Default::default();
    assert!(opts.since.is_none());
    assert!(opts.limit.is_none());
    assert!(opts.reverse.is_none());
}
