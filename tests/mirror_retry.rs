use session_bars::mirror_retry::{AttemptResult, FetchFailure, MirrorRetry, RetryAction};

#[test]
fn mirrors_are_tried_in_order_with_pauses_between() {
    let mut r = MirrorRetry::new(2);
    assert_eq!(r.next_action(), RetryAction::Attempt { mirror: 0, pause_first: false });
    r.record(AttemptResult::NetworkError("refused".to_string()));
    assert_eq!(r.next_action(), RetryAction::Attempt { mirror: 1, pause_first: true });
    r.record(AttemptResult::BadStatus(503));
    assert_eq!(r.next_action(), RetryAction::GiveUp);
    assert_eq!(r.last_error, FetchFailure::Status(503));
}

#[test]
fn empty_answer_keeps_earlier_failure() {
    let mut r = MirrorRetry::new(2);
    r.record(AttemptResult::ApiError { description: "Not Found".to_string(), code: "404".to_string() });
    r.record(AttemptResult::NoResult);
    assert_eq!(
        r.last_error,
        FetchFailure::Api { description: "Not Found".to_string(), code: "404".to_string() }
    );
}

#[test]
fn no_mirrors_gives_up_at_once() {
    let r = MirrorRetry::new(0);
    assert_eq!(r.next_action(), RetryAction::GiveUp);
    assert_eq!(r.last_error, FetchFailure::NoUrlsTried);
}
