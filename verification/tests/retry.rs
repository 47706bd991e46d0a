use gitweb_release_downloader::retry::{
    get_backoff, get_delay, rate_limit_message, Reply, Retry, RetryAction, DOWNLOAD_RETRIES,
};

fn refused(status: u16, retry_after: Option<&str>) -> Reply {
    Reply::Refused { status, retry_after: retry_after.map(|s| s.to_string()) }
}

#[test]
fn backoff_doubles_up_to_a_minute() {
    let expected = [1u64, 2, 4, 8, 16, 32, 60, 60];
    for (attempt, seconds) in expected.iter().enumerate() {
        assert_eq!(get_backoff(attempt as u32), *seconds);
    }
    assert_eq!(get_backoff(63), 60);
}

#[test]
fn website_can_ask_for_a_delay() {
    assert_eq!(get_delay(0, Some("90")), 90);
    assert_eq!(get_delay(3, Some("0")), 0);
    assert_eq!(get_delay(3, Some("soon")), 8);
    assert_eq!(get_delay(2, None), 4);
    assert_eq!(get_delay(1000, Some("7")), 7);
}

#[test]
fn deliveries_and_failures_are_handed_on() {
    let mut retry = Retry::new(DOWNLOAD_RETRIES);
    assert_eq!(retry.next(&Reply::Delivered), RetryAction::Deliver);
    assert_eq!(retry.next(&Reply::Failed), RetryAction::GiveUp);
    assert_eq!(retry.next(&refused(404, None)), RetryAction::GiveUp);
    assert_eq!(retry.next(&refused(500, Some("1"))), RetryAction::GiveUp);
    assert_eq!(retry.attempt(), 0);
}

#[test]
fn rate_limits_are_waited_for() {
    assert_eq!(DOWNLOAD_RETRIES, 5);
    let mut retry = Retry::new(DOWNLOAD_RETRIES);
    assert_eq!(retry.next(&refused(429, None)), RetryAction::Wait(1));
    assert_eq!(retry.next(&refused(403, None)), RetryAction::Wait(2));
    assert_eq!(retry.next(&refused(429, Some("11"))), RetryAction::Wait(11));
    assert_eq!(retry.next(&refused(429, None)), RetryAction::Wait(8));
    assert_eq!(retry.next(&refused(429, None)), RetryAction::Wait(16));
    assert_eq!(retry.attempt(), 5);
    assert_eq!(retry.next(&refused(429, None)), RetryAction::GiveUp);
    assert_eq!(retry.attempt(), 5);
}

#[test]
fn requests_are_bounded() {
    for max in 0..10u32 {
        let mut retry = Retry::new(max);
        let mut requests = 1u32;
        while retry.next(&refused(429, None)) != RetryAction::GiveUp {
            requests += 1;
        }
        assert_eq!(requests, max + 1);
    }
}

#[test]
fn delivery_after_rate_limits() {
    let mut retry = Retry::new(2);
    assert_eq!(retry.next(&refused(429, None)), RetryAction::Wait(1));
    assert_eq!(retry.next(&refused(429, None)), RetryAction::Wait(2));
    assert_eq!(retry.next(&Reply::Delivered), RetryAction::Deliver);
}

#[test]
fn repetitions_are_told() {
    assert_eq!(
        rate_limit_message(32, 1, 5),
        "Rate limited, retrying in 32s... (attempt 1/5)"
    );
}
