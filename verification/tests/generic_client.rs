use git_bot_feedback::client::{
    judge, judge_response, next_page_links, try_next_page, HeaderField, RequestAttempts,
    RetryAfter, Verdict, MAX_RETRIES,
};
use git_bot_feedback::RateLimitError;
use reqwest::header::{HeaderMap, HeaderValue};

/// What a server that limits the rate of requests answers, every time.
#[derive(Default)]
struct RateLimitTestParams {
    secondary: bool,
    has_remaining_count: bool,
    bad_remaining_count: bool,
    has_reset_timestamp: bool,
    bad_reset_timestamp: bool,
    has_retry_interval: bool,
    bad_retry_interval: bool,
}

const RESET_TIMESTAMP: &str = "1893456000";

/// Sends a request as a client does, to a server that always answers 429
/// with the headers that `test_params` describe. Returns the error, or `None`
/// where the answer was delivered, with the number of requests sent and the
/// seconds waited.
fn simulate_rate_limit(test_params: &RateLimitTestParams) -> (Option<RateLimitError>, u8, u64) {
    let remaining = if test_params.has_remaining_count {
        HeaderField::Text(
            if test_params.secondary {
                "1"
            } else if test_params.bad_remaining_count {
                "X"
            } else {
                "0"
            }
            .to_string(),
        )
    } else {
        HeaderField::Missing
    };
    let reset = if test_params.has_reset_timestamp {
        HeaderField::Text(
            if test_params.bad_reset_timestamp {
                "X"
            } else {
                RESET_TIMESTAMP
            }
            .to_string(),
        )
    } else {
        HeaderField::Missing
    };
    let retry = if test_params.secondary && test_params.has_retry_interval {
        HeaderField::Text(
            if test_params.bad_retry_interval {
                "X"
            } else {
                "0"
            }
            .to_string(),
        )
    } else {
        HeaderField::Missing
    };
    let mut attempts = RequestAttempts::new();
    let mut sent = 0;
    let mut waited = 0;
    loop {
        let attempt = match attempts.next_attempt() {
            Ok(attempt) => attempt,
            Err(e) => return (Some(e), sent, waited),
        };
        sent += 1;
        assert!(sent <= 5);
        match judge_response(attempt, 429, &remaining, &reset, &retry) {
            Verdict::Deliver => return (None, sent, waited),
            Verdict::Fail(e) => return (Some(e), sent, waited),
            Verdict::Retry { wait } => waited += wait.unwrap_or(0),
        }
    }
}

#[test]
fn rate_limit_secondary() {
    let outcome = simulate_rate_limit(&RateLimitTestParams {
        secondary: true,
        has_retry_interval: true,
        ..Default::default()
    });
    // Five requests, each followed by a wait of the square of its number.
    assert_eq!(outcome, (Some(RateLimitError::Secondary), 5, 0 + 1 + 4 + 9 + 16));
}

#[test]
fn rate_limit_bad_retry() {
    let outcome = simulate_rate_limit(&RateLimitTestParams {
        secondary: true,
        has_retry_interval: true,
        bad_retry_interval: true,
        ..Default::default()
    });
    assert_eq!(outcome, (Some(RateLimitError::Secondary), 5, 0));
}

#[test]
fn rate_limit_primary() {
    let outcome = simulate_rate_limit(&RateLimitTestParams {
        has_remaining_count: true,
        has_reset_timestamp: true,
        ..Default::default()
    });
    assert_eq!(outcome, (Some(RateLimitError::Primary { reset: 1893456000 }), 1, 0));
}

#[test]
fn rate_limit_no_reset() {
    let outcome = simulate_rate_limit(&RateLimitTestParams {
        has_remaining_count: true,
        ..Default::default()
    });
    assert_eq!(outcome, (Some(RateLimitError::NoReset), 1, 0));
}

#[test]
fn rate_limit_bad_reset() {
    let outcome = simulate_rate_limit(&RateLimitTestParams {
        has_remaining_count: true,
        has_reset_timestamp: true,
        bad_reset_timestamp: true,
        ..Default::default()
    });
    assert_eq!(outcome, (Some(RateLimitError::NoReset), 1, 0));
}

#[test]
fn rate_limit_bad_count() {
    let outcome = simulate_rate_limit(&RateLimitTestParams {
        has_remaining_count: true,
        bad_remaining_count: true,
        ..Default::default()
    });
    // No count, no wait asked for: the answer is delivered as it is.
    assert_eq!(outcome, (None, 1, 0));
}

fn text(value: &str) -> HeaderField {
    HeaderField::Text(value.to_string())
}

#[test]
fn primary_limit_fails_without_retry() {
    for status in [403, 429] {
        for attempt in 0..MAX_RETRIES {
            assert_eq!(
                judge_response(attempt, status, &text("0"), &text("1431648000"), &text("7")),
                Verdict::Fail(RateLimitError::Primary { reset: 1431648000 })
            );
            assert_eq!(
                judge_response(attempt, status, &text("-3"), &text("-1"), &HeaderField::Missing),
                Verdict::Fail(RateLimitError::Primary { reset: -1 })
            );
        }
    }
}

#[test]
fn reset_time_must_be_a_time() {
    // The year of this many seconds is beyond what a calendar date can hold.
    assert_eq!(
        judge_response(0, 429, &text("0"), &text("9223372036854775807"), &HeaderField::Missing),
        Verdict::Fail(RateLimitError::NoReset)
    );
    assert_eq!(
        judge_response(0, 429, &text("0"), &text("-9223372036854775808"), &HeaderField::Missing),
        Verdict::Fail(RateLimitError::NoReset)
    );
    assert_eq!(
        judge_response(0, 429, &text("0"), &HeaderField::Unreadable, &HeaderField::Missing),
        Verdict::Fail(RateLimitError::NoReset)
    );
    assert_eq!(
        judge_response(0, 429, &text("0"), &text("12.5"), &HeaderField::Missing),
        Verdict::Fail(RateLimitError::NoReset)
    );
}

#[test]
fn other_statuses_are_delivered() {
    for status in [200, 201, 204, 301, 400, 401, 404, 422, 500, 503] {
        assert_eq!(
            judge_response(0, status, &text("0"), &text("1431648000"), &text("7")),
            Verdict::Deliver
        );
    }
}

#[test]
fn secondary_limit_waits() {
    assert_eq!(
        judge_response(3, 403, &text("12"), &HeaderField::Missing, &text("30")),
        Verdict::Retry { wait: Some(39) }
    );
    assert_eq!(
        judge_response(4, 429, &HeaderField::Missing, &HeaderField::Missing, &text("+2")),
        Verdict::Retry { wait: Some(18) }
    );
    assert_eq!(
        judge_response(2, 429, &HeaderField::Unreadable, &text("5"), &text("18446744073709551615")),
        Verdict::Retry { wait: Some(u64::MAX) }
    );
    assert_eq!(
        judge_response(2, 429, &text(""), &text("5"), &text("18446744073709551616")),
        Verdict::Retry { wait: None }
    );
    assert_eq!(
        judge_response(2, 429, &text("1"), &text("5"), &HeaderField::Unreadable),
        Verdict::Retry { wait: None }
    );
    assert_eq!(
        judge_response(2, 429, &text("1"), &text("5"), &text("-1")),
        Verdict::Retry { wait: None }
    );
    assert_eq!(
        judge_response(2, 403, &text("1"), &text("5"), &HeaderField::Missing),
        Verdict::Deliver
    );
}

#[test]
fn judge_takes_what_the_headers_said() {
    assert_eq!(
        judge(1, 429, Some(0), Some(5), true, RetryAfter::Seconds(1)),
        Verdict::Fail(RateLimitError::Primary { reset: 5 })
    );
    assert_eq!(
        judge(1, 429, Some(0), Some(5), false, RetryAfter::Seconds(1)),
        Verdict::Fail(RateLimitError::NoReset)
    );
    assert_eq!(judge(1, 429, Some(0), None, true, RetryAfter::Missing), Verdict::Fail(RateLimitError::NoReset));
    assert_eq!(judge(1, 429, Some(1), Some(5), true, RetryAfter::Missing), Verdict::Deliver);
    assert_eq!(judge(1, 429, None, None, false, RetryAfter::Unclear), Verdict::Retry { wait: None });
    assert_eq!(
        judge(255, 429, None, None, false, RetryAfter::Seconds(u64::MAX - 65025)),
        Verdict::Retry { wait: Some(u64::MAX) }
    );
    assert_eq!(
        judge(255, 429, None, None, false, RetryAfter::Seconds(u64::MAX - 65026)),
        Verdict::Retry { wait: Some(u64::MAX - 1) }
    );
    assert_eq!(judge(1, 500, Some(0), Some(5), true, RetryAfter::Seconds(1)), Verdict::Deliver);
}

#[test]
fn attempts_are_counted() {
    let mut attempts = RequestAttempts::new();
    for expected in 0..5 {
        assert_eq!(attempts.next_attempt(), Ok(expected));
    }
    assert_eq!(attempts.next_attempt(), Err(RateLimitError::Secondary));
    assert_eq!(attempts.next_attempt(), Err(RateLimitError::Secondary));
}

#[test]
fn header_numbers() {
    assert_eq!(text("42").as_i64(), Some(42));
    assert_eq!(text("+42").as_i64(), Some(42));
    assert_eq!(text("-42").as_i64(), Some(-42));
    assert_eq!(text("-0").as_i64(), Some(0));
    assert_eq!(text("0042").as_i64(), Some(42));
    assert_eq!(text("9223372036854775807").as_i64(), Some(i64::MAX));
    assert_eq!(text("9223372036854775808").as_i64(), None);
    assert_eq!(text("-9223372036854775808").as_i64(), Some(i64::MIN));
    assert_eq!(text("-9223372036854775809").as_i64(), None);
    assert_eq!(text("").as_i64(), None);
    assert_eq!(text("-").as_i64(), None);
    assert_eq!(text("+").as_i64(), None);
    assert_eq!(text("+-1").as_i64(), None);
    assert_eq!(text(" 1").as_i64(), None);
    assert_eq!(text("1 ").as_i64(), None);
    assert_eq!(text("١").as_i64(), None);
    assert_eq!(HeaderField::Missing.as_i64(), None);
    assert_eq!(HeaderField::Unreadable.as_i64(), None);
    assert_eq!(text("18446744073709551615").as_u64(), Some(u64::MAX));
    assert_eq!(text("18446744073709551616").as_u64(), None);
    assert_eq!(text("-1").as_u64(), None);
    assert_eq!(text("+7").as_u64(), Some(7));
    for sample in ["0", "-17", "+3", "00", "1e3", "0x10", "", "9999999999999999999"] {
        assert_eq!(text(sample).as_i64(), sample.parse::<i64>().ok());
        assert_eq!(text(sample).as_u64(), sample.parse::<u64>().ok());
    }
}

// ************************************************* try_next_page() tests

fn link_header(headers: &HeaderMap) -> Option<String> {
    let links = headers.get("link")?;
    try_next_page(links.to_str().ok()?)
}

#[test]
fn bad_link_header() {
    let mut headers = HeaderMap::with_capacity(1);
    assert!(
        headers
            .insert("link", HeaderValue::from_str("; rel=\"next\"").unwrap())
            .is_none()
    );
    let result = link_header(&headers);
    assert!(result.is_none());
}

#[test]
fn bad_link_domain() {
    let mut headers = HeaderMap::with_capacity(1);
    assert!(
        headers
            .insert(
                "link",
                HeaderValue::from_str("<not a domain>; rel=\"next\"").unwrap()
            )
            .is_none()
    );
    let result = link_header(&headers);
    assert!(result.is_none());
}

#[test]
fn next_page_is_found() {
    let header = "<https://api.example.com/repos/o/r/issues?page=1>; rel=\"prev\", \
                  <https://api.example.com/repos/o/r/issues?page=3>; rel=\"next\", \
                  <https://api.example.com/repos/o/r/issues?page=9>; rel=\"last\"";
    assert_eq!(
        try_next_page(header),
        Some("https://api.example.com/repos/o/r/issues?page=3".to_string())
    );
    // The URL comes back as the `url` crate writes it, not as it stood.
    assert_eq!(
        try_next_page("<HTTPS://Example.COM:443/a/../b>; rel=\"next\""),
        Some("https://example.com/b".to_string())
    );
    assert_eq!(try_next_page(""), None);
    assert_eq!(try_next_page("<https://example.com/>; rel=\"last\""), None);
}

#[test]
fn next_page_candidates() {
    assert_eq!(
        next_page_links("<a>; rel=\"next\", <<b>;c>; rel=\"next\", d; rel=\"next\", <e>; rel=\"next\" , >;; rel=\"next\""),
        vec!["a".to_string(), "b".to_string(), "".to_string()]
    );
    assert_eq!(next_page_links("<a>; rel=\"next\","), vec![] as Vec<String>);
    assert_eq!(next_page_links(", <a>; rel=\"next\""), vec!["a".to_string()]);
    // The first candidate that is a URL is taken.
    assert_eq!(
        try_next_page("<not a domain>; rel=\"next\", <https://example.com/2>; rel=\"next\""),
        Some("https://example.com/2".to_string())
    );
}
