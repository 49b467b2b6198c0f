//! The decisions behind the calls to a Git server: what to make of an answer
//! that may tell of a rate limit, and where the next page of a listing is.
//!
//! Nothing here sends a request. The caller sends it, hands over the status
//! and the headers of the answer, and does what the verdict says.

use crate::error::RateLimitError;
use crate::numbers::{parse_i64, parse_u64, signed_reading, unsigned_reading};
use crate::text::{
    copy_range, ends_with, find, first_occurrence, has_suffix, text_view, text_views, to_chars,
    to_string,
};
use vstd::prelude::*;

pub mod comment_reconciler;
pub mod github;

verus! {

/// The names of the headers by which a server tells of its rate limit.
#[derive(Debug, Clone)]
pub struct RestApiRateLimitHeaders {
    /// The header with the time at which the quota is renewed.
    pub reset: String,
    /// The header with the number of requests that are left.
    pub remaining: String,
    /// The header with the number of seconds to wait before the next attempt.
    pub retry: String,
}

/// How many times one request is sent at most.
pub const MAX_RETRIES: u8 = 5;

/// One header of an answer.
#[derive(Debug, PartialEq, Eq, Clone)]
pub enum HeaderField {
    /// The answer does not have the header.
    Missing,
    /// The answer has the header, and its value is not text.
    Unreadable,
    /// The answer has the header with this value.
    Text(String),
}

/// What a [`HeaderField`] holds.
pub enum HeaderFieldView {
    Missing,
    Unreadable,
    Text(Seq<char>),
}

impl View for HeaderField {
    type V = HeaderFieldView;

    open spec fn view(&self) -> HeaderFieldView {
        match self {
            HeaderField::Missing => HeaderFieldView::Missing,
            HeaderField::Unreadable => HeaderFieldView::Unreadable,
            HeaderField::Text(value) => HeaderFieldView::Text(value@),
        }
    }
}

impl HeaderFieldView {
    /// The signed number that the header gives, if it gives one.
    pub open spec fn signed(self) -> Option<int> {
        match self {
            HeaderFieldView::Text(value) => signed_reading(value, i64::MAX as int),
            _ => None,
        }
    }

    /// The unsigned number that the header gives, if it gives one.
    pub open spec fn unsigned(self) -> Option<int> {
        match self {
            HeaderFieldView::Text(value) => unsigned_reading(value, u64::MAX as int),
            _ => None,
        }
    }
}

impl HeaderField {
    /// Reads the header as an `i64`.
    pub fn as_i64(&self) -> (number: Option<i64>)
        ensures
            number is Some <==> self@.signed() is Some,
            number matches Some(n) ==> self@.signed() == Some(n as int),
    {
        match self {
            HeaderField::Text(value) => {
                let chars = to_chars(value.as_str());
                parse_i64(&chars)
            },
            _ => None,
        }
    }

    /// Reads the header as a `u64`.
    pub fn as_u64(&self) -> (number: Option<u64>)
        ensures
            number is Some <==> self@.unsigned() is Some,
            number matches Some(n) ==> self@.unsigned() == Some(n as int),
    {
        match self {
            HeaderField::Text(value) => {
                let chars = to_chars(value.as_str());
                parse_u64(&chars)
            },
            _ => None,
        }
    }
}

/// What to do with an answer.
#[derive(Debug, PartialEq, Eq, Structural, Clone, Copy)]
pub enum Verdict {
    /// The answer goes to the caller as it is, whatever its status.
    Deliver,
    /// The request fails, and is not sent again.
    Fail(RateLimitError),
    /// The request is sent again, after `wait` seconds if a wait is given.
    Retry { wait: Option<u64> },
}

/// What the "retry" header asks for.
#[derive(Debug, PartialEq, Eq, Structural, Clone, Copy)]
pub enum RetryAfter {
    /// The answer has no such header.
    Missing,
    /// The answer has the header, and it gives no number of seconds.
    Unclear,
    /// The answer asks to wait this many seconds.
    Seconds(u64),
}

/// Whether chrono can tell the date and time of `secs` seconds of the Unix epoch.
pub uninterp spec fn timestamp_in_range(secs: i64) -> bool;

/// chrono's `DateTime::from_timestamp`, with no nanoseconds: says whether it
/// gives a date and time for `secs`, which it does unless the date is out of
/// the range of years that chrono covers.
#[verifier::external_body]
fn is_timestamp(secs: i64) -> (known: bool)
    ensures
        known == timestamp_in_range(secs),
{
    chrono::DateTime::from_timestamp(secs, 0).is_some()
}

/// The status codes by which a server tells of a rate limit.
pub open spec fn is_rate_limit_status(status: u16) -> bool {
    status == 403 || status == 429
}

/// The seconds to wait before attempt `attempt + 1`: what the server asked
/// for and the square of `attempt`, as far as a `u64` can count.
pub open spec fn backoff(seconds: u64, attempt: u8) -> u64 {
    if seconds + attempt * attempt > u64::MAX {
        u64::MAX
    } else {
        (seconds + attempt * attempt) as u64
    }
}

/// What to make of an answer with `status` to attempt number `attempt`.
///
/// A status other than 403 and 429 is no rate limit. With one of these, a
/// count of zero or less of remaining requests means that the quota is used
/// up: the request fails, with the reset time if the server gave one that is
/// a time. Else the server may ask to wait: the request is sent again, after
/// the wait where the server named one. Else the answer is delivered.
pub open spec fn judged(
    attempt: u8,
    status: u16,
    remaining: Option<int>,
    reset: Option<i64>,
    reset_is_time: bool,
    retry: RetryAfter,
) -> Verdict {
    if !is_rate_limit_status(status) {
        Verdict::Deliver
    } else if remaining matches Some(left) && left <= 0 {
        match reset {
            Some(at) if reset_is_time => Verdict::Fail(RateLimitError::Primary { reset: at }),
            _ => Verdict::Fail(RateLimitError::NoReset),
        }
    } else {
        match retry {
            RetryAfter::Missing => Verdict::Deliver,
            RetryAfter::Unclear => Verdict::Retry { wait: None },
            RetryAfter::Seconds(seconds) => Verdict::Retry { wait: Some(backoff(seconds, attempt)) },
        }
    }
}

/// Judges an answer from its status and from what its headers were found to
/// say. See [`judged`].
pub fn judge(
    attempt: u8,
    status: u16,
    remaining: Option<i64>,
    reset: Option<i64>,
    reset_is_time: bool,
    retry: RetryAfter,
) -> (verdict: Verdict)
    ensures
        verdict == judged(
            attempt,
            status,
            match remaining {
                Some(left) => Some(left as int),
                None => None,
            },
            reset,
            reset_is_time,
            retry,
        ),
{
    if status != 403 && status != 429 {
        return Verdict::Deliver;
    }
    let used_up = match remaining {
        Some(left) => left <= 0,
        None => false,
    };
    if used_up {
        return match reset {
            Some(at) => {
                if reset_is_time {
                    Verdict::Fail(RateLimitError::Primary { reset: at })
                } else {
                    Verdict::Fail(RateLimitError::NoReset)
                }
            },
            None => Verdict::Fail(RateLimitError::NoReset),
        };
    }
    match retry {
        RetryAfter::Missing => Verdict::Deliver,
        RetryAfter::Unclear => Verdict::Retry { wait: None },
        RetryAfter::Seconds(seconds) => {
            assert(attempt * attempt <= 255 * 255) by (nonlinear_arith)
                requires
                    attempt <= 255,
            ;
            let square: u64 = (attempt as u64) * (attempt as u64);
            let wait = match seconds.checked_add(square) {
                Some(total) => total,
                None => u64::MAX,
            };
            Verdict::Retry { wait: Some(wait) }
        },
    }
}

/// What a "retry" header asks for.
pub open spec fn retry_after(retry: HeaderFieldView) -> RetryAfter {
    match retry {
        HeaderFieldView::Missing => RetryAfter::Missing,
        _ => match retry.unsigned() {
            Some(seconds) => RetryAfter::Seconds(seconds as u64),
            None => RetryAfter::Unclear,
        },
    }
}

/// What the reset header says, where it gives a number.
pub open spec fn reset_epoch(reset: HeaderFieldView) -> Option<i64> {
    match reset.signed() {
        Some(at) => Some(at as i64),
        None => None,
    }
}

/// Judges the answer to attempt number `attempt` from its status and its
/// three rate limit headers.
///
/// The headers are read as numbers, the reset time is held against the
/// calendar, and [`judge`] decides.
pub fn judge_response(
    attempt: u8,
    status: u16,
    remaining: &HeaderField,
    reset: &HeaderField,
    retry: &HeaderField,
) -> (verdict: Verdict)
    ensures
        verdict == judged(
            attempt,
            status,
            remaining@.signed(),
            reset_epoch(reset@),
            reset_epoch(reset@) matches Some(at) && timestamp_in_range(at),
            retry_after(retry@),
        ),
        !is_rate_limit_status(status) ==> verdict == Verdict::Deliver,
        is_rate_limit_status(status) && (remaining@.signed() matches Some(left) && left <= 0)
            ==> verdict is Fail,
{
    let left = remaining.as_i64();
    let at = reset.as_i64();
    let reset_is_time = match at {
        Some(secs) => is_timestamp(secs),
        None => false,
    };
    let wait = match retry {
        HeaderField::Missing => RetryAfter::Missing,
        _ => match retry.as_u64() {
            Some(seconds) => RetryAfter::Seconds(seconds),
            None => RetryAfter::Unclear,
        },
    };
    judge(attempt, status, left, at, reset_is_time, wait)
}

/// The count of the attempts that were made to send one request.
#[derive(Debug)]
pub struct RequestAttempts {
    made: u8,
}

impl RequestAttempts {
    #[verifier::type_invariant]
    spec fn bounded(self) -> bool {
        self.made <= MAX_RETRIES
    }

    /// The number of attempts made so far.
    pub closed spec fn count(&self) -> int {
        self.made as int
    }

    /// No attempt was made yet.
    pub fn new() -> (attempts: Self)
        ensures
            attempts.count() == 0,
    {
        RequestAttempts { made: 0 }
    }

    /// Says whether the request may be sent once more. If so, returns the
    /// number of the attempt, counted from zero; if all attempts are used,
    /// fails with [`RateLimitError::Secondary`].
    pub fn next_attempt(&mut self) -> (attempt: Result<u8, RateLimitError>)
        ensures
            old(self).count() < MAX_RETRIES ==> attempt == Ok::<u8, RateLimitError>(
                old(self).count() as u8,
            ) && final(self).count() == old(self).count() + 1,
            old(self).count() >= MAX_RETRIES ==> attempt == Err::<u8, RateLimitError>(
                RateLimitError::Secondary,
            ) && final(self).count() == old(self).count(),
            final(self).count() <= MAX_RETRIES,
    {
        proof {
            use_type_invariant(&*self);
        }
        if self.made >= MAX_RETRIES {
            return Err(RateLimitError::Secondary);
        }
        let attempt = self.made;
        self.made = self.made + 1;
        Ok(attempt)
    }
}

/// What separates the entries of a `Link` header.
pub open spec fn link_separator() -> Seq<char> {
    ", "@
}

/// What ends the entry that leads to the next page.
pub open spec fn next_relation() -> Seq<char> {
    "; rel=\"next\""@
}

/// What ends the address of an entry.
pub open spec fn address_end() -> Seq<char> {
    ">;"@
}

/// The first position at or after `from`, and before `to`, of a character
/// other than `<`; `to` if there is none.
pub open spec fn skip_brackets(text: Seq<char>, from: int, to: int) -> int
    decreases to - from,
{
    if from >= to || from < 0 || from >= text.len() {
        to
    } else if text[from] != '<' {
        from
    } else {
        skip_brackets(text, from + 1, to)
    }
}

/// The address that an entry of a `Link` header gives for the next page: where
/// the entry ends with the relation "next" and holds `>;`, what stands before
/// the first `>;`, without the `<` in front of it.
pub open spec fn link_target(entry: Seq<char>) -> Option<Seq<char>> {
    let cut = first_occurrence(entry, address_end(), 0);
    if has_suffix(entry, next_relation()) && cut < entry.len() {
        Some(entry.subrange(skip_brackets(entry, 0, cut), cut))
    } else {
        None
    }
}

/// The addresses that the entries of `header` from position `from` on give
/// for the next page, in order. The entries are what `, ` separates.
pub open spec fn link_targets(header: Seq<char>, from: int) -> Seq<Seq<char>>
    decreases header.len() - from,
    via link_targets_decreases
{
    let end = first_occurrence(header, link_separator(), from);
    let here = match link_target(header.subrange(from, end)) {
        Some(target) => seq![target],
        None => Seq::empty(),
    };
    if 0 <= from && end < header.len() {
        here + link_targets(header, end + link_separator().len())
    } else {
        here
    }
}

#[via_fn]
proof fn link_targets_decreases(header: Seq<char>, from: int) {
    let end = first_occurrence(header, link_separator(), from);
    if 0 <= from && end < header.len() {
        reveal_strlit(", ");
        crate::text::lemma_first_occurrence_is_later(header, link_separator(), from);
    }
}

/// The URL that the `url` crate reads from `text`, as that crate writes it;
/// none where it reads none.
pub uninterp spec fn parsed_url(text: Seq<char>) -> Option<Seq<char>>;

/// What the first of `targets` that is a URL is read as.
pub open spec fn first_url(targets: Seq<Seq<char>>) -> Option<Seq<char>>
    decreases targets.len(),
{
    if targets.len() == 0 {
        None
    } else {
        match parsed_url(targets[0]) {
            Some(url) => Some(url),
            None => first_url(targets.skip(1)),
        }
    }
}

/// `Url::parse` of the `url` crate, and the URL's serialization where it
/// reads one: the result is that of parsing `text` as an absolute URL.
#[verifier::external_body]
fn parse_url(text: &str) -> (url: Option<String>)
    ensures
        text_view(url) == parsed_url(text@),
{
    match url::Url::parse(text) {
        Ok(url) => Some(url.into()),
        Err(_) => None,
    }
}

/// The address that one entry of a `Link` header gives for the next page.
fn entry_target(entry: &Vec<char>) -> (target: Option<String>)
    ensures
        text_view(target) == link_target(entry@),
{
    let relation = to_chars("; rel=\"next\"");
    let closing = to_chars(">;");
    let cut = find(entry, &closing, 0);
    if !ends_with(entry, &relation) || cut >= entry.len() {
        return None;
    }
    let mut start: usize = 0;
    while start < cut && entry[start] == '<'
        invariant
            start <= cut < entry.len(),
            skip_brackets(entry@, 0, cut as int) == skip_brackets(entry@, start as int, cut as int),
        decreases cut - start,
    {
        start += 1;
    }
    let address = copy_range(entry, start, cut);
    Some(to_string(&address))
}

/// Lists the addresses that a `Link` header gives for the next page, in the
/// order of its entries. An entry that does not end with the relation
/// "next", or holds no `>;`, gives none.
pub fn next_page_links(header: &str) -> (targets: Vec<String>)
    ensures
        text_views(targets@) == link_targets(header@, 0),
{
    let header = to_chars(header);
    let separator = to_chars(", ");
    let mut targets: Vec<String> = Vec::new();
    let mut from: usize = 0;
    proof {
        reveal_strlit(", ");
    }
    loop
        invariant_except_break
            link_targets(header@, 0) == text_views(targets@) + link_targets(header@, from as int),
        invariant
            from <= header.len(),
            separator@ == link_separator(),
            separator@.len() == 2,
        ensures
            text_views(targets@) == link_targets(header@, 0),
        decreases header.len() - from,
    {
        let end = find(&header, &separator, from);
        let entry = copy_range(&header, from, end);
        match entry_target(&entry) {
            Some(target) => {
                targets.push(target);
            },
            None => {},
        }
        if end >= header.len() {
            break ;
        }
        from = end + 2;
    }
    targets
}

/// The first of `targets` that is a URL, as the `url` crate writes it.
fn first_parsed(targets: &Vec<String>) -> (url: Option<String>)
    ensures
        text_view(url) == first_url(text_views(targets@)),
{
    let mut i: usize = 0;
    assert(text_views(targets@).skip(0) == text_views(targets@));
    while i < targets.len()
        invariant
            i <= targets.len(),
            first_url(text_views(targets@)) == first_url(text_views(targets@).skip(i as int)),
        decreases targets.len() - i,
    {
        proof {
            let rest = text_views(targets@).skip(i as int);
            assert(rest.skip(1) == text_views(targets@).skip(i + 1));
        }
        match parse_url(targets[i].as_str()) {
            Some(url) => {
                return Some(url);
            },
            None => {},
        }
        i += 1;
    }
    None
}

/// The URL of the next page of a listing, from the `Link` header of the
/// current page; none where the header names no next page, or none that is
/// a URL.
pub fn try_next_page(link_header: &str) -> (next: Option<String>)
    ensures
        text_view(next) == first_url(link_targets(link_header@, 0)),
{
    let targets = next_page_links(link_header);
    first_parsed(&targets)
}

} // verus!
