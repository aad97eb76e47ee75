//! The decisions around GitHub's API: which failures to retry, how long to
//! wait, what an answer means, where to ask, and what a notifications poll says.
use vstd::prelude::*;

use crate::json::{field, Json};
use crate::model::owned;
use crate::text::{chars_of, decimal, push_decimal, push_str, text_is};

verus! {

/// The GraphQL endpoint.
pub const API: &'static str = "https://api.github.com/graphql";

/// The notifications endpoint.
pub const REST: &'static str = "https://api.github.com/notifications";

/// The REST API's root.
pub const HOST: &'static str = "https://api.github.com";

/// How many times a GraphQL request is tried.
pub const RETRIES: u32 = 3;

/// How many pages of a public activity feed GitHub keeps: three of a
/// hundred events.
pub const FEED_PAGES: u64 = 3;

/// How a request failed, as far as retrying cares.
#[derive(Debug, Clone, Copy, PartialEq, Eq, Structural)]
pub enum Failure {
    /// GitHub answered with this status.
    Status(u16),
    /// The request timed out.
    Timeout,
    /// Reading or writing the connection failed.
    Io,
    /// No connection could be made.
    ConnectionFailed,
    /// Anything else.
    Other,
}

/// Whether a failure may pass if the request is sent again: a server
/// error, rate limiting (429), a timeout, or a broken or refused connection.
pub open spec fn is_retryable(f: Failure) -> bool {
    match f {
        Failure::Status(c) => c >= 500 || c == 429,
        Failure::Timeout | Failure::Io | Failure::ConnectionFailed => true,
        Failure::Other => false,
    }
}

/// Whether a failure may pass if the request is sent again (see `is_retryable`).
pub fn retryable(f: Failure) -> (r: bool)
    ensures
        r == is_retryable(f),
{
    match f {
        Failure::Status(c) => c >= 500 || c == 429,
        Failure::Timeout | Failure::Io | Failure::ConnectionFailed => true,
        Failure::Other => false,
    }
}

/// `2` to the power `n`.
pub open spec fn pow2(n: nat) -> nat
    decreases n,
{
    if n == 0 {
        1
    } else {
        2 * pow2((n - 1) as nat)
    }
}

/// The pause before try number `attempt` (counting from 0), in
/// milliseconds: 400 doubled `attempt` times.
pub fn backoff_ms(attempt: u32) -> (r: u64)
    requires
        attempt < RETRIES,
    ensures
        r == 400 * pow2(attempt as nat),
{
    let mut r: u64 = 400;
    let mut i: u32 = 0;
    while i < attempt
        invariant
            i <= attempt < RETRIES,
            r == 400 * pow2(i as nat),
            i == 0 ==> r == 400,
            i == 1 ==> r == 800,
            i == 2 ==> r == 1600,
        decreases attempt - i,
    {
        assert(pow2((i + 1) as nat) == 2 * pow2(i as nat));
        r = r * 2;
        i = i + 1;
    }
    r
}

// ---------------------------------------------------------------------------
// What an answer means
// ---------------------------------------------------------------------------

/// The value of the member named `key`, where there is one (`Value::get`).
pub open spec fn member(j: Json, key: Seq<char>) -> Option<Json> {
    match j {
        Json::Object(m) => first_member(m@, key),
        _ => None,
    }
}

/// The value of the first member named `key`.
pub open spec fn first_member(m: Seq<(String, Json)>, key: Seq<char>) -> Option<Json>
    decreases m.len(),
{
    if m.len() == 0 {
        None
    } else if m[0].0@ == key {
        Some(m[0].1)
    } else {
        first_member(m.drop_first(), key)
    }
}

/// The value of the member named `key`, where there is one (`Value::get`).
pub fn get<'a>(j: &'a Json, key: &str) -> (r: Option<&'a Json>)
    ensures
        match r {
            Some(v) => member(*j, key@) == Some(*v),
            None => member(*j, key@) is None,
        },
{
    match j {
        Json::Object(m) => {
            let mut i: usize = 0;
            assert(m@.skip(0) =~= m@);
            while i < m.len()
                invariant
                    i <= m@.len(),
                    member(*j, key@) == first_member(m@.skip(i as int), key@),
                decreases m@.len() - i,
            {
                let ghost rest = m@.skip(i as int);
                assert(rest[0] == m@[i as int]);
                assert(rest.drop_first() =~= m@.skip(i + 1));
                if text_is(&m[i].0, key) {
                    return Some(&m[i].1);
                }
                i = i + 1;
            }
            None
        },
        _ => None,
    }
}

/// Why a GraphQL answer gave no data.
#[derive(Debug)]
pub enum Refusal<'a> {
    /// GitHub listed errors.
    Errors(&'a Json),
    /// The answer had no `data`.
    NoData,
}

/// The data of a GraphQL answer that must be whole: any `errors` member
/// refuses it, and so does a missing `data`.
pub fn graphql_data<'a>(answer: &'a Json) -> (r: Result<&'a Json, Refusal<'a>>)
    ensures
        match r {
            Ok(d) => member(*answer, "errors"@) is None && member(*answer, "data"@) == Some(*d),
            Err(Refusal::Errors(e)) => member(*answer, "errors"@) == Some(*e),
            Err(Refusal::NoData) => member(*answer, "errors"@) is None && member(
                *answer,
                "data"@,
            ) is None,
        },
{
    match get(answer, "errors") {
        Some(e) => Err(Refusal::Errors(e)),
        None => match get(answer, "data") {
            Some(d) => Ok(d),
            None => Err(Refusal::NoData),
        },
    }
}

/// The data of a GraphQL answer that may be partial: whatever came back
/// under `data`, unless that is missing or null; then the `errors`, if any.
pub fn graphql_partial_data<'a>(answer: &'a Json) -> (r: Result<&'a Json, Refusal<'a>>)
    ensures
        match r {
            Ok(d) => member(*answer, "data"@) == Some(*d) && !(*d is Null),
            Err(Refusal::Errors(e)) => (member(*answer, "data"@) is None || member(
                *answer,
                "data"@,
            ).unwrap() is Null) && member(*answer, "errors"@) == Some(*e),
            Err(Refusal::NoData) => (member(*answer, "data"@) is None || member(
                *answer,
                "data"@,
            ).unwrap() is Null) && member(*answer, "errors"@) is None,
        },
{
    match get(answer, "data") {
        Some(d) => match d {
            Json::Null => {},
            _ => {
                return Ok(d);
            },
        },
        None => {},
    }
    match get(answer, "errors") {
        Some(e) => Err(Refusal::Errors(e)),
        None => Err(Refusal::NoData),
    }
}

// ---------------------------------------------------------------------------
// Where to ask
// ---------------------------------------------------------------------------

/// The REST search that tells whether GitHub keeps `login` out of search.
pub open spec fn search_url_text(login: Seq<char>) -> Seq<char> {
    HOST@ + "/search/issues?q=author:"@ + login + "&per_page=1"@
}

/// The REST lookup of the user `login`.
pub open spec fn user_url_text(login: Seq<char>) -> Seq<char> {
    HOST@ + "/users/"@ + login
}

/// Page `page` of `login`'s public events, a hundred to a page.
pub open spec fn events_url_text(login: Seq<char>, page: u64) -> Seq<char> {
    HOST@ + "/users/"@ + login + "/events/public?per_page=100&page="@ + decimal(page as nat)
}

/// The REST search that tells whether GitHub keeps `login` out of search.
pub fn search_url(login: &str) -> (r: String)
    ensures
        r@ == search_url_text(login@),
{
    let mut s = owned(HOST);
    push_str(&mut s, "/search/issues?q=author:");
    push_str(&mut s, login);
    push_str(&mut s, "&per_page=1");
    s
}

/// The REST lookup of the user `login`.
pub fn user_url(login: &str) -> (r: String)
    ensures
        r@ == user_url_text(login@),
{
    let mut s = owned(HOST);
    push_str(&mut s, "/users/");
    push_str(&mut s, login);
    s
}

/// Page `page` of `login`'s public events.
pub fn events_url(login: &str, page: u64) -> (r: String)
    ensures
        r@ == events_url_text(login@, page),
{
    let mut s = owned(HOST);
    push_str(&mut s, "/users/");
    push_str(&mut s, login);
    push_str(&mut s, "/events/public?per_page=100&page=");
    push_decimal(&mut s, page);
    s
}

/// The search for what involves `login`, newest first.
pub open spec fn involves_query(login: Seq<char>) -> Seq<char> {
    "involves:"@ + login + " sort:updated-desc"@
}

/// The search for what mentions `login`, newest first.
pub open spec fn mentions_query(login: Seq<char>) -> Seq<char> {
    "mentions:"@ + login + " sort:updated-desc"@
}

/// The search for what involves `login`, newest first.
pub fn involves(login: &str) -> (r: String)
    ensures
        r@ == involves_query(login@),
{
    let mut s = owned("involves:");
    push_str(&mut s, login);
    push_str(&mut s, " sort:updated-desc");
    s
}

/// The search for what mentions `login`, newest first.
pub fn mentions(login: &str) -> (r: String)
    ensures
        r@ == mentions_query(login@),
{
    let mut s = owned("mentions:");
    push_str(&mut s, login);
    push_str(&mut s, " sort:updated-desc");
    s
}

/// The next step of looking someone up.
#[derive(Debug, Clone, Copy, PartialEq, Eq, Structural)]
pub enum Lookup {
    /// What was found is the answer.
    Done,
    /// Ask the REST search whether the person is kept out of search.
    CheckSearch,
    /// Ask whether the user exists at all.
    CheckUser,
    /// There is no such user.
    NoSuchUser,
    /// Read the person's public activity instead.
    ReadFeed,
}

/// After the GraphQL searches: done if they found anything.
pub fn after_searches(found_any: bool) -> (r: Lookup)
    ensures
        r == (if found_any {
            Lookup::Done
        } else {
            Lookup::CheckSearch
        }),
{
    if found_any {
        Lookup::Done
    } else {
        Lookup::CheckSearch
    }
}

/// After the REST search: GitHub answers 422 for an account it keeps out of
/// search, which is then looked up; any other answer means there is nothing.
pub fn after_search_status(status: u16) -> (r: Lookup)
    ensures
        r == (if status == 422 {
            Lookup::CheckUser
        } else {
            Lookup::Done
        }),
{
    if status == 422 {
        Lookup::CheckUser
    } else {
        Lookup::Done
    }
}

/// After the user lookup: 404 means no such user, else read the feed.
pub fn after_user_status(status: u16) -> (r: Lookup)
    ensures
        r == (if status == 404 {
            Lookup::NoSuchUser
        } else {
            Lookup::ReadFeed
        }),
{
    if status == 404 {
        Lookup::NoSuchUser
    } else {
        Lookup::ReadFeed
    }
}

/// The events of one page of a public feed: a non-empty array answered with
/// 200. Anything else ends the feed.
pub fn feed_batch(status: u16, body: Json) -> (r: Option<Vec<Json>>)
    ensures
        match r {
            Some(v) => status == 200 && body == Json::Array(v) && v@.len() > 0,
            None => !(status == 200 && body is Array && body.array_of().unwrap().len() > 0),
        },
{
    if status != 200 {
        return None;
    }
    match body {
        Json::Array(v) => if v.len() > 0 {
            Some(v)
        } else {
            None
        },
        _ => None,
    }
}

// ---------------------------------------------------------------------------
// Notifications
// ---------------------------------------------------------------------------

/// What a notifications poll found.
#[derive(Debug, Clone)]
pub struct Poll {
    /// Whether anything changed since the time given.
    pub changed: bool,
    /// The time to give next.
    pub last_modified: Option<String>,
    /// How many seconds GitHub asks to wait between polls.
    pub interval: Option<u64>,
}

/// Whether `c` is an ASCII digit.
pub open spec fn is_digit(c: char) -> bool {
    '0' <= c <= '9'
}

/// The value of a string of decimal digits.
pub open spec fn digits_value(s: Seq<char>) -> nat
    decreases s.len(),
{
    if s.len() == 0 {
        0
    } else {
        digits_value(s.drop_last()) * 10 + ((s.last() as u32) - 48) as nat
    }
}

/// `s` without a leading `+`.
pub open spec fn unsigned_part(s: Seq<char>) -> Seq<char> {
    if s.len() > 0 && s[0] == '+' {
        s.drop_first()
    } else {
        s
    }
}

/// Whether every character of `t` is a digit.
pub open spec fn all_digits(t: Seq<char>) -> bool {
    forall|i: int| 0 <= i < t.len() ==> is_digit(#[trigger] t[i])
}

/// What `s.parse::<u64>()` gives: an optional `+`, then one or more
/// digits whose value fits in `u64`.
pub open spec fn u64_text(s: Seq<char>) -> Option<u64> {
    let t = unsigned_part(s);
    if t.len() > 0 && all_digits(t) && digits_value(t) <= u64::MAX {
        Some(digits_value(t) as u64)
    } else {
        None
    }
}

/// `s.parse::<u64>().ok()` (see `u64_text`).
pub fn parse_u64(s: &str) -> (r: Option<u64>)
    ensures
        r == u64_text(s@),
{
    let cs = chars_of(s);
    let start: usize = if cs.len() > 0 && cs[0] == '+' {
        1
    } else {
        0
    };
    let ghost t = unsigned_part(s@);
    assert(t =~= cs@.subrange(start as int, cs@.len() as int));
    if start >= cs.len() {
        return None;
    }
    let mut v: u64 = 0;
    let mut i = start;
    while i < cs.len()
        invariant
            start <= i <= cs@.len(),
            cs@ == s@,
            start < cs@.len(),
            t == unsigned_part(s@),
            t == cs@.subrange(start as int, cs@.len() as int),
            forall|k: int| start <= k < i ==> is_digit(#[trigger] cs@[k]),
            v == digits_value(cs@.subrange(start as int, i as int)),
        decreases cs@.len() - i,
    {
        let c = cs[i];
        let ghost pre = cs@.subrange(start as int, i as int);
        let ghost next = cs@.subrange(start as int, i + 1);
        assert(next.drop_last() =~= pre);
        assert(next.last() == c);
        if !('0' <= c && c <= '9') {
            assert(t[i - start] == c);
            assert(!is_digit(t[i - start]));
            return None;
        }
        let d = (c as u32 - 48) as u64;
        if v > (u64::MAX - d) / 10 {
            assert(digits_value(next) == v * 10 + d);
            assert(v * 10 + d > u64::MAX);
            proof {
                lemma_digits_grow(cs@.subrange(start as int, cs@.len() as int), (i - start + 1) as int);
                assert(cs@.subrange(start as int, cs@.len() as int).take(i - start + 1) =~= next);
            }
            return None;
        }
        v = v * 10 + d;
        i = i + 1;
    }
    assert(cs@.subrange(start as int, i as int) =~= t);
    Some(v)
}

/// The value of digits never shrinks as more digits follow.
proof fn lemma_digits_grow(t: Seq<char>, k: int)
    requires
        0 <= k <= t.len(),
    ensures
        digits_value(t.take(k)) <= digits_value(t),
    decreases t.len() - k,
{
    if k < t.len() {
        lemma_digits_grow(t, k + 1);
        assert(t.take(k + 1).drop_last() =~= t.take(k));
    } else {
        assert(t.take(k) =~= t);
    }
}

/// What a poll found, from the answer's status and headers: a change
/// unless GitHub answered 304; the new `last-modified`, or else the time
/// that was given; and the poll interval where its header reads as a number.
pub fn poll_of(
    status: u16,
    last_modified_header: Option<String>,
    given: Option<String>,
    interval_header: Option<String>,
) -> (r: Poll)
    ensures
        r.changed == (status != 304),
        r.last_modified == (if last_modified_header is Some {
            last_modified_header
        } else {
            given
        }),
        r.interval == match interval_header {
            Some(h) => u64_text(h@),
            None => None,
        },
{
    let interval = match &interval_header {
        Some(h) => parse_u64(h.as_str()),
        None => None,
    };
    let last_modified = match last_modified_header {
        Some(h) => Some(h),
        None => given,
    };
    Poll { changed: status != 304, last_modified, interval }
}

/// The seconds between polls: what the setting reads as, where it is a
/// positive whole number once trimmed, else a minute.
pub open spec fn poll_interval_of(setting: Option<Seq<char>>) -> u64 {
    match setting {
        Some(s) => match u64_text(crate::text::trimmed(s)) {
            Some(n) => if n > 0 {
                n
            } else {
                60
            },
            None => 60,
        },
        None => 60,
    }
}

/// The seconds between polls, from the setting `GHDECK_POLL_SECS` where it
/// is given (see `poll_interval_of`).
pub fn poll_interval(setting: Option<&str>) -> (r: u64)
    ensures
        r == poll_interval_of(crate::report::opt_str(setting)),
{
    match setting {
        Some(s) => {
            let t = crate::text::string_of(&crate::text::trim(&chars_of(s)));
            match parse_u64(t.as_str()) {
                Some(n) => if n > 0 {
                    n
                } else {
                    60
                },
                None => 60,
            }
        },
        None => 60,
    }
}

} // verus!
