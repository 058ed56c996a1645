//! How the calendar of the week is obtained: from the cache while it is
//! fresh, otherwise from the Google Calendar API with a valid access token.

use vstd::prelude::*;
use crate::calendar::CalendarDay;
use crate::clock::{fresh_at, is_cache_fresh, is_cache_fresh_at};
use crate::oauth::OAuthToken;
use crate::time_model::{
    is_valid_day, oslo_day, oslo_day_at, oslo_midnight, oslo_midnight_at, utc_rfc3339,
    utc_rfc3339_at, Instant, LAST_DAY, UNIX_EPOCH_DAY,
};

verus! {

/// How long fetched weather is reused, in seconds.
pub const WEATHER_CACHE_TTL: u64 = 15 * 60;

/// How long a fetched calendar is reused, in seconds.
pub const CALENDAR_CACHE_TTL: u64 = 15 * 60;

/// The calendar as the screen receives it.
#[derive(Clone, Debug)]
pub struct CalendarAggregation {
    pub auth_required: bool,
    pub message: Option<String>,
    pub days: Vec<CalendarDay>,
    pub fetched_at: String,
}

/// A calendar kept with the time it was fetched.
#[derive(Clone, Debug)]
pub struct CalendarCache {
    pub cached_at_unix: u64,
    pub payload: CalendarAggregation,
}

impl CalendarCache {
    /// Whether the cached calendar is fresh at time `now`: as for any cache
    /// entry of its time (`fresh_at`), whatever its payload.
    pub open spec fn fresh_at_time(self, ttl_seconds: u64, now: u64) -> bool {
        fresh_at(self.cached_at_unix, ttl_seconds, now)
    }

    /// Whether the cached calendar is still fresh at time `now`.
    pub fn is_fresh_at(&self, ttl_seconds: u64, now: u64) -> (fresh: bool)
        ensures
            fresh == self.fresh_at_time(ttl_seconds, now),
    {
        is_cache_fresh_at(self.cached_at_unix, ttl_seconds, now)
    }

    /// Whether the cached calendar is still fresh now: its freshness at the
    /// time the clock reads; with no time to live it never is.
    pub fn is_fresh(&self, ttl_seconds: u64) -> (fresh: bool)
        ensures
            exists|now: u64| fresh == #[trigger] self.fresh_at_time(ttl_seconds, now),
            ttl_seconds == 0 ==> !fresh,
            self.cached_at_unix == u64::MAX && ttl_seconds > 0 ==> fresh,
    {
        let fresh = is_cache_fresh(self.cached_at_unix, ttl_seconds);
        proof {
            let now = choose|now: u64| fresh == #[trigger] fresh_at(self.cached_at_unix, ttl_seconds, now);
            assert(fresh == self.fresh_at_time(ttl_seconds, now));
        }
        fresh
    }
}

/// A cached calendar is fresh exactly when a cache entry of its time is, at
/// the same clock reading (`is_cache_fresh_at`), whatever it holds.
pub proof fn calendar_cache_freshness_is_cache_freshness(
    cache: CalendarCache,
    ttl_seconds: u64,
    now: u64,
)
    ensures
        cache.fresh_at_time(ttl_seconds, now) == fresh_at(cache.cached_at_unix, ttl_seconds, now),
{
}

/// What to do to answer a request for the calendar.
#[derive(Clone, Debug)]
pub enum CalendarStep {
    /// Answer with the cached calendar.
    UseCached,
    /// No token is held: answer that authorization is required.
    AuthorizationRequired,
    /// The token has expired: refresh it with this refresh token, then fetch.
    Refresh(String),
    /// Fetch the calendar with this access token.
    Fetch(String),
}

/// The step for a request at time `now`, given the cache and the token held.
pub fn calendar_step(cache: &Option<CalendarCache>, token: &Option<OAuthToken>, now: u64) -> (step:
    CalendarStep)
    ensures
        match cache {
            Some(c) if fresh_at(c.cached_at_unix, CALENDAR_CACHE_TTL, now) => step is UseCached,
            _ => match token {
                None => step is AuthorizationRequired,
                Some(t) => if now >= t.expires_at_unix {
                    step matches CalendarStep::Refresh(r) && r@ == match t.refresh_token {
                        Some(x) => x@,
                        None => Seq::<char>::empty(),
                    }
                } else {
                    step matches CalendarStep::Fetch(a) && a@ == t.access_token@
                },
            },
        },
{
    if let Some(c) = cache {
        if c.is_fresh_at(CALENDAR_CACHE_TTL, now) {
            return CalendarStep::UseCached;
        }
    }
    match token {
        None => CalendarStep::AuthorizationRequired,
        Some(t) => if t.is_expired_at(now) {
            CalendarStep::Refresh(
                match &t.refresh_token {
                    Some(r) => r.clone(),
                    None => String::new(),
                },
            )
        } else {
            CalendarStep::Fetch(t.access_token.clone())
        },
    }
}

/// The RFC 3339 text of the UNIX time `now` in UTC; none when `now` is
/// beyond what chrono represents.
pub fn fetched_at_text(now: u64) -> (text: Option<String>)
    ensures
        now <= i64::MAX ==> text.deep_view() == utc_rfc3339_at(now as int, 0),
        now > i64::MAX ==> text is None,
{
    if now <= i64::MAX as u64 {
        match utc_rfc3339(Instant { unix_seconds: now as i64, nanos: 0 }) {
            Some(t) => Some(t),
            None => None,
        }
    } else {
        None
    }
}

/// The answer when no Google token is held.
pub fn authorization_required(fetched_at: String) -> (calendar: CalendarAggregation)
    ensures
        calendar.auth_required,
        calendar.message.deep_view() == Some("Google Calendar authorization required."@),
        calendar.days@.len() == 0,
        calendar.fetched_at@ == fetched_at@,
{
    CalendarAggregation {
        auth_required: true,
        message: Some(String::from_str("Google Calendar authorization required.")),
        days: Vec::new(),
        fetched_at,
    }
}

/// The answer with the fetched days.
pub fn fetched_calendar(days: Vec<CalendarDay>, fetched_at: String) -> (calendar: CalendarAggregation)
    ensures
        !calendar.auth_required,
        calendar.message is None,
        calendar.days@ == days@,
        calendar.fetched_at@ == fetched_at@,
{
    CalendarAggregation { auth_required: false, message: None, days, fetched_at }
}

/// A request for the events of the displayed week.
#[derive(Clone, Debug)]
pub struct CalendarRequest {
    pub url: String,
    pub query: Vec<(String, String)>,
    pub display_start: i32,
}

pub open spec fn query_view(query: Seq<(String, String)>) -> Seq<(Seq<char>, Seq<char>)> {
    query.map_values(|p: (String, String)| (p.0@, p.1@))
}

/// The RFC 3339 text of midnight at the start of a date in Oslo.
pub open spec fn oslo_midnight_text(day: int) -> Option<Seq<char>> {
    match oslo_midnight_at(day) {
        Some(p) => utc_rfc3339_at(p.0, p.1),
        None => None,
    }
}

fn midnight_text(day: i32) -> (text: Option<String>)
    requires
        is_valid_day(day as int),
    ensures
        match text {
            Some(t) => oslo_midnight_text(day as int) == Some(t@),
            None => oslo_midnight_text(day as int) is None,
        },
{
    match oslo_midnight(day) {
        Some(at) => utc_rfc3339(at),
        None => None,
    }
}

/// The address of a calendar's events in the Google Calendar API.
pub fn calendar_events_url(calendar_id: &str) -> (url: String)
    ensures
        url@ == "https://www.googleapis.com/calendar/v3/calendars/"@ + calendar_id@ + "/events"@,
{
    let mut url = String::from_str("https://www.googleapis.com/calendar/v3/calendars/");
    url.append(calendar_id);
    url.append("/events");
    url
}

fn text_pair(name: &str, value: String) -> (pair: (String, String))
    ensures
        pair.0@ == name@,
        pair.1@ == value@,
{
    (String::from_str(name), value)
}

/// The query for the week of seven days that starts on `display_start`:
/// single events ordered by start, at most 100, deleted ones left out, from
/// Oslo midnight at the start of `display_start` to Oslo midnight seven days
/// later.  None when either midnight does not exist exactly once.
pub fn week_query(display_start: i32) -> (query: Option<Vec<(String, String)>>)
    requires
        is_valid_day(display_start as int),
        is_valid_day(display_start + 7),
    ensures
        match query {
            Some(q) => oslo_midnight_text(display_start as int) is Some && oslo_midnight_text(
                display_start + 7,
            ) is Some && query_view(q@) == seq![
                ("timeMin"@, oslo_midnight_text(display_start as int).unwrap()),
                ("timeMax"@, oslo_midnight_text(display_start + 7).unwrap()),
                ("singleEvents"@, "true"@),
                ("orderBy"@, "startTime"@),
                ("maxResults"@, "100"@),
                ("showDeleted"@, "false"@),
            ],
            None => oslo_midnight_text(display_start as int) is None || oslo_midnight_text(
                display_start + 7,
            ) is None,
        },
{
    let start = match midnight_text(display_start) {
        Some(t) => t,
        None => {
            return None;
        },
    };
    let end = match midnight_text(display_start + 7) {
        Some(t) => t,
        None => {
            return None;
        },
    };
    let mut query: Vec<(String, String)> = Vec::new();
    query.push(text_pair("timeMin", start));
    query.push(text_pair("timeMax", end));
    query.push(text_pair("singleEvents", String::from_str("true")));
    query.push(text_pair("orderBy", String::from_str("startTime")));
    query.push(text_pair("maxResults", String::from_str("100")));
    query.push(text_pair("showDeleted", String::from_str("false")));
    proof {
        let expected = seq![
            ("timeMin"@, oslo_midnight_text(display_start as int).unwrap()),
            ("timeMax"@, oslo_midnight_text(display_start + 7).unwrap()),
            ("singleEvents"@, "true"@),
            ("orderBy"@, "startTime"@),
            ("maxResults"@, "100"@),
            ("showDeleted"@, "false"@),
        ];
        assert(query_view(query@) =~= expected);
    }
    Some(query)
}

/// The week's request as `CalendarRequest` holds it.
pub open spec fn is_week_request(r: CalendarRequest, calendar_id: Seq<char>, display_start: int) -> bool {
    &&& r.display_start == display_start
    &&& r.url@ == "https://www.googleapis.com/calendar/v3/calendars/"@ + calendar_id + "/events"@
    &&& oslo_midnight_text(display_start) is Some
    &&& oslo_midnight_text(display_start + 7) is Some
    &&& query_view(r.query@) == seq![
        ("timeMin"@, oslo_midnight_text(display_start).unwrap()),
        ("timeMax"@, oslo_midnight_text(display_start + 7).unwrap()),
        ("singleEvents"@, "true"@),
        ("orderBy"@, "startTime"@),
        ("maxResults"@, "100"@),
        ("showDeleted"@, "false"@),
    ]
}

/// The request for the events of the week of seven days that starts on
/// `display_start`.  None when the day seven days later is not
/// representable, or either Oslo midnight does not exist exactly once.
pub fn calendar_request_for(calendar_id: &str, display_start: i32) -> (request: Option<CalendarRequest>)
    requires
        is_valid_day(display_start as int),
    ensures
        request is Some <==> display_start + 7 <= LAST_DAY && oslo_midnight_text(
            display_start as int,
        ) is Some && oslo_midnight_text(display_start + 7) is Some,
        request matches Some(r) ==> is_week_request(r, calendar_id@, display_start as int),
{
    if display_start > LAST_DAY - 7 {
        return None;
    }
    match week_query(display_start) {
        Some(query) => Some(CalendarRequest { url: calendar_events_url(calendar_id), query, display_start }),
        None => None,
    }
}

/// The UTC date of the UNIX time `now` is at most the day before the last
/// representable date, so that its date in Oslo can be had.
pub open spec fn clock_day_in_range(now: u64) -> bool {
    now as int / 86400 + UNIX_EPOCH_DAY <= LAST_DAY - 1
}

/// Today in Oslo at the UNIX time `now`.
pub open spec fn oslo_today_at(now: u64) -> int {
    oslo_day_at(now as int, 0)
}

/// The request for the events of the week that starts today in Oslo at the
/// UNIX time `now`: that day and the six days after it (see
/// `calendar_request_for`).  None when `now` lies too close to the end of
/// the representable time, or that week cannot be requested.
pub fn calendar_request(calendar_id: &str, now: u64) -> (request: Option<CalendarRequest>)
    ensures
        request is Some <==> clock_day_in_range(now) && oslo_today_at(now) + 7 <= LAST_DAY
            && oslo_midnight_text(oslo_today_at(now)) is Some && oslo_midnight_text(
            oslo_today_at(now) + 7,
        ) is Some,
        request matches Some(r) ==> {
            &&& r.display_start == oslo_today_at(now)
            &&& is_valid_day(r.display_start as int)
            &&& is_valid_day(r.display_start + 7)
            &&& is_week_request(r, calendar_id@, r.display_start as int)
        },
{
    let last_day_in_range: u64 = (LAST_DAY as u64 - 1) - UNIX_EPOCH_DAY as u64;
    if now / 86400 > last_day_in_range {
        return None;
    }
    let at = Instant { unix_seconds: now as i64, nanos: 0 };
    assert(at.utc_day() == now as int / 86400 + UNIX_EPOCH_DAY);
    let today = match oslo_day(at) {
        Some(d) => d,
        None => {
            return None;
        },
    };
    calendar_request_for(calendar_id, today)
}

} // verus!
