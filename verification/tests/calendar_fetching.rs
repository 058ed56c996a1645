use chrono::{Datelike, NaiveDate};
use info_screen::calendar_service::{
    authorization_required, calendar_events_url, calendar_request, calendar_request_for, calendar_step, fetched_at_text,
    fetched_calendar, week_query, CalendarAggregation, CalendarCache, CalendarStep, CALENDAR_CACHE_TTL,
    WEATHER_CACHE_TTL,
};
use info_screen::clock::{is_cache_fresh, is_cache_fresh_at, now_unix_seconds};
use info_screen::oauth::OAuthToken;
use info_screen::time_model::LAST_DAY;

fn cache(at: u64) -> Option<CalendarCache> {
    Some(CalendarCache { cached_at_unix: at, payload: fetched_calendar(vec![], "then".into()) })
}

fn token(expires_at_unix: u64, refresh: Option<&str>) -> Option<OAuthToken> {
    Some(OAuthToken {
        access_token: "access".into(),
        refresh_token: refresh.map(String::from),
        token_type: "Bearer".into(),
        expires_at_unix,
    })
}

#[test]
fn caches_stay_fresh_for_fifteen_minutes() {
    assert_eq!((WEATHER_CACHE_TTL, CALENDAR_CACHE_TTL), (900, 900));
    assert!(is_cache_fresh_at(1000, 900, 1899));
    assert!(!is_cache_fresh_at(1000, 900, 1900));
    assert!(is_cache_fresh_at(1000, 900, 10));
    assert!(!is_cache_fresh_at(1000, 0, 1000));
    assert!(!is_cache_fresh(0, 900));
    assert!(is_cache_fresh(u64::MAX, 900));
    let c = cache(1000).unwrap();
    assert!(c.is_fresh_at(900, 1500));
    assert!(!c.is_fresh(0));
    assert!(now_unix_seconds() > 1_700_000_000);
}

#[test]
fn calendar_steps() {
    assert!(matches!(calendar_step(&cache(1000), &None, 1500), CalendarStep::UseCached));
    assert!(matches!(calendar_step(&cache(1000), &None, 1900), CalendarStep::AuthorizationRequired));
    assert!(matches!(calendar_step(&None, &None, 0), CalendarStep::AuthorizationRequired));
    match calendar_step(&cache(0), &token(2000, Some("r")), 2000) {
        CalendarStep::Refresh(r) => assert_eq!(r, "r"),
        _ => panic!("expected a refresh"),
    }
    match calendar_step(&None, &token(2000, None), 3000) {
        CalendarStep::Refresh(r) => assert_eq!(r, ""),
        _ => panic!("expected a refresh"),
    }
    match calendar_step(&None, &token(2000, Some("r")), 1999) {
        CalendarStep::Fetch(a) => assert_eq!(a, "access"),
        _ => panic!("expected a fetch"),
    }
}

#[test]
fn calendar_answers() {
    let a: CalendarAggregation = authorization_required("now".into());
    assert!(a.auth_required);
    assert_eq!(a.message.as_deref(), Some("Google Calendar authorization required."));
    assert!(a.days.is_empty());
    assert_eq!(a.fetched_at, "now");
    let f = fetched_calendar(vec![], "t".into());
    assert!(!f.auth_required && f.message.is_none());
    assert_eq!(fetched_at_text(0).as_deref(), Some("1970-01-01T00:00:00+00:00"));
    assert_eq!(fetched_at_text(1_790_000_000).as_deref(), Some("2026-09-21T14:13:20+00:00"));
    assert_eq!(fetched_at_text(u64::MAX), None);
    assert_eq!(fetched_at_text(i64::MAX as u64), None);
}

#[test]
fn the_week_query_runs_from_oslo_midnight_to_oslo_midnight() {
    let start = NaiveDate::from_ymd_opt(2026, 9, 23).unwrap().num_days_from_ce();
    let query = week_query(start).unwrap();
    let pairs: Vec<(&str, &str)> = query.iter().map(|(a, b)| (a.as_str(), b.as_str())).collect();
    assert_eq!(
        pairs,
        vec![
            ("timeMin", "2026-09-22T22:00:00+00:00"),
            ("timeMax", "2026-09-29T22:00:00+00:00"),
            ("singleEvents", "true"),
            ("orderBy", "startTime"),
            ("maxResults", "100"),
            ("showDeleted", "false"),
        ]
    );
    let winter = NaiveDate::from_ymd_opt(2026, 10, 24).unwrap().num_days_from_ce();
    let q = week_query(winter).unwrap();
    assert_eq!(q[0].1, "2026-10-23T22:00:00+00:00");
    assert_eq!(q[1].1, "2026-10-30T23:00:00+00:00");
    assert_eq!(
        calendar_events_url("me@example.com"),
        "https://www.googleapis.com/calendar/v3/calendars/me@example.com/events"
    );
    // 2026-09-22T22:30:00Z is already 2026-09-23 in Oslo
    let request = calendar_request("id", 1_790_116_200).unwrap();
    assert_eq!(request.display_start, start);
    assert_eq!(request.url, "https://www.googleapis.com/calendar/v3/calendars/id/events");
    assert_eq!(request.query[0].1, "2026-09-22T22:00:00+00:00");
    assert!(calendar_request("id", u64::MAX).is_none());
    assert!(calendar_request("id", 0).is_some());
}

#[test]
fn week_requests_need_a_representable_week() {
    let start = NaiveDate::from_ymd_opt(2026, 9, 23).unwrap().num_days_from_ce();
    let request = calendar_request_for("cal", start).unwrap();
    assert_eq!(request.display_start, start);
    assert_eq!(request.url, "https://www.googleapis.com/calendar/v3/calendars/cal/events");
    assert_eq!(request.query[0].1, "2026-09-22T22:00:00+00:00");
    assert!(calendar_request_for("cal", LAST_DAY - 6).is_none());
    assert!(calendar_request_for("cal", LAST_DAY - 7).is_some());
}
