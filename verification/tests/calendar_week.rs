use chrono::{Datelike, NaiveDate};
use info_screen::calendar::{
    build_calendar_days, calendar_event, event_date, event_date_span, CalendarDay, GoogleCalendarItem,
    GoogleEventTime,
};
use info_screen::time_model::{FIRST_DAY, LAST_DAY};

fn day(year: i32, month: u32, d: u32) -> i32 {
    NaiveDate::from_ymd_opt(year, month, d).unwrap().num_days_from_ce()
}

fn event(title: &str, start: GoogleEventTime, end: GoogleEventTime) -> GoogleCalendarItem {
    GoogleCalendarItem { summary: Some(title.to_string()), start, end: Some(end) }
}

fn all_day(date: &str) -> GoogleEventTime {
    GoogleEventTime { date: Some(date.to_string()), date_time: None }
}

fn timed(date_time: &str) -> GoogleEventTime {
    GoogleEventTime { date: None, date_time: Some(date_time.to_string()) }
}

fn titles(days: &[CalendarDay]) -> Vec<Vec<&str>> {
    days.iter().map(|day| day.events.iter().map(|event| event.title.as_str()).collect::<Vec<_>>()).collect()
}

#[test]
fn displays_events_on_every_day_they_span() {
    let display_start = day(2026, 9, 23);
    let days = build_calendar_days(
        vec![
            event("Holiday", all_day("2026-09-22"), all_day("2026-09-26")),
            event("Overnight", timed("2026-09-23T23:00:00+02:00"), timed("2026-09-24T01:00:00+02:00")),
        ],
        display_start,
    );

    assert_eq!(
        titles(&days),
        vec![
            vec!["Holiday", "Overnight"],
            vec!["Holiday", "Overnight"],
            vec!["Holiday"],
            vec![],
            vec![],
            vec![],
            vec![],
        ]
    );
}

#[test]
fn treats_google_end_dates_and_midnight_as_exclusive() {
    let display_start = day(2026, 9, 23);
    let days = build_calendar_days(
        vec![
            event("All day", all_day("2026-09-23"), all_day("2026-09-24")),
            event("Until midnight", timed("2026-09-23T20:00:00+02:00"), timed("2026-09-24T00:00:00+02:00")),
        ],
        display_start,
    );

    assert_eq!(days[0].events.len(), 2);
    assert!(days[1].events.is_empty());
}

#[test]
fn the_week_has_seven_consecutive_dated_days() {
    let days = build_calendar_days(vec![], day(2026, 12, 29));
    let dates: Vec<&str> = days.iter().map(|d| d.date.as_str()).collect();
    assert_eq!(
        dates,
        vec!["2026-12-29", "2026-12-30", "2026-12-31", "2027-01-01", "2027-01-02", "2027-01-03", "2027-01-04"]
    );
    assert!(days.iter().all(|d| d.events.is_empty()));
}

#[test]
fn events_keep_their_order_and_are_clipped_to_the_week() {
    let display_start = day(2026, 9, 23);
    let days = build_calendar_days(
        vec![
            event("Long", all_day("2026-09-01"), all_day("2026-10-30")),
            event("Before", all_day("2026-09-01"), all_day("2026-09-23")),
            event("After", all_day("2026-09-30"), all_day("2026-10-01")),
            event("Last day", all_day("2026-09-29"), all_day("2026-09-30")),
            GoogleCalendarItem { summary: Some("Broken".to_string()), start: all_day("soon"), end: None },
            GoogleCalendarItem { summary: None, start: all_day("2026-09-25"), end: None },
        ],
        display_start,
    );
    assert_eq!(
        titles(&days),
        vec![
            vec!["Long"],
            vec!["Long"],
            vec!["Long", "Untitled event"],
            vec!["Long"],
            vec!["Long"],
            vec!["Long"],
            vec!["Long", "Last day"],
        ]
    );
}

#[test]
fn a_midnight_end_one_nanosecond_later_reaches_the_next_day() {
    let item = event("Late", timed("2026-09-23T20:00:00+02:00"), timed("2026-09-24T00:00:00.000000001+02:00"));
    assert_eq!(event_date_span(&item), Some((day(2026, 9, 23), day(2026, 9, 24))));
    let exact = event("Exact", timed("2026-09-23T20:00:00+02:00"), timed("2026-09-24T00:00:00+02:00"));
    assert_eq!(event_date_span(&exact), Some((day(2026, 9, 23), day(2026, 9, 23))));
}

#[test]
fn spans_of_unusual_events() {
    // no end: the start day only
    let single = GoogleCalendarItem { summary: None, start: all_day("2026-09-23"), end: None };
    assert_eq!(event_date_span(&single), Some((day(2026, 9, 23), day(2026, 9, 23))));
    // end before start: the start day only
    let backwards = event("Backwards", all_day("2026-09-23"), all_day("2026-09-20"));
    assert_eq!(event_date_span(&backwards), Some((day(2026, 9, 23), day(2026, 9, 23))));
    // unreadable end: the start day only
    let unreadable = event("Unreadable", all_day("2026-09-23"), all_day("someday"));
    assert_eq!(event_date_span(&unreadable), Some((day(2026, 9, 23), day(2026, 9, 23))));
    // a timed start ignores an all-day end
    let mixed = event("Mixed", timed("2026-09-23T10:00:00Z"), all_day("2026-09-28"));
    assert_eq!(event_date_span(&mixed), Some((day(2026, 9, 23), day(2026, 9, 23))));
    // no readable start: no span
    let none = event("None", GoogleEventTime { date: None, date_time: None }, all_day("2026-09-28"));
    assert_eq!(event_date_span(&none), None);
}

#[test]
fn event_dates_fall_back_to_the_oslo_date_of_the_moment() {
    // 23:30 UTC is already the next day in Oslo
    let t = GoogleEventTime { date: Some("not a date".to_string()), date_time: Some("2026-01-10T23:30:00Z".to_string()) };
    assert_eq!(event_date(&t), Some(day(2026, 1, 11)));
    let d = GoogleEventTime { date: Some("2026-01-10".to_string()), date_time: Some("2027-05-05T12:00:00Z".to_string()) };
    assert_eq!(event_date(&d), Some(day(2026, 1, 10)));
    let bad = GoogleEventTime { date: None, date_time: Some("yesterday".to_string()) };
    assert_eq!(event_date(&bad), None);
}

#[test]
fn events_show_their_texts() {
    let timed_item = event("Meeting", timed("2026-09-23T10:00:00+02:00"), timed("2026-09-23T11:00:00+02:00"));
    let e = calendar_event(&timed_item);
    assert_eq!(e.title, "Meeting");
    assert_eq!(e.start, "2026-09-23T10:00:00+02:00");
    assert_eq!(e.end.as_deref(), Some("2026-09-23T11:00:00+02:00"));
    let untitled = GoogleCalendarItem { summary: None, start: all_day("2026-09-23"), end: Some(all_day("2026-09-24")) };
    let u = calendar_event(&untitled);
    assert_eq!(u.title, "Untitled event");
    assert_eq!(u.start, "2026-09-23");
    assert_eq!(u.end.as_deref(), Some("2026-09-24"));
    let open = GoogleCalendarItem { summary: Some("Open".to_string()), start: GoogleEventTime { date: None, date_time: None }, end: None };
    let o = calendar_event(&open);
    assert_eq!(o.start, "");
    assert_eq!(o.end, None);
}

#[test]
fn day_numbers_match_chrono_limits() {
    assert_eq!(NaiveDate::MIN.num_days_from_ce(), FIRST_DAY);
    assert_eq!(NaiveDate::MAX.num_days_from_ce(), LAST_DAY);
}
