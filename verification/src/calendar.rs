//! The calendar week view: Google Calendar events placed on each of the
//! seven displayed days that they span.

use vstd::prelude::*;
use crate::time_model::{
    date_text, day_option, day_text, is_valid_day, nanosecond_earlier, oslo_day, oslo_day_at, parse_rfc3339_instant,
    parse_ymd_date, parsed_rfc3339_instant, parsed_ymd_date, FIRST_DAY,
};

verus! {

/// When a Google Calendar event starts or ends: a whole day (`date`,
/// `YYYY-MM-DD`) or a moment (`date_time`, RFC 3339).
#[derive(Clone, Debug)]
pub struct GoogleEventTime {
    pub date: Option<String>,
    pub date_time: Option<String>,
}

/// One event as the Google Calendar API lists it.
#[derive(Clone, Debug)]
pub struct GoogleCalendarItem {
    pub summary: Option<String>,
    pub start: GoogleEventTime,
    pub end: Option<GoogleEventTime>,
}

/// An event as the screen shows it.
#[derive(Clone, Debug)]
pub struct CalendarEvent {
    pub title: String,
    pub start: String,
    pub end: Option<String>,
}

/// One displayed day and the events shown on it.
#[derive(Clone, Debug)]
pub struct CalendarDay {
    pub date: String,
    pub events: Vec<CalendarEvent>,
}

pub struct EventTimeView {
    pub date: Option<Seq<char>>,
    pub date_time: Option<Seq<char>>,
}

pub struct ItemView {
    pub summary: Option<Seq<char>>,
    pub start: EventTimeView,
    pub end: Option<EventTimeView>,
}

pub struct EventView {
    pub title: Seq<char>,
    pub start: Seq<char>,
    pub end: Option<Seq<char>>,
}

pub struct DayView {
    pub date: Seq<char>,
    pub events: Seq<EventView>,
}

impl View for GoogleEventTime {
    type V = EventTimeView;

    open spec fn view(&self) -> EventTimeView {
        EventTimeView { date: self.date.deep_view(), date_time: self.date_time.deep_view() }
    }
}

impl View for GoogleCalendarItem {
    type V = ItemView;

    open spec fn view(&self) -> ItemView {
        ItemView {
            summary: self.summary.deep_view(),
            start: self.start@,
            end: match self.end {
                Some(e) => Some(e@),
                None => None,
            },
        }
    }
}

impl View for CalendarEvent {
    type V = EventView;

    open spec fn view(&self) -> EventView {
        EventView { title: self.title@, start: self.start@, end: self.end.deep_view() }
    }
}

pub open spec fn events_view(events: Seq<CalendarEvent>) -> Seq<EventView> {
    events.map_values(|e: CalendarEvent| e@)
}

impl View for CalendarDay {
    type V = DayView;

    open spec fn view(&self) -> DayView {
        DayView { date: self.date@, events: events_view(self.events@) }
    }
}

pub open spec fn items_view(items: Seq<GoogleCalendarItem>) -> Seq<ItemView> {
    items.map_values(|i: GoogleCalendarItem| i@)
}

pub open spec fn span_option(span: Option<(i32, i32)>) -> Option<(int, int)> {
    match span {
        Some((a, b)) => Some((a as int, b as int)),
        None => None,
    }
}

/// The Oslo date of an RFC 3339 moment.
pub open spec fn moment_day(text: Option<Seq<char>>) -> Option<int> {
    match text {
        Some(s) => match parsed_rfc3339_instant(s) {
            Some(p) => Some(oslo_day_at(p.0, p.1)),
            None => None,
        },
        None => None,
    }
}

/// The Oslo date of the last nanosecond before an RFC 3339 moment.
pub open spec fn moment_day_just_before(text: Option<Seq<char>>) -> Option<int> {
    match text {
        Some(s) => match parsed_rfc3339_instant(s) {
            Some(p) => if p.1 > 0 {
                Some(oslo_day_at(p.0, p.1 - 1))
            } else {
                Some(oslo_day_at(p.0 - 1, 999_999_999))
            },
            None => None,
        },
        None => None,
    }
}

/// The date of an event time: its `date` when that parses as `YYYY-MM-DD`,
/// otherwise the Oslo date of its `date_time`.
pub open spec fn event_day(t: EventTimeView) -> Option<int> {
    match t.date {
        Some(d) => match parsed_ymd_date(d) {
            Some(x) => Some(x),
            None => moment_day(t.date_time),
        },
        None => moment_day(t.date_time),
    }
}

/// The day before a date, unless it is the first representable date.
pub open spec fn previous_day(day: int) -> Option<int> {
    if day > FIRST_DAY {
        Some(day - 1)
    } else {
        None
    }
}

/// The last day that an event's end still covers.  Google's end times are
/// exclusive: an all-day event ends on the day before its end date, and a
/// timed event on the date of the last nanosecond before its end moment.
pub open spec fn inclusive_end_day(item: ItemView, end: EventTimeView) -> Option<int> {
    if item.start.date is Some {
        match event_day(end) {
            Some(d) => previous_day(d),
            None => None,
        }
    } else {
        moment_day_just_before(end.date_time)
    }
}

/// The first and last day of an event: no span when its start has no date;
/// a single day without an end; otherwise from the start day to the
/// inclusive end day (the start day when that cannot be had), never before
/// the start.
pub open spec fn event_span(item: ItemView) -> Option<(int, int)> {
    match event_day(item.start) {
        None => None,
        Some(s) => match item.end {
            None => Some((s, s)),
            Some(end) => {
                let e = match inclusive_end_day(item, end) {
                    Some(x) => x,
                    None => s,
                };
                Some((s, if e >= s { e } else { s }))
            },
        },
    }
}

/// How an event is shown: its summary or "Untitled event", its start text
/// (the moment when there is one, else the date, else empty) and its end
/// text (the end moment, else the end date).
pub open spec fn event_view_of(item: ItemView) -> EventView {
    EventView {
        title: match item.summary {
            Some(t) => t,
            None => "Untitled event"@,
        },
        start: match item.start.date_time {
            Some(t) => t,
            None => match item.start.date {
                Some(d) => d,
                None => Seq::empty(),
            },
        },
        end: match item.end {
            Some(e) => match e.date_time {
                Some(t) => Some(t),
                None => e.date,
            },
            None => None,
        },
    }
}

/// Whether the event's span covers the day.
pub open spec fn covers(item: ItemView, day: int) -> bool {
    match event_span(item) {
        Some((a, b)) => a <= day <= b,
        None => false,
    }
}

/// The events shown on a day: those of the items whose span covers it, in
/// the order of the items.
pub open spec fn events_on_day(items: Seq<ItemView>, day: int) -> Seq<EventView>
    decreases items.len(),
{
    if items.len() == 0 {
        Seq::empty()
    } else {
        let earlier = events_on_day(items.drop_last(), day);
        if covers(items.last(), day) {
            earlier.push(event_view_of(items.last()))
        } else {
            earlier
        }
    }
}

fn option_text_copy(text: &Option<String>) -> (copy: Option<String>)
    ensures
        copy.deep_view() == text.deep_view(),
{
    match text {
        Some(t) => Some(t.clone()),
        None => None,
    }
}

impl CalendarEvent {
    /// A copy of the event with the same texts.
    pub fn duplicate(&self) -> (copy: CalendarEvent)
        ensures
            copy@ == self@,
    {
        CalendarEvent {
            title: self.title.clone(),
            start: self.start.clone(),
            end: option_text_copy(&self.end),
        }
    }
}

fn moment_date(text: &Option<String>) -> (day: Option<i32>)
    ensures
        day_option(day) == moment_day(text.deep_view()),
        day matches Some(d) ==> is_valid_day(d as int),
{
    match text {
        Some(t) => match parse_rfc3339_instant(t.as_str()) {
            Some(at) => oslo_day(at),
            None => None,
        },
        None => None,
    }
}

/// The date of an event time: its `date` when that parses as `YYYY-MM-DD`,
/// otherwise the Oslo date of its `date_time`, if either can be had.
pub fn event_date(value: &GoogleEventTime) -> (day: Option<i32>)
    ensures
        day_option(day) == event_day(value@),
        day matches Some(d) ==> is_valid_day(d as int),
{
    let from_date = match &value.date {
        Some(text) => parse_ymd_date(text.as_str()),
        None => None,
    };
    match from_date {
        Some(d) => Some(d),
        None => moment_date(&value.date_time),
    }
}

fn date_before(day: i32) -> (previous: Option<i32>)
    requires
        is_valid_day(day as int),
    ensures
        day_option(previous) == previous_day(day as int),
        previous matches Some(p) ==> is_valid_day(p as int),
{
    if day > FIRST_DAY {
        Some(day - 1)
    } else {
        None
    }
}

fn moment_date_just_before(text: &Option<String>) -> (day: Option<i32>)
    ensures
        day_option(day) == moment_day_just_before(text.deep_view()),
        day matches Some(d) ==> is_valid_day(d as int),
{
    match text {
        Some(t) => match parse_rfc3339_instant(t.as_str()) {
            Some(at) => match nanosecond_earlier(at) {
                Some(earlier) => oslo_day(earlier),
                None => None,
            },
            None => None,
        },
        None => None,
    }
}

/// The first and last day that an event covers, both inclusive (see
/// `event_span`).
pub fn event_date_span(item: &GoogleCalendarItem) -> (span: Option<(i32, i32)>)
    ensures
        span_option(span) == event_span(item@),
        span matches Some((a, b)) ==> is_valid_day(a as int) && is_valid_day(b as int) && a <= b,
{
    let start = match event_date(&item.start) {
        Some(d) => d,
        None => {
            return None;
        },
    };
    let end = match &item.end {
        Some(e) => e,
        None => {
            return Some((start, start));
        },
    };
    let inclusive_end = if item.start.date.is_some() {
        match event_date(end) {
            Some(d) => date_before(d),
            None => None,
        }
    } else {
        moment_date_just_before(&end.date_time)
    };
    let last = match inclusive_end {
        Some(d) => d,
        None => start,
    };
    Some((start, if last >= start { last } else { start }))
}

/// How the screen shows an event (see `event_view_of`).
pub fn calendar_event(item: &GoogleCalendarItem) -> (event: CalendarEvent)
    ensures
        event@ == event_view_of(item@),
{
    let start = match &item.start.date_time {
        Some(t) => t.clone(),
        None => match &item.start.date {
            Some(d) => d.clone(),
            None => String::new(),
        },
    };
    let end = match &item.end {
        Some(e) => match &e.date_time {
            Some(t) => Some(t.clone()),
            None => option_text_copy(&e.date),
        },
        None => None,
    };
    let title = match &item.summary {
        Some(t) => t.clone(),
        None => String::from_str("Untitled event"),
    };
    CalendarEvent { title, start, end }
}

/// The seven displayed days from `display_start` on, each with the events
/// whose span covers it, in the order of `items`.  Each day carries chrono's
/// text of its date.
pub fn build_calendar_days(items: Vec<GoogleCalendarItem>, display_start: i32) -> (days: Vec<
    CalendarDay,
>)
    requires
        is_valid_day(display_start as int),
        is_valid_day(display_start + 6),
    ensures
        days@.len() == 7,
        forall|k: int|
            0 <= k < 7 ==> #[trigger] days@[k]@ == (DayView {
                date: day_text(display_start + k),
                events: events_on_day(items_view(items@), display_start + k),
            }),
        forall|k: int|
            0 <= k < 7 ==> (#[trigger] days@[k])@.events == event_views(
                items_view(items@).filter(covering(display_start + k)),
            ),
        forall|k: int, i: int|
            #![trigger days@[k], items@[i]]
            0 <= k < 7 && 0 <= i < items@.len() && (event_span(items@[i]@) matches Some(
                (first, last),
            ) && first <= display_start + k <= last) ==> days@[k]@.events.contains(
                event_view_of(items@[i]@),
            ),
        forall|k: int, e: EventView|
            0 <= k < 7 && #[trigger] days@[k]@.events.contains(e) ==> exists|i: int|
                0 <= i < items@.len() && (event_span(items@[i]@) matches Some((first, last))
                    && first <= display_start + k <= last) && event_view_of(#[trigger] items@[i]@)
                    == e,
{
    let display_end: i32 = display_start + 6;
    let mut buckets: Vec<Vec<CalendarEvent>> = Vec::new();
    while buckets.len() < 7
        invariant
            buckets@.len() <= 7,
            forall|j: int| 0 <= j < buckets@.len() ==> #[trigger] buckets@[j]@ =~= Seq::<CalendarEvent>::empty(),
        decreases 7 - buckets@.len(),
    {
        buckets.push(Vec::new());
    }
    proof {
        assert(items_view(items@.take(0)) =~= Seq::<ItemView>::empty());
        assert forall|j: int| 0 <= j < 7 implies events_view(#[trigger] buckets@[j]@) =~= events_on_day(
            items_view(items@.take(0)),
            display_start + j,
        ) by {}
    }
    let mut i: usize = 0;
    while i < items.len()
        invariant
            i <= items@.len(),
            display_end == display_start + 6,
            is_valid_day(display_start as int),
            is_valid_day(display_end as int),
            buckets@.len() == 7,
            forall|j: int|
                0 <= j < 7 ==> events_view(#[trigger] buckets@[j]@) == events_on_day(
                    items_view(items@.take(i as int)),
                    display_start + j,
                ),
        decreases items@.len() - i,
    {
        let ghost before = buckets@;
        let ghost seen = items_view(items@.take(i as int));
        let ghost now_seen = items_view(items@.take(i + 1));
        proof {
            assert(now_seen.drop_last() =~= seen);
            assert(now_seen.last() == items@[i as int]@);
        }
        let item = &items[i];
        match event_date_span(item) {
            None => {
                assert forall|j: int| 0 <= j < 7 implies events_view(#[trigger] buckets@[j]@)
                    == events_on_day(now_seen, display_start + j) by {
                    assert(!covers(now_seen.last(), display_start + j));
                }
            },
            Some((event_start, event_end)) => {
                let event = calendar_event(item);
                let first = if event_start > display_start {
                    event_start
                } else {
                    display_start
                };
                let last = if event_end < display_end {
                    event_end
                } else {
                    display_end
                };
                if first <= last {
                    let stop: usize = (last - display_start) as usize;
                    let mut offset: usize = (first - display_start) as usize;
                    while offset <= stop
                        invariant
                            first - display_start <= offset <= stop + 1,
                            stop == last - display_start,
                            0 <= first - display_start,
                            stop < 7,
                            buckets@.len() == 7,
                            event@ == event_view_of(now_seen.last()),
                            forall|j: int|
                                0 <= j < 7 ==> events_view(#[trigger] buckets@[j]@) == if first
                                    - display_start <= j < offset {
                                    events_view(before[j]@).push(event@)
                                } else {
                                    events_view(before[j]@)
                                },
                        decreases stop + 1 - offset,
                    {
                        let copy = event.duplicate();
                        buckets[offset].push(copy);
                        offset += 1;
                    }
                }
                assert forall|j: int| 0 <= j < 7 implies events_view(#[trigger] buckets@[j]@)
                    == events_on_day(now_seen, display_start + j) by {
                    if first <= display_start + j <= last {
                        assert(covers(now_seen.last(), display_start + j));
                    } else {
                        assert(!covers(now_seen.last(), display_start + j));
                    }
                }
            },
        }
        i += 1;
    }
    proof {
        assert(items@.take(items@.len() as int) =~= items@);
    }
    let mut days: Vec<CalendarDay> = Vec::new();
    let mut k: usize = 0;
    while k < 7
        invariant
            k <= 7,
            days@.len() == k,
            buckets@.len() == 7,
            is_valid_day(display_start as int),
            is_valid_day(display_start + 6),
            forall|j: int|
                k <= j < 7 ==> events_view(#[trigger] buckets@[j]@) == events_on_day(
                    items_view(items@),
                    display_start + j,
                ),
            forall|j: int|
                0 <= j < k ==> #[trigger] days@[j]@ == (DayView {
                    date: day_text(display_start + j),
                    events: events_on_day(items_view(items@), display_start + j),
                }),
        decreases 7 - k,
    {
        let date = date_text(display_start + k as i32);
        let mut events: Vec<CalendarEvent> = Vec::new();
        std::mem::swap(&mut events, &mut buckets[k]);
        days.push(CalendarDay { date, events });
        k += 1;
    }
    proof {
        let all = items_view(items@);
        assert forall|k: int| 0 <= k < 7 implies (#[trigger] days@[k])@.events == event_views(
            all.filter(covering(display_start + k)),
        ) by {
            days_show_exactly_the_covering_events(all, display_start + k);
        }
        assert forall|k: int, i: int|
            #![trigger days@[k], items@[i]]
            0 <= k < 7 && 0 <= i < items@.len() && (event_span(items@[i]@) matches Some(
                (first, last),
            ) && first <= display_start + k <= last) implies days@[k]@.events.contains(
            event_view_of(items@[i]@),
        ) by {
            assert(all[i] == items@[i]@);
            events_are_shown_on_every_day_they_span(all, i, display_start + k);
        }
        assert forall|k: int, e: EventView|
            0 <= k < 7 && #[trigger] days@[k]@.events.contains(e) implies exists|i: int|
                0 <= i < items@.len() && (event_span(items@[i]@) matches Some((first, last))
                    && first <= display_start + k <= last) && event_view_of(#[trigger] items@[i]@)
                    == e by {
            let shown = events_on_day(all, display_start + k);
            let m = choose|m: int| 0 <= m < shown.len() && shown[m] == e;
            events_are_shown_only_on_days_they_span(all, display_start + k, m);
            let i = choose|i: int|
                0 <= i < all.len() && (event_span(all[i]) matches Some((first, last)) && first
                    <= display_start + k <= last) && event_view_of(all[i]) == #[trigger] events_on_day(
                    all,
                    display_start + k,
                )[m];
            assert(all[i] == items@[i]@);
        }
    }
    days
}

/// The items whose span covers the day.
pub open spec fn covering(day: int) -> spec_fn(ItemView) -> bool {
    |item: ItemView|
        match event_span(item) {
            Some((first, last)) => first <= day <= last,
            None => false,
        }
}

pub open spec fn event_views(items: Seq<ItemView>) -> Seq<EventView> {
    items.map_values(|item: ItemView| event_view_of(item))
}

/// Each day shows exactly the events of the items whose span covers it,
/// in the order of the items.
pub proof fn days_show_exactly_the_covering_events(items: Seq<ItemView>, day: int)
    ensures
        events_on_day(items, day) == event_views(items.filter(covering(day))),
    decreases items.len(),
{
    reveal(Seq::filter);
    if items.len() > 0 {
        days_show_exactly_the_covering_events(items.drop_last(), day);
        let earlier = items.drop_last().filter(covering(day));
        if covers(items.last(), day) {
            assert(event_views(earlier.push(items.last())) =~= event_views(earlier).push(
                event_view_of(items.last()),
            ));
        }
    } else {
        assert(event_views(items.filter(covering(day))) =~= Seq::<EventView>::empty());
    }
}

/// An event is shown on every displayed day from its first to its last day.
pub proof fn events_are_shown_on_every_day_they_span(items: Seq<ItemView>, i: int, day: int)
    requires
        0 <= i < items.len(),
        event_span(items[i]) matches Some((first, last)) && first <= day <= last,
    ensures
        events_on_day(items, day).contains(event_view_of(items[i])),
    decreases items.len(),
{
    if i == items.len() - 1 {
        assert(events_on_day(items, day).last() == event_view_of(items[i]));
    } else {
        events_are_shown_on_every_day_they_span(items.drop_last(), i, day);
        let earlier = events_on_day(items.drop_last(), day);
        let k = choose|k: int| 0 <= k < earlier.len() && earlier[k] == event_view_of(items[i]);
        if covers(items.last(), day) {
            assert(events_on_day(items, day)[k] == earlier[k]);
        }
    }
}

/// No event is shown on a day that its span does not cover: every event of
/// a day comes from an item whose span runs over the day.
pub proof fn events_are_shown_only_on_days_they_span(items: Seq<ItemView>, day: int, k: int)
    requires
        0 <= k < events_on_day(items, day).len(),
    ensures
        exists|i: int|
            0 <= i < items.len() && (event_span(items[i]) matches Some((first, last)) && first
                <= day <= last) && event_view_of(items[i]) == #[trigger] events_on_day(items, day)[k],
    decreases items.len(),
{
    let earlier = events_on_day(items.drop_last(), day);
    if k < earlier.len() {
        events_are_shown_only_on_days_they_span(items.drop_last(), day, k);
        let i = choose|i: int|
            0 <= i < items.drop_last().len() && (event_span(items.drop_last()[i]) matches Some(
                (first, last),
            ) && first <= day <= last) && event_view_of(items.drop_last()[i])
                == #[trigger] events_on_day(items.drop_last(), day)[k];
        assert(items[i] == items.drop_last()[i]);
        assert(events_on_day(items, day)[k] == earlier[k]);
    } else {
        assert(covers(items.last(), day));
        assert(items[items.len() - 1] == items.last());
    }
}

/// Google's all-day end dates are exclusive: an all-day event whose end date
/// lies after its start date ends on the day before its end date; one whose
/// end date does not lie after its start occupies its start day only.
pub proof fn all_day_events_end_the_day_before_their_end_date(
    item: ItemView,
    start_text: Seq<char>,
    end: EventTimeView,
    end_text: Seq<char>,
    first: int,
    end_date: int,
)
    requires
        item.start.date == Some(start_text),
        parsed_ymd_date(start_text) == Some(first),
        is_valid_day(first),
        item.end == Some(end),
        end.date == Some(end_text),
        parsed_ymd_date(end_text) == Some(end_date),
    ensures
        end_date > first ==> event_span(item) == Some((first, end_date - 1)),
        end_date <= first ==> event_span(item) == Some((first, first)),
{
}

/// A timed event whose end can be read lasts until the Oslo date of the
/// last nanosecond before its end (so an end at midnight is exclusive), and
/// never ends before it starts.
pub proof fn timed_events_end_on_the_date_just_before_their_end(
    item: ItemView,
    first: int,
    end: EventTimeView,
    end_text: Seq<char>,
    end_seconds: int,
    end_nanos: int,
)
    requires
        item.start.date is None,
        moment_day(item.start.date_time) == Some(first),
        item.end == Some(end),
        end.date_time == Some(end_text),
        parsed_rfc3339_instant(end_text) == Some((end_seconds, end_nanos)),
    ensures
        ({
            let last = if end_nanos > 0 {
                oslo_day_at(end_seconds, end_nanos - 1)
            } else {
                oslo_day_at(end_seconds - 1, 999_999_999)
            };
            event_span(item) == Some((first, if last >= first { last } else { first }))
        }),
{
}

/// An event without an end occupies its start day only; an event whose
/// start has no readable date is not shown at all.
pub proof fn events_without_end_or_start(item: ItemView)
    ensures
        item.end is None && event_day(item.start) is Some ==> event_span(item) == Some(
            (event_day(item.start).unwrap(), event_day(item.start).unwrap()),
        ),
        event_day(item.start) is None ==> event_span(item) is None && forall|day: int|
            !covers(item, day),
{
}

} // verus!
