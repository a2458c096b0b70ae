//! What the calendar of a week promises of what it draws.
use crate::automation::{AutomationRule, AutomationTrigger, SolarEvent, TimeBoundary};
use crate::calendar::{CalendarEntryView, CalendarSummaryView, Entry, Thresholds, WeekCalendarView};
use crate::schedule::TimedSlot;
use crate::spans::Span;
use crate::weather::{SolarForecastDay, WeatherStatus};
use vstd::prelude::*;

verus! {

/// Whether this is the sun of a day: the last forecast of the day, and none where there is no
/// forecast of it.
pub open spec fn sun_of_day(
    forecast: Seq<SolarForecastDay>,
    day: int,
    sun: Option<SolarForecastDay>,
) -> bool {
    match sun {
        Some(sun) => exists|f: int|
            0 <= f < forecast.len() && #[trigger] forecast[f] == sun && sun.day == day && forall|
                g: int,
            |
                f < g < forecast.len() ==> (#[trigger] forecast[g]).day != day,
        None => forall|g: int| 0 <= g < forecast.len() ==> (#[trigger] forecast[g]).day != day,
    }
}

proof fn lemma_sun(forecast: Seq<SolarForecastDay>, day: int)
    ensures
        sun_of_day(forecast, day, crate::schedule::solar_for(forecast, day)),
    decreases forecast.len(),
{
    let sun = crate::schedule::solar_for(forecast, day);
    if forecast.len() > 0 {
        let last = forecast.len() - 1;
        if forecast.last().day == day {
            assert(forecast[last] == sun->0);
        } else {
            let front = forecast.drop_last();
            lemma_sun(front, day);
            assert forall|g: int| 0 <= g < last implies #[trigger] front[g] == forecast[g] by {}
            match sun {
                Some(known) => {
                    let f = choose|f: int|
                        0 <= f < front.len() && #[trigger] front[f] == known && known.day == day
                            && forall|g: int|
                            f < g < front.len() ==> (#[trigger] front[g]).day != day;
                    assert(forecast[f] == known);
                    assert forall|g: int| f < g < forecast.len() implies (
                    #[trigger] forecast[g]).day != day by {
                        if g < last {
                            assert(front[g] == forecast[g]);
                        }
                    }
                },
                None => {
                    assert forall|g: int| 0 <= g < forecast.len() implies (
                    #[trigger] forecast[g]).day != day by {
                        if g < last {
                            assert(front[g] == forecast[g]);
                        }
                    }
                },
            }
        }
    }
}

/// A day has one sun at most.
proof fn lemma_one_sun(
    forecast: Seq<SolarForecastDay>,
    day: int,
    left: Option<SolarForecastDay>,
    right: Option<SolarForecastDay>,
)
    requires
        sun_of_day(forecast, day, left),
        sun_of_day(forecast, day, right),
    ensures
        left == right,
{
}

/// The first day of the week of a day, a Monday.
pub open spec fn week_begins(day: int) -> int {
    day - (day + 3) % 7
}

/// Whether an edge of a window falls on a minute of a day with this sun.
pub open spec fn edge_falls(
    edge: TimeBoundary,
    sun: Option<SolarForecastDay>,
    minute: int,
) -> bool {
    match edge {
        TimeBoundary::Fixed { minute_of_day } => minute == minute_of_day,
        TimeBoundary::Solar { event: SolarEvent::Sunrise, offset_minutes } => sun is Some && minute
            == (sun->0.sunrise_minute + offset_minutes) % 1_440,
        TimeBoundary::Solar { event: SolarEvent::Sunset, offset_minutes } => sun is Some && minute
            == (sun->0.sunset_minute + offset_minutes) % 1_440,
    }
}

/// Whether a rule is a light rule whose window on a day with this sun is from one minute to
/// another. A rule without a window has the whole day.
pub open spec fn window_is(
    rule: AutomationRule,
    sun: Option<SolarForecastDay>,
    start: int,
    end: int,
) -> bool {
    match rule.trigger {
        AutomationTrigger::LightLevel { active_window: None, .. } => start == 0 && end == 1_440,
        AutomationTrigger::LightLevel { active_window: Some(window), .. } => {
            &&& edge_falls(window.start, sun, start)
            &&& edge_falls(window.end, sun, end)
        },
        _ => false,
    }
}

/// Whether an entry is drawn over the middle of a minute of its day.
pub open spec fn drawn_over(entry: CalendarEntryView, minute: int) -> bool {
    entry.left * 2_880 <= (2 * minute + 1) * 10_000 < (entry.left + entry.width) * 2_880
}

/// Whether rules have identities of their own.
pub open spec fn identities_differ(rules: Seq<AutomationRule>) -> bool {
    forall|i: int, j: int|
        0 <= i < j < rules.len() ==> (#[trigger] rules[i]).id != (#[trigger] rules[j]).id
}

proof fn lemma_piece(start: int, end: int, minute: int, left: int, width: int)
    requires
        0 <= start < end,
        left == crate::calendar::percent(start),
        width == crate::calendar::percent(end - start),
    ensures
        left * 2_880 <= (2 * minute + 1) * 10_000 < (left + width) * 2_880 <==> start <= minute
            < end,
{
}

proof fn lemma_window_shown(
    rules: Seq<AutomationRule>,
    thresholds: Seq<Thresholds>,
    solar: Option<SolarForecastDay>,
    first_lane: int,
    count: int,
    rule: int,
    piece: int,
) -> (index: int)
    requires
        0 <= rule < count <= rules.len(),
        0 <= piece < crate::calendar::window_pieces(rules[rule], solar).len(),
    ensures
        ({
            let entries = crate::calendar::window_entries(
                rules,
                thresholds,
                solar,
                first_lane,
                count,
            );
            let (start, end) = crate::calendar::window_pieces(rules[rule], solar)[piece];
            &&& 0 <= index < entries.len()
            &&& entries[index].rule_id == rules[rule].id
            &&& entries[index].left == crate::calendar::percent(start)
            &&& entries[index].width == crate::calendar::percent(end - start)
        }),
    decreases count,
{
    let front = crate::calendar::window_entries(rules, thresholds, solar, first_lane, count - 1);
    if rule == count - 1 {
        front.len() + piece
    } else {
        lemma_window_shown(rules, thresholds, solar, first_lane, count - 1, rule, piece)
    }
}

proof fn lemma_window_of(
    rules: Seq<AutomationRule>,
    thresholds: Seq<Thresholds>,
    solar: Option<SolarForecastDay>,
    first_lane: int,
    count: int,
    index: int,
) -> (place: (int, int))
    requires
        0 <= count <= rules.len(),
        0 <= index < crate::calendar::window_entries(
            rules,
            thresholds,
            solar,
            first_lane,
            count,
        ).len(),
    ensures
        ({
            let entry = crate::calendar::window_entries(
                rules,
                thresholds,
                solar,
                first_lane,
                count,
            )[index];
            let (rule, piece) = place;
            let pieces = crate::calendar::window_pieces(rules[rule], solar);
            &&& 0 <= rule < count
            &&& 0 <= piece < pieces.len()
            &&& entry.rule_id == rules[rule].id
            &&& !entry.point
            &&& entry.left == crate::calendar::percent(pieces[piece].0)
            &&& entry.width == crate::calendar::percent(pieces[piece].1 - pieces[piece].0)
            &&& entry.label == "AUTO · ≤ "@ + thresholds[rule].on_below@ + " W/m²"@
        }),
    decreases count,
{
    let front = crate::calendar::window_entries(rules, thresholds, solar, first_lane, count - 1);
    if index < front.len() {
        lemma_window_of(rules, thresholds, solar, first_lane, count - 1, index)
    } else {
        (count - 1, index - front.len())
    }
}

proof fn lemma_point_of(
    rules: Seq<AutomationRule>,
    slots: Seq<TimedSlot>,
    day: int,
    solar: Option<SolarForecastDay>,
    count: int,
    index: int,
) -> (rule: int)
    requires
        0 <= count <= rules.len(),
        0 <= index < crate::calendar::point_entries(rules, slots, day, solar, count).len(),
    ensures
        0 <= rule < count,
        crate::schedule::timed_minute(rules[rule], day, solar) is Some,
        crate::calendar::point_entries(rules, slots, day, solar, count)[index]
            == crate::calendar::point_entry(
            rules,
            slots,
            rule,
            day,
            crate::schedule::timed_minute(rules[rule], day, solar)->0,
        ),
    decreases count,
{
    let front = crate::calendar::point_entries(rules, slots, day, solar, count - 1);
    if index < front.len() {
        lemma_point_of(rules, slots, day, solar, count - 1, index)
    } else {
        count - 1
    }
}

proof fn lemma_span_of(
    rules: Seq<AutomationRule>,
    spans: Seq<Span>,
    week_start: int,
    week_end: int,
    day: int,
    count: int,
    index: int,
) -> (span: int)
    requires
        0 <= count <= spans.len(),
        0 <= index < crate::calendar::span_entries(
            rules,
            spans,
            week_start,
            week_end,
            day,
            count,
        ).len(),
    ensures
        0 <= span < count,
        crate::calendar::span_entry(
            rules[spans[span].rule as int],
            spans[span],
            week_start,
            week_end,
            day,
        ) == Some(
            crate::calendar::span_entries(rules, spans, week_start, week_end, day, count)[index],
        ),
    decreases count,
{
    let front = crate::calendar::span_entries(
        rules,
        spans,
        week_start,
        week_end,
        day,
        count - 1,
    );
    if index < front.len() {
        lemma_span_of(rules, spans, week_start, week_end, day, count - 1, index)
    } else {
        count - 1
    }
}

proof fn lemma_span_shown(
    rules: Seq<AutomationRule>,
    spans: Seq<Span>,
    week_start: int,
    week_end: int,
    day: int,
    count: int,
    span: int,
) -> (index: int)
    requires
        0 <= span < count <= spans.len(),
        crate::calendar::span_entry(
            rules[spans[span].rule as int],
            spans[span],
            week_start,
            week_end,
            day,
        ) is Some,
    ensures
        0 <= index < crate::calendar::span_entries(
            rules,
            spans,
            week_start,
            week_end,
            day,
            count,
        ).len(),
        crate::calendar::span_entry(
            rules[spans[span].rule as int],
            spans[span],
            week_start,
            week_end,
            day,
        ) == Some(
            crate::calendar::span_entries(rules, spans, week_start, week_end, day, count)[index],
        ),
    decreases count,
{
    let front = crate::calendar::span_entries(
        rules,
        spans,
        week_start,
        week_end,
        day,
        count - 1,
    );
    if span == count - 1 {
        front.len() as int
    } else {
        lemma_span_shown(rules, spans, week_start, week_end, day, count - 1, span)
    }
}

/// The rule of a span is a timed rule.
proof fn lemma_span_is_timed(
    spans: Seq<Span>,
    slots: Seq<TimedSlot>,
    rules: Seq<AutomationRule>,
    forecast: Seq<SolarForecastDay>,
    monday: int,
    span: int,
)
    requires
        crate::schedule::holds_events(slots, rules, forecast, monday),
        crate::spans::are_spans(spans, slots, rules, monday * 1_440, (monday + 7) * 1_440),
        0 <= span < spans.len(),
    ensures
        !(rules[spans[span].rule as int].trigger is LightLevel),
        rules[spans[span].rule as int].enabled,
{
    assert(crate::spans::established(spans[span], slots, rules, monday * 1_440));
    crate::spans::lemma_slots_until(slots, monday * 1_440 - 1);
    let k = if exists|k: int| crate::spans::begins_with(spans[span], slots, rules, k) {
        choose|k: int| crate::spans::begins_with(spans[span], slots, rules, k)
    } else {
        crate::spans::slots_until(slots, monday * 1_440 - 1) - 1
    };
    assert(crate::schedule::slot_in_order(rules, slots[k]));
    let j = slots[k].rules@.len() - 1;
    crate::schedule::law_light_rules_are_not_scheduled(slots, rules, forecast, monday, k, j);
    crate::schedule::law_disabled_rules_are_not_scheduled(slots, rules, forecast, monday, k, j);
}

/// Where the entries of a day come from.
proof fn lemma_entries(
    view: WeekCalendarView,
    rules: Seq<AutomationRule>,
    thresholds: Seq<Thresholds>,
    weather: WeatherStatus,
    slots: Seq<TimedSlot>,
    spans: Seq<Span>,
    d: int,
) -> (parts: (Seq<Entry>, Seq<Entry>, Seq<Entry>, int))
    requires
        crate::calendar::shows_week(view, rules, thresholds, weather, slots, spans),
        0 <= d < 7,
    ensures
        ({
            let monday = week_begins(weather.current_day as int);
            let day = monday + d;
            let solar = crate::schedule::solar_for(weather.solar_days@, day);
            let (states, points, windows, lane) = parts;
            let entries = view.days@[d].entries@;
            &&& monday == crate::calendar::monday_of(weather.current_day as int)
            &&& states == crate::calendar::span_entries(
                rules,
                spans,
                monday * 1_440,
                (monday + 7) * 1_440,
                day,
                spans.len() as int,
            )
            &&& points == crate::calendar::point_entries(
                rules,
                slots,
                day,
                solar,
                rules.len() as int,
            )
            &&& windows == crate::calendar::window_entries(
                rules,
                thresholds,
                solar,
                lane,
                rules.len() as int,
            )
            &&& entries.len() == states.len() + points.len() + windows.len()
            &&& forall|i: int|
                0 <= i < entries.len() ==> (#[trigger] entries[i])@ == (if i < states.len() {
                    states[i]
                } else if i < states.len() + points.len() {
                    points[i - states.len()]
                } else {
                    windows[i - states.len() - points.len()]
                })
        }),
{
    let monday = crate::calendar::monday_of(weather.current_day as int);
    let day = monday + d;
    let solar = crate::schedule::solar_for(weather.solar_days@, day);
    let entries = view.days@[d].entries@;
    assert(crate::calendar::shows_day(
        view.days@[d],
        rules,
        thresholds,
        slots,
        spans,
        weather.solar_days@,
        monday,
        weather.current_day as int,
        d,
    ));
    let states = crate::calendar::span_entries(
        rules,
        spans,
        monday * 1_440,
        (monday + 7) * 1_440,
        day,
        spans.len() as int,
    );
    let points = crate::calendar::point_entries(rules, slots, day, solar, rules.len() as int);
    let lane = crate::calendar::first_light_lane(states + points);
    let windows = crate::calendar::window_entries(
        rules,
        thresholds,
        solar,
        lane,
        rules.len() as int,
    );
    let all = crate::calendar::shown(entries);
    assert(all == states + points + windows);
    assert(all.len() == entries.len());
    assert forall|i: int| 0 <= i < entries.len() implies (#[trigger] entries[i])@ == (if i
        < states.len() {
        states[i]
    } else if i < states.len() + points.len() {
        points[i - states.len()]
    } else {
        windows[i - states.len() - points.len()]
    }) by {
        assert(all[i] == entries[i]@);
    }
    (states, points, windows, lane)
}

/// On each day of the week, the entries of a light rule are drawn over exactly those minutes that
/// lie in its window: from the start to the end where the start comes first, and from the start to
/// midnight and from midnight to the end where the window runs over midnight.
pub proof fn law_light_windows_are_drawn(
    view: WeekCalendarView,
    rules: Seq<AutomationRule>,
    thresholds: Seq<Thresholds>,
    weather: WeatherStatus,
    slots: Seq<TimedSlot>,
    spans: Seq<Span>,
    d: int,
    rule: int,
    sun: Option<SolarForecastDay>,
    start: int,
    end: int,
    minute: int,
)
    requires
        crate::calendar::shows_week(view, rules, thresholds, weather, slots, spans),
        identities_differ(rules),
        0 <= d < 7,
        sun_of_day(weather.solar_days@, week_begins(weather.current_day as int) + d, sun),
        0 <= rule < rules.len(),
        window_is(rules[rule], sun, start, end),
        start <= end || start <= 1_440,
        0 <= minute < 1_440,
    ensures
        (exists|i: int|
            0 <= i < view.days@[d].entries@.len() && (#[trigger] view.days@[d].entries@[i]).rule_id
                == rules[rule].id && drawn_over(view.days@[d].entries@[i], minute)) <==> (start
            < end && start <= minute < end) || (start > end && (start <= minute || minute < end)),
{
    let monday = week_begins(weather.current_day as int);
    let day = monday + d;
    let solar = crate::schedule::solar_for(weather.solar_days@, day);
    lemma_sun(weather.solar_days@, day);
    lemma_one_sun(weather.solar_days@, day, sun, solar);
    let (states, points, windows, lane) = lemma_entries(
        view,
        rules,
        thresholds,
        weather,
        slots,
        spans,
        d,
    );
    let entries = view.days@[d].entries@;
    let pieces = crate::calendar::window_pieces(rules[rule], solar);
    let inside = (start < end && start <= minute < end) || (start > end && (start <= minute
        || minute < end));
    assert(start >= 0 && end >= 0);
    if inside {
        let piece: int = if start > end && minute < end {
            1
        } else {
            0
        };
        let index = lemma_window_shown(
            rules,
            thresholds,
            solar,
            lane,
            rules.len() as int,
            rule,
            piece,
        );
        let i = states.len() + points.len() + index;
        assert(entries[i]@ == windows[index]);
        lemma_piece(
            pieces[piece].0,
            pieces[piece].1,
            minute,
            windows[index].left,
            windows[index].width,
        );
        assert(drawn_over(entries[i], minute));
    }
    if exists|i: int|
        0 <= i < entries.len() && (#[trigger] entries[i]).rule_id == rules[rule].id && drawn_over(
            entries[i],
            minute,
        ) {
        let i = choose|i: int|
            0 <= i < entries.len() && (#[trigger] entries[i]).rule_id == rules[rule].id
                && drawn_over(entries[i], minute);
        let entry = entries[i]@;
        assert(entry.rule_id == rules[rule].id);
        if i < states.len() {
            let span = lemma_span_of(
                rules,
                spans,
                monday * 1_440,
                (monday + 7) * 1_440,
                day,
                spans.len() as int,
                i,
            );
            lemma_span_is_timed(spans, slots, rules, weather.solar_days@, monday, span);
            assert(rules[spans[span].rule as int].id == rules[rule].id);
            assert(spans[span].rule == rule);
        } else if i < states.len() + points.len() {
            let other = lemma_point_of(
                rules,
                slots,
                day,
                solar,
                rules.len() as int,
                i - states.len(),
            );
            assert(rules[other].id == rules[rule].id);
        } else {
            let (other, piece) = lemma_window_of(
                rules,
                thresholds,
                solar,
                lane,
                rules.len() as int,
                i - states.len() - points.len(),
            );
            assert(rules[other].id == rules[rule].id);
            assert(other == rule);
            if pieces[piece].0 < pieces[piece].1 {
                lemma_piece(pieces[piece].0, pieces[piece].1, minute, entry.left, entry.width);
            }
        }
    }
}

/// A light rule whose window is not known on a day, for want of a forecast, is not drawn there.
pub proof fn law_unknown_windows_are_not_drawn(
    view: WeekCalendarView,
    rules: Seq<AutomationRule>,
    thresholds: Seq<Thresholds>,
    weather: WeatherStatus,
    slots: Seq<TimedSlot>,
    spans: Seq<Span>,
    d: int,
    rule: int,
    i: int,
)
    requires
        crate::calendar::shows_week(view, rules, thresholds, weather, slots, spans),
        identities_differ(rules),
        0 <= d < 7,
        sun_of_day(weather.solar_days@, week_begins(weather.current_day as int) + d, None),
        0 <= rule < rules.len(),
        rules[rule].trigger matches AutomationTrigger::LightLevel { active_window: Some(window), .. }
            && (window.start is Solar || window.end is Solar),
        0 <= i < view.days@[d].entries@.len(),
    ensures
        view.days@[d].entries@[i].rule_id != rules[rule].id,
{
    let monday = week_begins(weather.current_day as int);
    let day = monday + d;
    let solar = crate::schedule::solar_for(weather.solar_days@, day);
    lemma_sun(weather.solar_days@, day);
    lemma_one_sun(weather.solar_days@, day, None, solar);
    let (states, points, windows, lane) = lemma_entries(
        view,
        rules,
        thresholds,
        weather,
        slots,
        spans,
        d,
    );
    let entry = view.days@[d].entries@[i]@;
    if entry.rule_id == rules[rule].id {
        if i < states.len() {
            let span = lemma_span_of(
                rules,
                spans,
                monday * 1_440,
                (monday + 7) * 1_440,
                day,
                spans.len() as int,
                i,
            );
            lemma_span_is_timed(spans, slots, rules, weather.solar_days@, monday, span);
            assert(rules[spans[span].rule as int].id == rules[rule].id);
            assert(spans[span].rule == rule);
        } else if i < states.len() + points.len() {
            let other = lemma_point_of(
                rules,
                slots,
                day,
                solar,
                rules.len() as int,
                i - states.len(),
            );
            assert(rules[other].id == rules[rule].id);
        } else {
            let (other, piece) = lemma_window_of(
                rules,
                thresholds,
                solar,
                lane,
                rules.len() as int,
                i - states.len() - points.len(),
            );
            assert(rules[other].id == rules[rule].id);
        }
    }
}

/// Whether a timed rule acts at a minute of a day: on the weekdays that it names, Sunday first, at
/// its minute or when the sun does what it waits for.
pub open spec fn acts_on(
    rule: AutomationRule,
    forecast: Seq<SolarForecastDay>,
    day: int,
    minute: int,
) -> bool {
    match rule.trigger {
        AutomationTrigger::FixedTime { minute_of_day, weekdays } => weekdays[(day + 4) % 7]
            && minute == minute_of_day,
        AutomationTrigger::Solar { event, offset_minutes, weekdays } => weekdays[(day + 4) % 7]
            && exists|sun: SolarForecastDay| #[trigger]
            sun_of_day(forecast, day, Some(sun)) && minute == ((match event {
                SolarEvent::Sunrise => sun.sunrise_minute,
                SolarEvent::Sunset => sun.sunset_minute,
            }) + offset_minutes) % 1_440,
        AutomationTrigger::LightLevel { .. } => false,
    }
}

proof fn lemma_acts_on(
    rule: AutomationRule,
    forecast: Seq<SolarForecastDay>,
    day: int,
    minute: int,
)
    ensures
        acts_on(rule, forecast, day, minute) <==> crate::schedule::timed_minute(
            rule,
            day,
            crate::schedule::solar_for(forecast, day),
        ) == Some(minute),
{
    let solar = crate::schedule::solar_for(forecast, day);
    lemma_sun(forecast, day);
    match rule.trigger {
        AutomationTrigger::Solar { .. } => {
            if acts_on(rule, forecast, day, minute) {
                let sun = choose|sun: SolarForecastDay| #[trigger]
                    sun_of_day(forecast, day, Some(sun));
                lemma_one_sun(forecast, day, Some(sun), solar);
            }
            if solar is Some {
                assert(sun_of_day(forecast, day, Some(solar->0)));
                assert forall|sun: SolarForecastDay| #[trigger]
                    sun_of_day(forecast, day, Some(sun)) implies sun == solar->0 by {
                    lemma_one_sun(forecast, day, Some(sun), solar);
                }
            }
        },
        _ => {},
    }
}

/// Whether an enabled timed rule acts at a moment of the week of a day, the week before it or the
/// week behind it.
pub open spec fn acts_at(
    rules: Seq<AutomationRule>,
    forecast: Seq<SolarForecastDay>,
    today: int,
    rule: int,
    at: int,
) -> bool {
    &&& 0 <= rule < rules.len()
    &&& rules[rule].enabled
    &&& exists|day: int|
        week_begins(today) - 7 <= day < week_begins(today) + 14 && #[trigger] acts_on(
            rules[rule],
            forecast,
            day,
            at - day * 1_440,
        )
}

proof fn lemma_acts_at(
    rules: Seq<AutomationRule>,
    forecast: Seq<SolarForecastDay>,
    today: int,
    rule: int,
    at: int,
)
    requires
        0 <= rule < rules.len(),
    ensures
        acts_at(rules, forecast, today, rule, at) <==> crate::schedule::fires(
            rules,
            forecast,
            week_begins(today),
            rule,
            at,
        ),
{
    let monday = week_begins(today);
    if acts_at(rules, forecast, today, rule, at) {
        let day = choose|day: int|
            monday - 7 <= day < monday + 14 && #[trigger] acts_on(
                rules[rule],
                forecast,
                day,
                at - day * 1_440,
            );
        lemma_acts_on(rules[rule], forecast, day, at - day * 1_440);
        assert(crate::schedule::in_horizon(monday, day));
        assert(crate::schedule::event_at(rules[rule], forecast, day) == Some(at));
    }
    if crate::schedule::fires(rules, forecast, monday, rule, at) {
        let day = choose|day: int|
            crate::schedule::in_horizon(monday, day) && #[trigger] crate::schedule::event_at(
                rules[rule],
                forecast,
                day,
            ) == Some(at);
        lemma_acts_on(rules[rule], forecast, day, at - day * 1_440);
    }
}

/// Whether a rule has the last word at a moment: it acted at that time, no rule acted between, and
/// of the rules that acted with it, it was added last.
pub open spec fn last_word(
    rules: Seq<AutomationRule>,
    forecast: Seq<SolarForecastDay>,
    today: int,
    moment: int,
    rule: int,
    at: int,
) -> bool {
    &&& acts_at(rules, forecast, today, rule, at)
    &&& at <= moment
    &&& forall|other: int, then_at: int| #[trigger]
        acts_at(rules, forecast, today, other, then_at) && then_at <= moment ==> then_at < at || (
        then_at == at && rules[other].id <= rules[rule].id)
}

/// The winner of each slot has the last word at its moment.
proof fn lemma_slot_has_last_word(
    slots: Seq<TimedSlot>,
    rules: Seq<AutomationRule>,
    forecast: Seq<SolarForecastDay>,
    today: int,
    k: int,
)
    requires
        crate::schedule::holds_events(slots, rules, forecast, week_begins(today)),
        0 <= k < slots.len(),
    ensures
        last_word(
            rules,
            forecast,
            today,
            slots[k].at as int,
            crate::schedule::winner(slots[k]),
            slots[k].at as int,
        ),
{
    let at = slots[k].at as int;
    let winner = crate::schedule::winner(slots[k]);
    assert(crate::schedule::slot_in_order(rules, slots[k]));
    assert(slots[k].rules@[slots[k].rules@.len() - 1] == winner);
    assert(crate::schedule::lists(slots[k], winner));
    assert(crate::schedule::scheduled(slots, winner, at));
    lemma_acts_at(rules, forecast, today, winner, at);
    assert forall|other: int, then_at: int| #[trigger]
        acts_at(rules, forecast, today, other, then_at) && then_at <= at implies then_at < at || (
    then_at == at && rules[other].id <= rules[winner].id) by {
        if then_at == at {
            lemma_acts_at(rules, forecast, today, other, at);
            crate::schedule::law_highest_identity_wins(
                slots,
                rules,
                forecast,
                week_begins(today),
                k,
                other,
            );
        }
    }
}

/// The rule that has the last word at a moment is the winner of the latest slot by then.
proof fn lemma_last_word(
    slots: Seq<TimedSlot>,
    rules: Seq<AutomationRule>,
    forecast: Seq<SolarForecastDay>,
    today: int,
    moment: int,
    rule: int,
    at: int,
)
    requires
        crate::schedule::holds_events(slots, rules, forecast, week_begins(today)),
        identities_differ(rules),
        last_word(rules, forecast, today, moment, rule, at),
    ensures
        ({
            let count = crate::spans::slots_until(slots, moment);
            &&& 0 < count <= slots.len()
            &&& slots[count - 1].at == at
            &&& crate::schedule::winner(slots[count - 1]) == rule
        }),
{
    let count = crate::spans::slots_until(slots, moment);
    crate::spans::lemma_slots_until(slots, moment);
    lemma_acts_at(rules, forecast, today, rule, at);
    assert(crate::schedule::scheduled(slots, rule, at));
    let k = choose|k: int|
        0 <= k < slots.len() && (#[trigger] slots[k]).at == at && crate::schedule::lists(
            slots[k],
            rule,
        );
    assert(k < count);
    lemma_slot_has_last_word(slots, rules, forecast, today, count - 1);
    let winner = crate::schedule::winner(slots[count - 1]);
    let latest = slots[count - 1].at as int;
    assert(acts_at(rules, forecast, today, winner, latest));
    assert(latest <= moment);
    if k < count - 1 {
        assert(slots[k].at < slots[count - 1].at);
    }
    assert(acts_at(rules, forecast, today, rule, latest));
    assert(rules[rule].id == rules[winner].id);
}

/// Where no rule acted by a moment, no slot comes by then.
proof fn lemma_no_word(
    slots: Seq<TimedSlot>,
    rules: Seq<AutomationRule>,
    forecast: Seq<SolarForecastDay>,
    today: int,
    moment: int,
)
    requires
        crate::schedule::holds_events(slots, rules, forecast, week_begins(today)),
        forall|other: int, at: int| #[trigger]
            acts_at(rules, forecast, today, other, at) ==> at > moment,
    ensures
        crate::spans::slots_until(slots, moment) == 0,
{
    let count = crate::spans::slots_until(slots, moment);
    crate::spans::lemma_slots_until(slots, moment);
    if count > 0 {
        lemma_slot_has_last_word(slots, rules, forecast, today, count - 1);
        assert(slots[count - 1].at <= moment);
    }
}

/// The slots of a week hold the events of the weeks around its Monday.
proof fn lemma_week_events(
    view: WeekCalendarView,
    rules: Seq<AutomationRule>,
    thresholds: Seq<Thresholds>,
    weather: WeatherStatus,
    slots: Seq<TimedSlot>,
    spans: Seq<Span>,
)
    requires
        crate::calendar::shows_week(view, rules, thresholds, weather, slots, spans),
    ensures
        crate::schedule::holds_events(
            slots,
            rules,
            weather.solar_days@,
            week_begins(weather.current_day as int),
        ),
{
    assert(crate::calendar::monday_of(weather.current_day as int) == week_begins(
        weather.current_day as int,
    ));
}

/// Whether an entry says that a plug is on, or that it is off, over a minute of its day.
pub open spec fn states(entry: CalendarEntryView, minute: int, on: bool) -> bool {
    drawn_over(entry, minute) && entry.label@ == (if on {
        "ON"@
    } else {
        "OFF"@
    })
}

/// An entry that states anything of a minute is that of a span that holds the minute.
proof fn lemma_stated(
    view: WeekCalendarView,
    rules: Seq<AutomationRule>,
    thresholds: Seq<Thresholds>,
    weather: WeatherStatus,
    slots: Seq<TimedSlot>,
    spans: Seq<Span>,
    d: int,
    minute: int,
    i: int,
    on: bool,
)
    requires
        crate::calendar::shows_week(view, rules, thresholds, weather, slots, spans),
        0 <= d < 7,
        0 <= minute < 1_440,
        0 <= i < view.days@[d].entries@.len(),
        states(view.days@[d].entries@[i], minute, on),
    ensures
        ({
            let moment = (week_begins(weather.current_day as int) + d) * 1_440 + minute;
            let ruling = crate::spans::ruling(slots, moment);
            ruling is Some && rules[ruling->0].turn_on == on
        }),
{
    reveal_strlit("ON");
    reveal_strlit("OFF");
    reveal_strlit("AUTO · ≤ ");
    assert("ON"@.len() != "OFF"@.len());
    let monday = week_begins(weather.current_day as int);
    let day = monday + d;
    let moment = day * 1_440 + minute;
    let solar = crate::schedule::solar_for(weather.solar_days@, day);
    let (states, points, windows, lane) = lemma_entries(
        view,
        rules,
        thresholds,
        weather,
        slots,
        spans,
        d,
    );
    let entry = view.days@[d].entries@[i]@;
    if i < states.len() {
        let index = lemma_span_of(
            rules,
            spans,
            monday * 1_440,
            (monday + 7) * 1_440,
            day,
            spans.len() as int,
            i,
        );
        let span = spans[index];
        let start = crate::calendar::segment_start(span, day);
        let end = crate::calendar::segment_end(span, day);
        assert(monday * 1_440 <= span.start < span.end <= (monday + 7) * 1_440);
        lemma_piece(start, end, minute, entry.left, entry.width);
        assert(span.start <= moment < span.end);
        assert(crate::spans::lasts(span, slots, rules));
        assert(crate::spans::ruling(slots, moment) is Some);
    } else if i < states.len() + points.len() {
        let other = lemma_point_of(rules, slots, day, solar, rules.len() as int, i - states.len());
        assert(entry.width == 0);
    } else {
        let (rule, piece) = lemma_window_of(
            rules,
            thresholds,
            solar,
            lane,
            rules.len() as int,
            i - states.len() - points.len(),
        );
        assert(entry.label[0] == 'A');
        assert("ON"@[0] == 'O');
        assert("OFF"@[0] == 'O');
    }
}

/// The span that holds a minute is drawn over it.
proof fn lemma_state_shown(
    view: WeekCalendarView,
    rules: Seq<AutomationRule>,
    thresholds: Seq<Thresholds>,
    weather: WeatherStatus,
    slots: Seq<TimedSlot>,
    spans: Seq<Span>,
    d: int,
    minute: int,
    rule: int,
) -> (i: int)
    requires
        crate::calendar::shows_week(view, rules, thresholds, weather, slots, spans),
        0 <= d < 7,
        0 <= minute < 1_440,
        crate::spans::ruling(
            slots,
            (week_begins(weather.current_day as int) + d) * 1_440 + minute,
        ) == Some(rule),
    ensures
        0 <= i < view.days@[d].entries@.len(),
        states(view.days@[d].entries@[i], minute, rules[rule].turn_on),
{
    let monday = week_begins(weather.current_day as int);
    let day = monday + d;
    let moment = day * 1_440 + minute;
    let entries = view.days@[d].entries@;
    let (states, points, windows, lane) = lemma_entries(
        view,
        rules,
        thresholds,
        weather,
        slots,
        spans,
        d,
    );
    crate::spans::law_spans_cover_the_week(
        spans,
        slots,
        rules,
        monday * 1_440,
        (monday + 7) * 1_440,
        moment,
    );
    let k = choose|k: int|
        0 <= k < spans.len() && (#[trigger] spans[k]).start <= moment < spans[k].end
            && rules[rule].turn_on == rules[spans[k].rule as int].turn_on;
    let start = crate::calendar::segment_start(spans[k], day);
    let end = crate::calendar::segment_end(spans[k], day);
    assert(start <= minute < end);
    let i = lemma_span_shown(
        rules,
        spans,
        monday * 1_440,
        (monday + 7) * 1_440,
        day,
        spans.len() as int,
        k,
    );
    assert(entries[i]@ == states[i]);
    lemma_piece(start, end, minute, states[i].left, states[i].width);
    i
}

/// Over each minute of the week the chart states what the rule that has the last word there set,
/// and nothing else.
#[verifier::spinoff_prover]
#[verifier::rlimit(60)]
pub proof fn law_chart_states_the_last_word(
    view: WeekCalendarView,
    rules: Seq<AutomationRule>,
    thresholds: Seq<Thresholds>,
    weather: WeatherStatus,
    slots: Seq<TimedSlot>,
    spans: Seq<Span>,
    d: int,
    minute: int,
    rule: int,
    at: int,
)
    requires
        crate::calendar::shows_week(view, rules, thresholds, weather, slots, spans),
        identities_differ(rules),
        0 <= d < 7,
        0 <= minute < 1_440,
        last_word(
            rules,
            weather.solar_days@,
            weather.current_day as int,
            (week_begins(weather.current_day as int) + d) * 1_440 + minute,
            rule,
            at,
        ),
    ensures
        exists|i: int|
            0 <= i < view.days@[d].entries@.len() && states(
                #[trigger] view.days@[d].entries@[i],
                minute,
                rules[rule].turn_on,
            ),
        forall|i: int|
            0 <= i < view.days@[d].entries@.len() ==> !states(
                #[trigger] view.days@[d].entries@[i],
                minute,
                !rules[rule].turn_on,
            ),
{
    let today = weather.current_day as int;
    let monday = week_begins(today);
    let day = monday + d;
    let moment = day * 1_440 + minute;
    lemma_week_events(view, rules, thresholds, weather, slots, spans);
    lemma_last_word(slots, rules, weather.solar_days@, today, moment, rule, at);
    let entries = view.days@[d].entries@;
    assert forall|i: int| 0 <= i < entries.len() implies !states(
        #[trigger] entries[i],
        minute,
        !rules[rule].turn_on,
    ) by {
        if states(entries[i], minute, !rules[rule].turn_on) {
            lemma_stated(
                view,
                rules,
                thresholds,
                weather,
                slots,
                spans,
                d,
                minute,
                i,
                !rules[rule].turn_on,
            );
        }
    }
    let i = lemma_state_shown(view, rules, thresholds, weather, slots, spans, d, minute, rule);
    assert(states(entries[i], minute, rules[rule].turn_on));
}

/// Over each minute of the week by which no rule acted the chart states nothing.
#[verifier::spinoff_prover]
#[verifier::rlimit(60)]
pub proof fn law_chart_states_nothing_unsaid(
    view: WeekCalendarView,
    rules: Seq<AutomationRule>,
    thresholds: Seq<Thresholds>,
    weather: WeatherStatus,
    slots: Seq<TimedSlot>,
    spans: Seq<Span>,
    d: int,
    minute: int,
    i: int,
    on: bool,
)
    requires
        crate::calendar::shows_week(view, rules, thresholds, weather, slots, spans),
        0 <= d < 7,
        0 <= minute < 1_440,
        forall|other: int, at: int| #[trigger]
            acts_at(rules, weather.solar_days@, weather.current_day as int, other, at) ==> at > (
            week_begins(weather.current_day as int) + d) * 1_440 + minute,
        0 <= i < view.days@[d].entries@.len(),
    ensures
        !states(view.days@[d].entries@[i], minute, on),
{
    let today = weather.current_day as int;
    let moment = (week_begins(today) + d) * 1_440 + minute;
    lemma_week_events(view, rules, thresholds, weather, slots, spans);
    lemma_no_word(slots, rules, weather.solar_days@, today, moment);
    if states(view.days@[d].entries@[i], minute, on) {
        lemma_stated(view, rules, thresholds, weather, slots, spans, d, minute, i, on);
    }
}

/// The name of the weekday of a day.
pub open spec fn named_weekday(day: int) -> Seq<char> {
    let from_monday = (day + 3) % 7;
    if from_monday == 0 {
        "Monday"@
    } else if from_monday == 1 {
        "Tuesday"@
    } else if from_monday == 2 {
        "Wednesday"@
    } else if from_monday == 3 {
        "Thursday"@
    } else if from_monday == 4 {
        "Friday"@
    } else if from_monday == 5 {
        "Saturday"@
    } else {
        "Sunday"@
    }
}

proof fn lemma_next_change(
    slots: Seq<TimedSlot>,
    rules: Seq<AutomationRule>,
    on: bool,
    from: int,
    change: int,
)
    requires
        0 <= from <= change <= slots.len(),
        forall|k: int|
            from <= k < change ==> crate::spans::sets_on(rules, #[trigger] slots[k]) == on,
        change < slots.len() ==> crate::spans::sets_on(rules, slots[change]) != on,
    ensures
        crate::calendar::next_change(slots, rules, on, from) == (if change < slots.len() {
            Some(change)
        } else {
            None
        }),
    decreases change - from,
{
    if from < change {
        assert(crate::spans::sets_on(rules, slots[from]) == on);
        lemma_next_change(slots, rules, on, from + 1, change);
    }
}

proof fn lemma_named_weekday(day: int)
    ensures
        crate::calendar::day_name(day) == named_weekday(day),
{
    assert((day + 3) % 7 == ((day + 4) % 7 + 6) % 7);
}

/// The slot that a summary names as the next change.
proof fn lemma_next_slot(
    rules: Seq<AutomationRule>,
    forecast: Seq<SolarForecastDay>,
    today: int,
    now: int,
    slots: Seq<TimedSlot>,
    rule: int,
    at: int,
    next: int,
    next_at: int,
) -> (change: int)
    requires
        crate::schedule::holds_events(slots, rules, forecast, week_begins(today)),
        identities_differ(rules),
        last_word(rules, forecast, today, now, rule, at),
        now < next_at,
        last_word(rules, forecast, today, next_at, next, next_at),
        rules[next].turn_on != rules[rule].turn_on,
        forall|other: int, between: int|
            now < between < next_at && #[trigger] last_word(
                rules,
                forecast,
                today,
                between,
                other,
                between,
            ) ==> rules[other].turn_on == rules[rule].turn_on,
    ensures
        crate::spans::ruling(slots, now) == Some(rule),
        crate::calendar::next_change(
            slots,
            rules,
            rules[rule].turn_on,
            crate::spans::slots_until(slots, now),
        ) == Some(change),
        slots[change].at == next_at,
        crate::schedule::winner(slots[change]) == next,
{
    lemma_last_word(slots, rules, forecast, today, now, rule, at);
    lemma_last_word(slots, rules, forecast, today, next_at, next, next_at);
    let from = crate::spans::slots_until(slots, now);
    let change = crate::spans::slots_until(slots, next_at) - 1;
    crate::spans::lemma_slots_until(slots, now);
    assert forall|k: int| from <= k < change implies crate::spans::sets_on(
        rules,
        #[trigger] slots[k],
    ) == rules[rule].turn_on by {
        assert(slots[k].at < slots[change].at);
        lemma_slot_has_last_word(slots, rules, forecast, today, k);
    }
    if change < from {
        assert(slots[change].at <= now);
    }
    lemma_next_change(slots, rules, rules[rule].turn_on, from, change);
    change
}

/// What comes next, in words.
pub open spec fn coming(rule: AutomationRule, at: int, today: int) -> Seq<char> {
    "Next: "@ + (if rule.turn_on {
        "ON"@
    } else {
        "OFF"@
    }) + " "@ + (if at / 1_440 == today {
        "today"@
    } else if at / 1_440 == today + 1 {
        "tomorrow"@
    } else {
        named_weekday(at / 1_440)
    }) + " at "@ + crate::clock::minute_clock((at % 1_440) as nat) + " · "@ + rule.name@
}

proof fn lemma_coming(
    summary: Option<CalendarSummaryView>,
    slots: Seq<TimedSlot>,
    rules: Seq<AutomationRule>,
    today: int,
    minute: int,
    rule: int,
    change: int,
)
    requires
        0 <= minute < 1_440,
        crate::calendar::summarises(summary, slots, rules, today * 1_440 + minute),
        crate::spans::ruling(slots, today * 1_440 + minute) == Some(rule),
        crate::calendar::next_change(
            slots,
            rules,
            rules[rule].turn_on,
            crate::spans::slots_until(slots, today * 1_440 + minute),
        ) == Some(change),
    ensures
        summary is Some,
        summary->0.state@ == (if rules[rule].turn_on {
            "ON"@
        } else {
            "OFF"@
        }),
        summary->0.next is Some,
        summary->0.next->0@ == coming(
            rules[crate::schedule::winner(slots[change])],
            slots[change].at as int,
            today,
        ),
{
    lemma_named_weekday(slots[change].at as int / 1_440);
    assert((today * 1_440 + minute) / 1_440 == today);
}

/// The summary names the state that the rule with the last word set. What it says comes next is
/// the first later moment at which the rule with the last word sets another, with its day, its
/// time and its name.
#[verifier::spinoff_prover]
#[verifier::rlimit(60)]
pub proof fn law_summary_tells_what_comes_next(
    view: WeekCalendarView,
    rules: Seq<AutomationRule>,
    thresholds: Seq<Thresholds>,
    weather: WeatherStatus,
    slots: Seq<TimedSlot>,
    spans: Seq<Span>,
    rule: int,
    at: int,
    next: int,
    next_at: int,
)
    requires
        crate::calendar::shows_week(view, rules, thresholds, weather, slots, spans),
        identities_differ(rules),
        weather.current_minute < 1_440,
        ({
            let forecast = weather.solar_days@;
            let today = weather.current_day as int;
            let now = today * 1_440 + weather.current_minute;
            &&& last_word(rules, forecast, today, now, rule, at)
            &&& now < next_at
            &&& last_word(rules, forecast, today, next_at, next, next_at)
            &&& rules[next].turn_on != rules[rule].turn_on
            &&& forall|other: int, between: int|
                now < between < next_at && #[trigger] last_word(
                    rules,
                    forecast,
                    today,
                    between,
                    other,
                    between,
                ) ==> rules[other].turn_on == rules[rule].turn_on
        }),
    ensures
        view.summary is Some,
        view.summary->0.state@ == (if rules[rule].turn_on {
            "ON"@
        } else {
            "OFF"@
        }),
        view.summary->0.next is Some,
        view.summary->0.next->0@ == coming(rules[next], next_at, weather.current_day as int),
{
    let forecast = weather.solar_days@;
    let today = weather.current_day as int;
    let now = today * 1_440 + weather.current_minute;
    lemma_week_events(view, rules, thresholds, weather, slots, spans);
    let change = lemma_next_slot(
        rules,
        forecast,
        today,
        now,
        slots,
        rule,
        at,
        next,
        next_at,
    );
    lemma_coming(
        view.summary,
        slots,
        rules,
        today,
        weather.current_minute as int,
        rule,
        change,
    );
}

/// No slot is named as the next change where no later moment sets another state.
proof fn lemma_no_next_slot(
    rules: Seq<AutomationRule>,
    forecast: Seq<SolarForecastDay>,
    today: int,
    now: int,
    slots: Seq<TimedSlot>,
    rule: int,
    at: int,
)
    requires
        crate::schedule::holds_events(slots, rules, forecast, week_begins(today)),
        identities_differ(rules),
        last_word(rules, forecast, today, now, rule, at),
        forall|other: int, later: int|
            now < later && #[trigger] last_word(rules, forecast, today, later, other, later)
                ==> rules[other].turn_on == rules[rule].turn_on,
    ensures
        crate::spans::ruling(slots, now) == Some(rule),
        crate::calendar::next_change(
            slots,
            rules,
            rules[rule].turn_on,
            crate::spans::slots_until(slots, now),
        ) is None,
{
    let from = crate::spans::slots_until(slots, now);
    crate::spans::lemma_slots_until(slots, now);
    lemma_last_word(slots, rules, forecast, today, now, rule, at);
    assert forall|k: int| from <= k < slots.len() implies crate::spans::sets_on(
        rules,
        #[trigger] slots[k],
    ) == rules[rule].turn_on by {
        lemma_slot_has_last_word(slots, rules, forecast, today, k);
    }
    lemma_next_change(slots, rules, rules[rule].turn_on, from, slots.len() as int);
}

/// Where no later moment of the weeks sets another state, the summary names the state and no next
/// change.
#[verifier::spinoff_prover]
#[verifier::rlimit(60)]
pub proof fn law_summary_names_no_next(
    view: WeekCalendarView,
    rules: Seq<AutomationRule>,
    thresholds: Seq<Thresholds>,
    weather: WeatherStatus,
    slots: Seq<TimedSlot>,
    spans: Seq<Span>,
    rule: int,
    at: int,
)
    requires
        crate::calendar::shows_week(view, rules, thresholds, weather, slots, spans),
        identities_differ(rules),
        ({
            let forecast = weather.solar_days@;
            let today = weather.current_day as int;
            let now = today * 1_440 + weather.current_minute;
            &&& last_word(rules, forecast, today, now, rule, at)
            &&& forall|other: int, later: int|
                now < later && #[trigger] last_word(
                    rules,
                    forecast,
                    today,
                    later,
                    other,
                    later,
                ) ==> rules[other].turn_on == rules[rule].turn_on
        }),
    ensures
        view.summary is Some,
        view.summary->0.state@ == (if rules[rule].turn_on {
            "ON"@
        } else {
            "OFF"@
        }),
        view.summary->0.next is None,
{
    let today = weather.current_day as int;
    let now = today * 1_440 + weather.current_minute;
    lemma_week_events(view, rules, thresholds, weather, slots, spans);
    lemma_no_next_slot(rules, weather.solar_days@, today, now, slots, rule, at);
}

/// There is no summary before the first time that a rule acts.
#[verifier::spinoff_prover]
#[verifier::rlimit(60)]
pub proof fn law_no_summary_before_the_first_word(
    view: WeekCalendarView,
    rules: Seq<AutomationRule>,
    thresholds: Seq<Thresholds>,
    weather: WeatherStatus,
    slots: Seq<TimedSlot>,
    spans: Seq<Span>,
)
    requires
        crate::calendar::shows_week(view, rules, thresholds, weather, slots, spans),
        forall|other: int, at: int| #[trigger]
            acts_at(rules, weather.solar_days@, weather.current_day as int, other, at) ==> at
                > weather.current_day * 1_440 + weather.current_minute,
    ensures
        view.summary is None,
{
    let today = weather.current_day as int;
    let now = today * 1_440 + weather.current_minute;
    lemma_week_events(view, rules, thresholds, weather, slots, spans);
    lemma_no_word(slots, rules, weather.solar_days@, today, now);
}

/// Whether another rule acts at the same moment as a rule.
pub open spec fn shares_moment(
    rules: Seq<AutomationRule>,
    forecast: Seq<SolarForecastDay>,
    today: int,
    rule: int,
    at: int,
) -> bool {
    exists|other: int| other != rule && #[trigger] acts_at(rules, forecast, today, other, at)
}

/// Whether no rule that acts at a moment was added after a rule.
pub open spec fn added_last(
    rules: Seq<AutomationRule>,
    forecast: Seq<SolarForecastDay>,
    today: int,
    rule: int,
    at: int,
) -> bool {
    forall|other: int| #[trigger]
        acts_at(rules, forecast, today, other, at) ==> rules[other].id <= rules[rule].id
}

/// Whether no rule that acts at a moment was added before a rule.
pub open spec fn added_first(
    rules: Seq<AutomationRule>,
    forecast: Seq<SolarForecastDay>,
    today: int,
    rule: int,
    at: int,
) -> bool {
    forall|other: int| #[trigger]
        acts_at(rules, forecast, today, other, at) ==> rules[rule].id <= rules[other].id
}

/// Whether an entry marks that a rule acts at a minute of a day: where that is, what it does, and
/// whether it competes with others and wins.
pub open spec fn marks_event(
    entry: CalendarEntryView,
    rules: Seq<AutomationRule>,
    forecast: Seq<SolarForecastDay>,
    today: int,
    rule: int,
    day: int,
    minute: int,
) -> bool {
    let at = day * 1_440 + minute;
    &&& entry.point
    &&& entry.rule_id == rules[rule].id
    &&& entry.name@ == rules[rule].name@
    &&& entry.enabled == rules[rule].enabled
    &&& -720 <= entry.left * 1_440 - minute * 10_000 <= 720
    &&& entry.detail@ == crate::clock::minute_clock(minute as nat) + " · "@ + (
    if rules[rule].turn_on {
        "Turn on"@
    } else {
        "Turn off"@
    })
    &&& entry.conflict <==> rules[rule].enabled && shares_moment(rules, forecast, today, rule, at)
    &&& entry.winner <==> entry.conflict && added_last(rules, forecast, today, rule, at)
    &&& rules[rule].enabled ==> (entry.collision_index == 0 <==> added_first(
        rules,
        forecast,
        today,
        rule,
        at,
    ))
}

proof fn lemma_position(
    rules: Seq<AutomationRule>,
    listed: Seq<usize>,
    id: u64,
    from: int,
    place: int,
)
    requires
        0 <= from <= place < listed.len(),
        rules[listed[place] as int].id == id,
        forall|j: int|
            from <= j < place ==> rules[(#[trigger] listed[j]) as int].id != id,
    ensures
        crate::calendar::position_of(rules, listed, id, from) == Some(place),
    decreases place - from,
{
    if from < place {
        assert(rules[listed[from] as int].id != id);
        lemma_position(rules, listed, id, from + 1, place);
    }
}

/// The slot of a moment lists the rules that act then.
proof fn lemma_slot_at(
    slots: Seq<TimedSlot>,
    rules: Seq<AutomationRule>,
    forecast: Seq<SolarForecastDay>,
    today: int,
    rule: int,
    at: int,
) -> (place: (int, int))
    requires
        crate::schedule::holds_events(slots, rules, forecast, week_begins(today)),
        acts_at(rules, forecast, today, rule, at),
    ensures
        0 <= place.0 < slots.len(),
        crate::calendar::slot_at(slots, at) == Some(slots[place.0]),
        slots[place.0].at == at,
        0 <= place.1 < slots[place.0].rules@.len(),
        slots[place.0].rules@[place.1] == rule,
{
    lemma_acts_at(rules, forecast, today, rule, at);
    assert(crate::schedule::scheduled(slots, rule, at));
    let k = choose|k: int|
        0 <= k < slots.len() && (#[trigger] slots[k]).at == at && crate::schedule::lists(
            slots[k],
            rule,
        );
    let j = choose|j: int| 0 <= j < slots[k].rules@.len() && #[trigger] slots[k].rules@[j] == rule;
    let count = crate::spans::slots_until(slots, at);
    crate::spans::lemma_slots_until(slots, at);
    assert(k < count);
    if k < count - 1 {
        assert(slots[k].at < slots[count - 1].at);
    }
    (k, j)
}

proof fn lemma_competition(
    slots: Seq<TimedSlot>,
    rules: Seq<AutomationRule>,
    forecast: Seq<SolarForecastDay>,
    today: int,
    rule: int,
    at: int,
)
    requires
        crate::schedule::holds_events(slots, rules, forecast, week_begins(today)),
        identities_differ(rules),
        acts_at(rules, forecast, today, rule, at),
    ensures
        crate::calendar::in_conflict(rules, slots, rule, at) <==> shares_moment(
            rules,
            forecast,
            today,
            rule,
            at,
        ),
        crate::calendar::wins_conflict(rules, slots, rule, at) <==> shares_moment(
            rules,
            forecast,
            today,
            rule,
            at,
        ) && added_last(rules, forecast, today, rule, at),
        crate::calendar::collision(rules, slots, rule, at) is Some,
        crate::calendar::collision(rules, slots, rule, at)->0 == 0 <==> added_first(
            rules,
            forecast,
            today,
            rule,
            at,
        ),
{
    let (k, j) = lemma_slot_at(slots, rules, forecast, today, rule, at);
    let listed = slots[k].rules@;
    assert(crate::schedule::slot_in_order(rules, slots[k]));
    assert forall|i: int| 0 <= i < listed.len() implies acts_at(
        rules,
        forecast,
        today,
        #[trigger] listed[i] as int,
        at,
    ) by {
        assert(crate::schedule::lists(slots[k], listed[i] as int));
        assert(crate::schedule::scheduled(slots, listed[i] as int, at));
        lemma_acts_at(rules, forecast, today, listed[i] as int, at);
    }
    assert forall|i: int| 0 <= i < j implies rules[(#[trigger] listed[i]) as int].id
        < rules[rule].id by {
        assert(crate::schedule::added_before(rules, listed[i] as int, listed[j] as int));
        assert(listed[i] != listed[j]);
        assert(acts_at(rules, forecast, today, listed[i] as int, at));
    }
    lemma_position(rules, listed, rules[rule].id, 0, j);
    assert forall|other: int| #[trigger] acts_at(rules, forecast, today, other, at) implies exists|
        i: int,
    | 0 <= i < listed.len() && #[trigger] listed[i] == other by {
        let (l, i) = lemma_slot_at(slots, rules, forecast, today, other, at);
        assert(slots[l].rules@[i] == other);
        assert(slots[l] == slots[k]);
    }
    let last = listed.len() - 1;
    assert(acts_at(rules, forecast, today, listed[last] as int, at));
    assert(acts_at(rules, forecast, today, listed[0] as int, at));
    if listed.len() > 1 {
        let i: int = if j == 0 {
            1
        } else {
            0
        };
        if i < j {
            assert(crate::schedule::added_before(rules, listed[i] as int, listed[j] as int));
        } else {
            assert(crate::schedule::added_before(rules, listed[j] as int, listed[i] as int));
        }
        assert(listed[i] != rule);
        assert(acts_at(rules, forecast, today, listed[i] as int, at));
    }
    assert forall|other: int| #[trigger] acts_at(rules, forecast, today, other, at) implies
        rules[listed[0] as int].id <= rules[other].id <= rules[listed[last] as int].id by {
        let i = choose|i: int| 0 <= i < listed.len() && #[trigger] listed[i] == other;
        if i < last {
            assert(crate::schedule::added_before(rules, listed[i] as int, listed[last] as int));
        }
        if 0 < i {
            assert(crate::schedule::added_before(rules, listed[0] as int, listed[i] as int));
        }
    }
}

proof fn lemma_marks_event(
    entry: CalendarEntryView,
    rules: Seq<AutomationRule>,
    slots: Seq<TimedSlot>,
    forecast: Seq<SolarForecastDay>,
    today: int,
    rule: int,
    day: int,
    minute: int,
)
    requires
        crate::schedule::holds_events(slots, rules, forecast, week_begins(today)),
        identities_differ(rules),
        0 <= rule < rules.len(),
        week_begins(today) <= day < week_begins(today) + 7,
        acts_on(rules[rule], forecast, day, minute),
        entry@ == crate::calendar::point_entry(rules, slots, rule, day, minute),
    ensures
        marks_event(entry, rules, forecast, today, rule, day, minute),
{
    let at = day * 1_440 + minute;
    assert(at - day * 1_440 == minute);
    if rules[rule].enabled {
        assert(acts_on(rules[rule], forecast, day, at - day * 1_440));
        assert(acts_at(rules, forecast, today, rule, at));
        lemma_competition(slots, rules, forecast, today, rule, at);
    }
    let point = crate::calendar::point_entry(rules, slots, rule, day, minute);
    assert(entry.left == crate::calendar::percent(minute));
}

/// On each day of the week on which a timed rule acts, enabled or not, an entry marks it.
pub proof fn law_events_are_marked(
    view: WeekCalendarView,
    rules: Seq<AutomationRule>,
    thresholds: Seq<Thresholds>,
    weather: WeatherStatus,
    slots: Seq<TimedSlot>,
    spans: Seq<Span>,
    d: int,
    rule: int,
    minute: int,
)
    requires
        crate::calendar::shows_week(view, rules, thresholds, weather, slots, spans),
        identities_differ(rules),
        0 <= d < 7,
        0 <= rule < rules.len(),
        acts_on(
            rules[rule],
            weather.solar_days@,
            week_begins(weather.current_day as int) + d,
            minute,
        ),
    ensures
        exists|i: int|
            0 <= i < view.days@[d].entries@.len() && marks_event(
                #[trigger] view.days@[d].entries@[i],
                rules,
                weather.solar_days@,
                weather.current_day as int,
                rule,
                week_begins(weather.current_day as int) + d,
                minute,
            ),
{
    let today = weather.current_day as int;
    let forecast = weather.solar_days@;
    let day = week_begins(today) + d;
    let solar = crate::schedule::solar_for(forecast, day);
    let entries = view.days@[d].entries@;
    let (states, points, windows, lane) = lemma_entries(
        view,
        rules,
        thresholds,
        weather,
        slots,
        spans,
        d,
    );
    lemma_acts_on(rules[rule], forecast, day, minute);
    let index = crate::calendar::lemma_point_shown(
        rules,
        slots,
        day,
        solar,
        rule,
        rules.len() as int,
    );
    let i = states.len() + index;
    assert(entries[i]@ == points[index]);
    lemma_marks_event(entries[i], rules, slots, forecast, today, rule, day, minute);
}

/// Each point of a day marks that a timed rule acts there.
pub proof fn law_points_mark_events(
    view: WeekCalendarView,
    rules: Seq<AutomationRule>,
    thresholds: Seq<Thresholds>,
    weather: WeatherStatus,
    slots: Seq<TimedSlot>,
    spans: Seq<Span>,
    d: int,
    i: int,
)
    requires
        crate::calendar::shows_week(view, rules, thresholds, weather, slots, spans),
        identities_differ(rules),
        0 <= d < 7,
        0 <= i < view.days@[d].entries@.len(),
        view.days@[d].entries@[i].point,
    ensures
        exists|rule: int, minute: int|
            0 <= rule < rules.len() && #[trigger] acts_on(
                rules[rule],
                weather.solar_days@,
                week_begins(weather.current_day as int) + d,
                minute,
            ) && marks_event(
                view.days@[d].entries@[i],
                rules,
                weather.solar_days@,
                weather.current_day as int,
                rule,
                week_begins(weather.current_day as int) + d,
                minute,
            ),
{
    let today = weather.current_day as int;
    let forecast = weather.solar_days@;
    let monday = week_begins(today);
    let day = monday + d;
    let solar = crate::schedule::solar_for(forecast, day);
    let entries = view.days@[d].entries@;
    let (states, points, windows, lane) = lemma_entries(
        view,
        rules,
        thresholds,
        weather,
        slots,
        spans,
        d,
    );
    assert(entries[i]@.point);
    if i < states.len() {
        let span = lemma_span_of(
            rules,
            spans,
            monday * 1_440,
            (monday + 7) * 1_440,
            day,
            spans.len() as int,
            i,
        );
    } else if i < states.len() + points.len() {
        let rule = lemma_point_of(rules, slots, day, solar, rules.len() as int, i - states.len());
        let minute = crate::schedule::timed_minute(rules[rule], day, solar)->0;
        lemma_acts_on(rules[rule], forecast, day, minute);
        lemma_marks_event(entries[i], rules, slots, forecast, today, rule, day, minute);
    } else {
        let place = lemma_window_of(
            rules,
            thresholds,
            solar,
            lane,
            rules.len() as int,
            i - states.len() - points.len(),
        );
    }
}

/// The short name of a day of the week, Monday first.
pub open spec fn short_weekday(index: int) -> Seq<char> {
    if index == 0 {
        "Mon"@
    } else if index == 1 {
        "Tue"@
    } else if index == 2 {
        "Wed"@
    } else if index == 3 {
        "Thu"@
    } else if index == 4 {
        "Fri"@
    } else if index == 5 {
        "Sat"@
    } else {
        "Sun"@
    }
}

/// The calendar has seven days from Monday on, each under its name and its date, and today is the
/// one that the forecast is of. The current time stands where its minute does, in the time zone of
/// the forecast.
pub proof fn law_week_has_its_days(
    view: WeekCalendarView,
    rules: Seq<AutomationRule>,
    thresholds: Seq<Thresholds>,
    weather: WeatherStatus,
    slots: Seq<TimedSlot>,
    spans: Seq<Span>,
    d: int,
)
    requires
        crate::calendar::shows_week(view, rules, thresholds, weather, slots, spans),
        0 <= d < 7,
    ensures
        view.days@.len() == 7,
        view.days@[d].index == d,
        view.days@[d].name@ == short_weekday(d),
        view.days@[d].is_today <==> d == (weather.current_day + 3) % 7,
        ({
            let day = week_begins(weather.current_day as int) + d;
            view.days@[d].date_label@ == crate::date::month_name(crate::date::month_of(day)) + " "@
                + crate::text::decimal(crate::date::day_of_month(day) as nat)
        }),
        view.week_label@ == crate::date::week_label(week_begins(weather.current_day as int)),
        view.timezone@ == weather.timezone@,
        -720 <= view.current_left * 1_440 - weather.current_minute * 10_000 <= 720,
        view.days@[d].entries@.len() > 0 ==> view.has_entries,
{
    let monday = crate::calendar::monday_of(weather.current_day as int);
    assert(monday == week_begins(weather.current_day as int));
    assert(crate::calendar::shows_day(
        view.days@[d],
        rules,
        thresholds,
        slots,
        spans,
        weather.solar_days@,
        monday,
        weather.current_day as int,
        d,
    ));
}

proof fn lemma_lanes_ascend(
    rules: Seq<AutomationRule>,
    solar: Option<SolarForecastDay>,
    first_lane: int,
    lower: int,
    upper: int,
)
    requires
        0 <= lower <= upper <= rules.len(),
    ensures
        crate::calendar::lanes_after(rules, solar, first_lane, lower)
            <= crate::calendar::lanes_after(rules, solar, first_lane, upper),
        lower < upper && crate::calendar::window_pieces(rules[lower], solar).len() > 0
            ==> crate::calendar::lanes_after(rules, solar, first_lane, lower)
            < crate::calendar::lanes_after(rules, solar, first_lane, upper),
    decreases upper - lower,
{
    if lower < upper {
        lemma_lanes_ascend(rules, solar, first_lane, lower, upper - 1);
        if lower == upper - 1 {
            assert(crate::calendar::lanes_after(rules, solar, first_lane, upper)
                == crate::calendar::lanes_after(rules, solar, first_lane, lower) + (
            if crate::calendar::window_pieces(rules[lower], solar).len() > 0 {
                1int
            } else {
                0
            }));
        }
    }
}

proof fn lemma_window_lane(
    rules: Seq<AutomationRule>,
    thresholds: Seq<Thresholds>,
    solar: Option<SolarForecastDay>,
    first_lane: int,
    count: int,
    index: int,
) -> (rule: int)
    requires
        0 <= count <= rules.len(),
        0 <= index < crate::calendar::window_entries(
            rules,
            thresholds,
            solar,
            first_lane,
            count,
        ).len(),
    ensures
        ({
            let entry = crate::calendar::window_entries(
                rules,
                thresholds,
                solar,
                first_lane,
                count,
            )[index];
            &&& 0 <= rule < count
            &&& crate::calendar::window_pieces(rules[rule], solar).len() > 0
            &&& entry.rule_id == rules[rule].id
            &&& entry.lane == crate::calendar::lanes_after(rules, solar, first_lane, rule)
        }),
    decreases count,
{
    let front = crate::calendar::window_entries(rules, thresholds, solar, first_lane, count - 1);
    if index < front.len() {
        lemma_window_lane(rules, thresholds, solar, first_lane, count - 1, index)
    } else {
        count - 1
    }
}

/// The lane that the windows of a day begin with.
proof fn lemma_day_lanes(
    view: WeekCalendarView,
    rules: Seq<AutomationRule>,
    thresholds: Seq<Thresholds>,
    weather: WeatherStatus,
    slots: Seq<TimedSlot>,
    spans: Seq<Span>,
    d: int,
    i: int,
) -> (rule: int)
    requires
        crate::calendar::shows_week(view, rules, thresholds, weather, slots, spans),
        0 <= d < 7,
        0 <= i < view.days@[d].entries@.len(),
    ensures
        ({
            let day = week_begins(weather.current_day as int) + d;
            let solar = crate::schedule::solar_for(weather.solar_days@, day);
            let timed = crate::calendar::timed_entries(
                rules,
                slots,
                spans,
                weather.solar_days@,
                week_begins(weather.current_day as int),
                d,
            );
            let first = crate::calendar::first_light_lane(timed);
            let entry = view.days@[d].entries@[i];
            &&& i < timed.len() ==> entry@ == timed[i]
            &&& i >= timed.len() ==> {
                &&& 0 <= rule < rules.len()
                &&& crate::calendar::window_pieces(rules[rule], solar).len() > 0
                &&& entry.rule_id == rules[rule].id
                &&& entry.lane == crate::calendar::lanes_after(rules, solar, first, rule)
            }
            &&& timed.len() <= view.days@[d].entries@.len()
            &&& view.days@[d].lane_count >= 1
            &&& view.days@[d].lane_count >= crate::calendar::lanes_after(
                rules,
                solar,
                first,
                rules.len() as int,
            )
        }),
{
    let monday = crate::calendar::monday_of(weather.current_day as int);
    assert(monday == week_begins(weather.current_day as int));
    let day = monday + d;
    let solar = crate::schedule::solar_for(weather.solar_days@, day);
    assert(crate::calendar::shows_day(
        view.days@[d],
        rules,
        thresholds,
        slots,
        spans,
        weather.solar_days@,
        monday,
        weather.current_day as int,
        d,
    ));
    let timed = crate::calendar::timed_entries(
        rules,
        slots,
        spans,
        weather.solar_days@,
        monday,
        d,
    );
    let first = crate::calendar::first_light_lane(timed);
    let windows = crate::calendar::window_entries(
        rules,
        thresholds,
        solar,
        first,
        rules.len() as int,
    );
    let entries = view.days@[d].entries@;
    let all = crate::calendar::shown(entries);
    assert(all == timed + windows);
    assert(all.len() == entries.len());
    assert(all[i] == entries[i]@);
    if i < timed.len() {
        0
    } else {
        assert(all[i] == windows[i - timed.len()]);
        lemma_window_lane(rules, thresholds, solar, first, rules.len() as int, i - timed.len())
    }
}

/// Each light rule has a lane of its own on a day, below what is timed, and every entry lies in a
/// lane of its day.
pub proof fn law_light_rules_have_lanes(
    view: WeekCalendarView,
    rules: Seq<AutomationRule>,
    thresholds: Seq<Thresholds>,
    weather: WeatherStatus,
    slots: Seq<TimedSlot>,
    spans: Seq<Span>,
    d: int,
    i: int,
    j: int,
    left: int,
    right: int,
)
    requires
        crate::calendar::shows_week(view, rules, thresholds, weather, slots, spans),
        identities_differ(rules),
        0 <= d < 7,
        0 <= i < view.days@[d].entries@.len(),
        0 <= j < view.days@[d].entries@.len(),
        0 <= left < rules.len() && 0 <= right < rules.len(),
        view.days@[d].entries@[i].rule_id == rules[left].id,
        view.days@[d].entries@[j].rule_id == rules[right].id,
    ensures
        ({
            let first = view.days@[d].entries@[i];
            let second = view.days@[d].entries@[j];
            &&& first.lane < view.days@[d].lane_count
            &&& !(rules[left].trigger is LightLevel) ==> first.lane == 0
            &&& rules[left].trigger is LightLevel && rules[right].trigger is LightLevel ==> (
            first.lane == second.lane <==> left == right)
            &&& rules[left].trigger is LightLevel && !(rules[right].trigger is LightLevel)
                ==> first.lane > second.lane
        }),
{
    let monday = week_begins(weather.current_day as int);
    let day = monday + d;
    let solar = crate::schedule::solar_for(weather.solar_days@, day);
    let timed = crate::calendar::timed_entries(
        rules,
        slots,
        spans,
        weather.solar_days@,
        monday,
        d,
    );
    let lane = crate::calendar::first_light_lane(timed);
    lemma_timed_lane(view, rules, thresholds, weather, slots, spans, d, i, left);
    lemma_timed_lane(view, rules, thresholds, weather, slots, spans, d, j, right);
    let a = lemma_day_lanes(view, rules, thresholds, weather, slots, spans, d, i);
    let b = lemma_day_lanes(view, rules, thresholds, weather, slots, spans, d, j);
    if i >= timed.len() {
        assert(rules[a].id == rules[left].id);
        assert(a == left);
        lemma_lanes_ascend(rules, solar, lane, 0, a);
        lemma_lanes_ascend(rules, solar, lane, a, rules.len() as int);
    }
    if j >= timed.len() {
        assert(rules[b].id == rules[right].id);
        assert(b == right);
        lemma_lanes_ascend(rules, solar, lane, 0, b);
    }
    if i >= timed.len() && j >= timed.len() {
        if a < b {
            lemma_lanes_ascend(rules, solar, lane, a, b);
        } else if b < a {
            lemma_lanes_ascend(rules, solar, lane, b, a);
        }
    }
}

/// What is timed lies in the first lane of a day, and what is not is no light rule's.
proof fn lemma_timed_lane(
    view: WeekCalendarView,
    rules: Seq<AutomationRule>,
    thresholds: Seq<Thresholds>,
    weather: WeatherStatus,
    slots: Seq<TimedSlot>,
    spans: Seq<Span>,
    d: int,
    i: int,
    rule: int,
)
    requires
        crate::calendar::shows_week(view, rules, thresholds, weather, slots, spans),
        identities_differ(rules),
        0 <= d < 7,
        0 <= i < view.days@[d].entries@.len(),
        0 <= rule < rules.len(),
        view.days@[d].entries@[i].rule_id == rules[rule].id,
    ensures
        ({
            let timed = crate::calendar::timed_entries(
                rules,
                slots,
                spans,
                weather.solar_days@,
                week_begins(weather.current_day as int),
                d,
            );
            &&& i < timed.len() <==> !(rules[rule].trigger is LightLevel)
            &&& i < timed.len() ==> view.days@[d].entries@[i].lane == 0
        }),
{
    let monday = week_begins(weather.current_day as int);
    let day = monday + d;
    let solar = crate::schedule::solar_for(weather.solar_days@, day);
    let (states, points, windows, lane) = lemma_entries(
        view,
        rules,
        thresholds,
        weather,
        slots,
        spans,
        d,
    );
    let entry = view.days@[d].entries@[i]@;
    assert(entry.rule_id == rules[rule].id);
    if i < states.len() {
        let span = lemma_span_of(
            rules,
            spans,
            monday * 1_440,
            (monday + 7) * 1_440,
            day,
            spans.len() as int,
            i,
        );
        lemma_span_is_timed(spans, slots, rules, weather.solar_days@, monday, span);
        assert(rules[spans[span].rule as int].id == rules[rule].id);
        assert(spans[span].rule == rule);
    } else if i < states.len() + points.len() {
        let other = lemma_point_of(rules, slots, day, solar, rules.len() as int, i - states.len());
        assert(rules[other].id == rules[rule].id);
    } else {
        let (other, piece) = lemma_window_of(
            rules,
            thresholds,
            solar,
            lane,
            rules.len() as int,
            i - states.len() - points.len(),
        );
        assert(rules[other].id == rules[rule].id);
    }
}

/// The names of rules.
pub open spec fn names_of(rules: Seq<AutomationRule>, listed: Seq<int>) -> Seq<Seq<char>> {
    listed.map_values(|rule: int| rules[rule].name@)
}

/// Whether rules are listed in the order in which they were added: those that act at a moment, but
/// for the one that wins it.
pub open spec fn losers(
    rules: Seq<AutomationRule>,
    forecast: Seq<SolarForecastDay>,
    today: int,
    winner: int,
    at: int,
    listed: Seq<int>,
) -> bool {
    &&& listed.len() > 0
    &&& forall|rule: int| #[trigger]
        listed.contains(rule) <==> rule != winner && acts_at(rules, forecast, today, rule, at)
    &&& forall|i: int, j: int|
        0 <= i < j < listed.len() ==> rules[#[trigger] listed[i]].id < rules[#[trigger] listed[j]].id
}

/// A conflict in words: when it is, who wins it, and over whom.
pub open spec fn tells_conflict(
    rules: Seq<AutomationRule>,
    winner: int,
    at: int,
    listed: Seq<int>,
) -> Seq<char> {
    named_weekday(at / 1_440) + " at "@ + crate::clock::minute_clock((at % 1_440) as nat) + ": "@
        + rules[winner].name@ + " wins over "@ + crate::text::joined(
        names_of(rules, listed),
        ", "@,
    ) + " because it was added most recently."@
}

proof fn lemma_loser_names(
    rules: Seq<AutomationRule>,
    listed: Seq<usize>,
    id: u64,
    count: int,
)
    requires
        0 <= count <= listed.len(),
        forall|j: int| 0 <= j < count ==> rules[(#[trigger] listed[j]) as int].id != id,
    ensures
        crate::calendar::loser_names(rules, listed, id, count) == names_of(
            rules,
            listed.take(count).map_values(|rule: usize| rule as int),
        ),
    decreases count,
{
    let shown = names_of(rules, listed.take(count).map_values(|rule: usize| rule as int));
    if count > 0 {
        lemma_loser_names(rules, listed, id, count - 1);
        assert(rules[listed[count - 1] as int].id != id);
        let before = names_of(
            rules,
            listed.take(count - 1).map_values(|rule: usize| rule as int),
        );
        assert(shown =~= before.push(rules[listed[count - 1] as int].name@));
    } else {
        assert(shown =~= seq![]);
    }
}

/// The losers of a slot are the rules that it lists, but for the last.
proof fn lemma_losers(
    slots: Seq<TimedSlot>,
    rules: Seq<AutomationRule>,
    forecast: Seq<SolarForecastDay>,
    today: int,
    k: int,
) -> (listed: Seq<int>)
    requires
        crate::schedule::holds_events(slots, rules, forecast, week_begins(today)),
        identities_differ(rules),
        0 <= k < slots.len(),
        slots[k].rules@.len() >= 2,
    ensures
        losers(
            rules,
            forecast,
            today,
            crate::schedule::winner(slots[k]),
            slots[k].at as int,
            listed,
        ),
        crate::calendar::conflict_text(rules, slots[k]) == tells_conflict(
            rules,
            crate::schedule::winner(slots[k]),
            slots[k].at as int,
            listed,
        ),
{
    let slot = slots[k];
    let at = slot.at as int;
    let all = slot.rules@;
    let last = all.len() - 1;
    let winner = crate::schedule::winner(slot);
    let listed = all.take(last).map_values(|rule: usize| rule as int);
    assert(crate::schedule::slot_in_order(rules, slot));
    assert(all[last] == winner);
    assert forall|j: int| 0 <= j < last implies rules[(#[trigger] all[j]) as int].id
        < rules[winner].id by {
        assert(crate::schedule::added_before(rules, all[j] as int, all[last] as int));
        assert(all[j] < rules.len());
    }
    lemma_loser_names(rules, all, rules[winner].id, last);
    assert(crate::calendar::loser_names(rules, all, rules[winner].id, all.len() as int)
        == crate::calendar::loser_names(rules, all, rules[winner].id, last));
    lemma_named_weekday(at / 1_440);
    assert forall|rule: int| #[trigger] listed.contains(rule) implies rule != winner && acts_at(
        rules,
        forecast,
        today,
        rule,
        at,
    ) by {
        let j = choose|j: int| 0 <= j < listed.len() && listed[j] == rule;
        assert(all[j] == rule);
        assert(crate::schedule::lists(slot, rule));
        assert(crate::schedule::scheduled(slots, rule, at));
        lemma_acts_at(rules, forecast, today, rule, at);
    }
    assert forall|rule: int| rule != winner && acts_at(rules, forecast, today, rule, at) implies
        #[trigger] listed.contains(rule) by {
        let (l, j) = lemma_slot_at(slots, rules, forecast, today, rule, at);
        if l < k {
            assert(slots[l].at < slots[k].at);
        } else if k < l {
            assert(slots[k].at < slots[l].at);
        }
        assert(all[j] == rule);
        assert(listed[j] == rule);
    }
    assert forall|i: int, j: int| 0 <= i < j < listed.len() implies rules[#[trigger] listed[i]].id
        < rules[#[trigger] listed[j]].id by {
        assert(crate::schedule::added_before(rules, all[i] as int, all[j] as int));
        assert(all[i] < rules.len() && all[j] < rules.len());
    }
    listed
}

proof fn lemma_conflict_text_of(
    rules: Seq<AutomationRule>,
    slots: Seq<TimedSlot>,
    week_start: int,
    week_end: int,
    count: int,
    index: int,
) -> (k: int)
    requires
        0 <= count <= slots.len(),
        0 <= index < crate::calendar::conflict_texts(
            rules,
            slots,
            week_start,
            week_end,
            count,
        ).len(),
    ensures
        0 <= k < count,
        week_start <= slots[k].at < week_end,
        slots[k].rules@.len() >= 2,
        crate::calendar::conflict_texts(rules, slots, week_start, week_end, count)[index]
            == crate::calendar::conflict_text(rules, slots[k]),
    decreases count,
{
    let front = crate::calendar::conflict_texts(rules, slots, week_start, week_end, count - 1);
    if index < front.len() {
        lemma_conflict_text_of(rules, slots, week_start, week_end, count - 1, index)
    } else {
        count - 1
    }
}

proof fn lemma_conflict_shown(
    rules: Seq<AutomationRule>,
    slots: Seq<TimedSlot>,
    week_start: int,
    week_end: int,
    count: int,
    k: int,
) -> (index: int)
    requires
        0 <= k < count <= slots.len(),
        week_start <= slots[k].at < week_end,
        slots[k].rules@.len() >= 2,
    ensures
        0 <= index < crate::calendar::conflict_texts(
            rules,
            slots,
            week_start,
            week_end,
            count,
        ).len(),
        crate::calendar::conflict_texts(rules, slots, week_start, week_end, count)[index]
            == crate::calendar::conflict_text(rules, slots[k]),
    decreases count,
{
    let front = crate::calendar::conflict_texts(rules, slots, week_start, week_end, count - 1);
    if k == count - 1 {
        front.len() as int
    } else {
        lemma_conflict_shown(rules, slots, week_start, week_end, count - 1, k)
    }
}

/// Each moment of the week at which several enabled rules act is told as a conflict, which the rule
/// added last wins over all the others.
#[verifier::spinoff_prover]
#[verifier::rlimit(60)]
pub proof fn law_conflicts_are_told(
    view: WeekCalendarView,
    rules: Seq<AutomationRule>,
    thresholds: Seq<Thresholds>,
    weather: WeatherStatus,
    slots: Seq<TimedSlot>,
    spans: Seq<Span>,
    winner: int,
    other: int,
    at: int,
) -> (told: (int, Seq<int>))
    requires
        crate::calendar::shows_week(view, rules, thresholds, weather, slots, spans),
        identities_differ(rules),
        week_begins(weather.current_day as int) * 1_440 <= at < (week_begins(
            weather.current_day as int,
        ) + 7) * 1_440,
        last_word(
            rules,
            weather.solar_days@,
            weather.current_day as int,
            at,
            winner,
            at,
        ),
        other != winner,
        acts_at(rules, weather.solar_days@, weather.current_day as int, other, at),
    ensures
        0 <= told.0 < view.conflicts@.len(),
        losers(
            rules,
            weather.solar_days@,
            weather.current_day as int,
            winner,
            at,
            told.1,
        ),
        view.conflicts@[told.0].detail@ == tells_conflict(rules, winner, at, told.1),
{
    let today = weather.current_day as int;
    let forecast = weather.solar_days@;
    let monday = week_begins(today);
    lemma_week_events(view, rules, thresholds, weather, slots, spans);
    lemma_last_word(slots, rules, forecast, today, at, winner, at);
    let k = crate::spans::slots_until(slots, at) - 1;
    let (l, j) = lemma_slot_at(slots, rules, forecast, today, other, at);
    assert(slots[l] == slots[k]) by {
        if l < k {
            assert(slots[l].at < slots[k].at);
        } else if k < l {
            assert(slots[k].at < slots[l].at);
        }
    }
    let listed = lemma_conflict(slots, rules, forecast, today, k, j);
    let index = lemma_conflict_shown(
        rules,
        slots,
        monday * 1_440,
        (monday + 7) * 1_440,
        slots.len() as int,
        k,
    );
    let told = crate::calendar::conflict_details(view.conflicts@);
    assert(crate::calendar::monday_of(today) == monday);
    assert(told.len() == view.conflicts@.len());
    assert(told[index] == view.conflicts@[index].detail@);
    (index, listed)
}

proof fn lemma_conflict(
    slots: Seq<TimedSlot>,
    rules: Seq<AutomationRule>,
    forecast: Seq<SolarForecastDay>,
    today: int,
    k: int,
    j: int,
) -> (listed: Seq<int>)
    requires
        crate::schedule::holds_events(slots, rules, forecast, week_begins(today)),
        identities_differ(rules),
        0 <= k < slots.len(),
        0 <= j < slots[k].rules@.len(),
        slots[k].rules@[j] != crate::schedule::winner(slots[k]),
    ensures
        slots[k].rules@.len() >= 2,
        losers(
            rules,
            forecast,
            today,
            crate::schedule::winner(slots[k]),
            slots[k].at as int,
            listed,
        ),
        crate::calendar::conflict_text(rules, slots[k]) == tells_conflict(
            rules,
            crate::schedule::winner(slots[k]),
            slots[k].at as int,
            listed,
        ),
{
    if slots[k].rules@.len() < 2 {
        assert(slots[k].rules@.last() == slots[k].rules@[0]);
    }
    lemma_losers(slots, rules, forecast, today, k)
}

/// Each conflict that is told is one: several enabled rules act at a moment of the week.
#[verifier::spinoff_prover]
#[verifier::rlimit(60)]
pub proof fn law_told_conflicts_are_conflicts(
    view: WeekCalendarView,
    rules: Seq<AutomationRule>,
    thresholds: Seq<Thresholds>,
    weather: WeatherStatus,
    slots: Seq<TimedSlot>,
    spans: Seq<Span>,
    index: int,
) -> (conflict: (int, int, Seq<int>))
    requires
        crate::calendar::shows_week(view, rules, thresholds, weather, slots, spans),
        identities_differ(rules),
        0 <= index < view.conflicts@.len(),
    ensures
        ({
            let today = weather.current_day as int;
            let forecast = weather.solar_days@;
            let (winner, at, listed) = conflict;
            &&& week_begins(today) * 1_440 <= at < (week_begins(today) + 7) * 1_440
            &&& last_word(rules, forecast, today, at, winner, at)
            &&& losers(rules, forecast, today, winner, at, listed)
            &&& view.conflicts@[index].detail@ == tells_conflict(rules, winner, at, listed)
        }),
{
    let today = weather.current_day as int;
    let forecast = weather.solar_days@;
    let monday = week_begins(today);
    lemma_week_events(view, rules, thresholds, weather, slots, spans);
    assert(crate::calendar::monday_of(today) == monday);
    let told = crate::calendar::conflict_details(view.conflicts@);
    assert(told.len() == view.conflicts@.len());
    assert(told[index] == view.conflicts@[index].detail@);
    let k = lemma_conflict_text_of(
        rules,
        slots,
        monday * 1_440,
        (monday + 7) * 1_440,
        slots.len() as int,
        index,
    );
    lemma_slot_has_last_word(slots, rules, forecast, today, k);
    let listed = lemma_losers(slots, rules, forecast, today, k);
    (crate::schedule::winner(slots[k]), slots[k].at as int, listed)
}

proof fn lemma_lane_below(
    rules: Seq<AutomationRule>,
    solar: Option<SolarForecastDay>,
    first_lane: int,
    count: int,
) -> (rule: int)
    requires
        0 <= count <= rules.len(),
        crate::calendar::lanes_after(rules, solar, first_lane, count) > first_lane,
    ensures
        0 <= rule < count,
        crate::calendar::window_pieces(rules[rule], solar).len() > 0,
        crate::calendar::lanes_after(rules, solar, first_lane, rule)
            == crate::calendar::lanes_after(rules, solar, first_lane, count) - 1,
    decreases count,
{
    if crate::calendar::window_pieces(rules[count - 1], solar).len() > 0 {
        count - 1
    } else {
        lemma_lane_below(rules, solar, first_lane, count - 1)
    }
}

/// The entry of a light rule that is shown on a day lies in the lane of the rule.
proof fn lemma_entry_in_lane(
    view: WeekCalendarView,
    rules: Seq<AutomationRule>,
    thresholds: Seq<Thresholds>,
    weather: WeatherStatus,
    slots: Seq<TimedSlot>,
    spans: Seq<Span>,
    d: int,
    rule: int,
) -> (i: int)
    requires
        crate::calendar::shows_week(view, rules, thresholds, weather, slots, spans),
        identities_differ(rules),
        0 <= d < 7,
        0 <= rule < rules.len(),
        crate::calendar::window_pieces(
            rules[rule],
            crate::schedule::solar_for(
                weather.solar_days@,
                week_begins(weather.current_day as int) + d,
            ),
        ).len() > 0,
    ensures
        ({
            let monday = week_begins(weather.current_day as int);
            let timed = crate::calendar::timed_entries(
                rules,
                slots,
                spans,
                weather.solar_days@,
                monday,
                d,
            );
            &&& 0 <= i < view.days@[d].entries@.len()
            &&& view.days@[d].entries@[i].lane == crate::calendar::lanes_after(
                rules,
                crate::schedule::solar_for(weather.solar_days@, monday + d),
                crate::calendar::first_light_lane(timed),
                rule,
            )
        }),
{
    let monday = week_begins(weather.current_day as int);
    let solar = crate::schedule::solar_for(weather.solar_days@, monday + d);
    let (states, points, windows, lane) = lemma_entries(
        view,
        rules,
        thresholds,
        weather,
        slots,
        spans,
        d,
    );
    let index = lemma_window_shown(
        rules,
        thresholds,
        solar,
        lane,
        rules.len() as int,
        rule,
        0,
    );
    let i = states.len() + points.len() + index;
    let entry = view.days@[d].entries@[i];
    assert(entry@ == windows[index]);
    assert(entry.rule_id == rules[rule].id);
    let other = lemma_day_lanes(view, rules, thresholds, weather, slots, spans, d, i);
    assert(crate::calendar::timed_entries(
        rules,
        slots,
        spans,
        weather.solar_days@,
        monday,
        d,
    ).len() == states.len() + points.len());
    assert(rules[other].id == rules[rule].id);
    assert(other == rule);
    i
}

/// The lanes of a day are used from the first on, without a gap, and there are no more of them than
/// are used, but for one where there is nothing to show.
#[verifier::spinoff_prover]
#[verifier::rlimit(60)]
pub proof fn law_lanes_have_no_gap(
    view: WeekCalendarView,
    rules: Seq<AutomationRule>,
    thresholds: Seq<Thresholds>,
    weather: WeatherStatus,
    slots: Seq<TimedSlot>,
    spans: Seq<Span>,
    d: int,
    i: int,
)
    requires
        crate::calendar::shows_week(view, rules, thresholds, weather, slots, spans),
        identities_differ(rules),
        0 <= d < 7,
        0 <= i < view.days@[d].entries@.len(),
    ensures
        view.days@[d].entries@[i].lane > 0 ==> exists|j: int|
            0 <= j < view.days@[d].entries@.len() && (#[trigger] view.days@[d].entries@[j]).lane
                == view.days@[d].entries@[i].lane - 1,
        view.days@[d].lane_count > 1 ==> exists|j: int|
            0 <= j < view.days@[d].entries@.len() && (#[trigger] view.days@[d].entries@[j]).lane
                == view.days@[d].lane_count - 1,
{
    let monday = week_begins(weather.current_day as int);
    let solar = crate::schedule::solar_for(weather.solar_days@, monday + d);
    let timed = crate::calendar::timed_entries(
        rules,
        slots,
        spans,
        weather.solar_days@,
        monday,
        d,
    );
    let first = crate::calendar::first_light_lane(timed);
    let entries = view.days@[d].entries@;
    let rule = lemma_day_lanes(view, rules, thresholds, weather, slots, spans, d, i);
    lemma_first_lane(view, rules, thresholds, weather, slots, spans, d, i);
    if i >= timed.len() && entries[i].lane > first {
        let below = lemma_lane_below(rules, solar, first, rule);
        let j = lemma_entry_in_lane(view, rules, thresholds, weather, slots, spans, d, below);
        assert(entries[j].lane == entries[i].lane - 1);
    } else if entries[i].lane > 0 {
        if i >= timed.len() {
            lemma_lanes_ascend(rules, solar, first, 0, rule);
        }
        assert(timed.len() > 0);
        lemma_first_lane(view, rules, thresholds, weather, slots, spans, d, 0);
        assert(entries[0].lane == 0);
    }
    if view.days@[d].lane_count > 1 {
        let below = lemma_lane_below(rules, solar, first, rules.len() as int);
        let j = lemma_entry_in_lane(view, rules, thresholds, weather, slots, spans, d, below);
        assert(entries[j].lane == view.days@[d].lane_count - 1);
    }
}

proof fn lemma_first_lane(
    view: WeekCalendarView,
    rules: Seq<AutomationRule>,
    thresholds: Seq<Thresholds>,
    weather: WeatherStatus,
    slots: Seq<TimedSlot>,
    spans: Seq<Span>,
    d: int,
    i: int,
)
    requires
        crate::calendar::shows_week(view, rules, thresholds, weather, slots, spans),
        0 <= d < 7,
        0 <= i < view.days@[d].entries@.len(),
    ensures
        ({
            let monday = week_begins(weather.current_day as int);
            let timed = crate::calendar::timed_entries(
                rules,
                slots,
                spans,
                weather.solar_days@,
                monday,
                d,
            );
            let lanes = crate::calendar::lanes_after(
                rules,
                crate::schedule::solar_for(weather.solar_days@, monday + d),
                crate::calendar::first_light_lane(timed),
                rules.len() as int,
            );
            &&& i < timed.len() ==> view.days@[d].entries@[i].lane == 0
            &&& view.days@[d].lane_count == (if lanes < 1 {
                1
            } else {
                lanes
            })
        }),
{
    let monday = week_begins(weather.current_day as int);
    let day = monday + d;
    let solar = crate::schedule::solar_for(weather.solar_days@, day);
    assert(crate::calendar::monday_of(weather.current_day as int) == monday);
    assert(crate::calendar::shows_day(
        view.days@[d],
        rules,
        thresholds,
        slots,
        spans,
        weather.solar_days@,
        monday,
        weather.current_day as int,
        d,
    ));
    let (states, points, windows, lane) = lemma_entries(
        view,
        rules,
        thresholds,
        weather,
        slots,
        spans,
        d,
    );
    let entry = view.days@[d].entries@[i]@;
    if i < states.len() {
        let span = lemma_span_of(
            rules,
            spans,
            monday * 1_440,
            (monday + 7) * 1_440,
            day,
            spans.len() as int,
            i,
        );
        assert(entry.lane == 0);
    } else if i < states.len() + points.len() {
        let other = lemma_point_of(rules, slots, day, solar, rules.len() as int, i - states.len());
        assert(entry.lane == 0);
    }
}

} // verus!
