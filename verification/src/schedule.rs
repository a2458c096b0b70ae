//! The timed events of the weeks around now, and the states that follow from them.
//!
//! Moments are counted in minutes of local time from the epoch.
use crate::automation::{AutomationRule, AutomationTrigger, SolarEvent};
use crate::clock::{remainder, weekday_index};
use crate::weather::SolarForecastDay;
use vstd::prelude::*;

verus! {

/// What the sun does on a day; of several forecasts the last counts.
pub open spec fn solar_for(forecast: Seq<SolarForecastDay>, day: int) -> Option<SolarForecastDay>
    decreases forecast.len(),
{
    if forecast.len() == 0 {
        None
    } else if forecast.last().day == day {
        Some(forecast.last())
    } else {
        solar_for(forecast.drop_last(), day)
    }
}

/// What the sun does on a day.
pub fn solar_on(forecast: &Vec<SolarForecastDay>, day: i128) -> (solar: Option<SolarForecastDay>)
    ensures
        solar == solar_for(forecast@, day as int),
{
    let mut count: usize = forecast.len();
    proof {
        assert(forecast@.take(forecast@.len() as int) =~= forecast@);
    }
    while count > 0
        invariant
            count <= forecast@.len(),
            solar_for(forecast@, day as int) == solar_for(forecast@.take(count as int), day as int),
        decreases count,
    {
        proof {
            assert(forecast@.take(count as int).drop_last() =~= forecast@.take(count - 1));
        }
        if forecast[count - 1].day as i128 == day {
            return Some(forecast[count - 1]);
        }
        count = count - 1;
    }
    None
}

/// The minute of the day at which the sun does something, moved by an offset round the clock.
pub open spec fn solar_minute(
    event: SolarEvent,
    offset_minutes: int,
    solar: SolarForecastDay,
) -> int {
    let minute = match event {
        SolarEvent::Sunrise => solar.sunrise_minute as int,
        SolarEvent::Sunset => solar.sunset_minute as int,
    };
    (minute + offset_minutes) % 1_440
}

/// The minute of the day at which the sun does something, moved by an offset round the clock.
pub fn solar_event_minute(event: SolarEvent, offset_minutes: i16, solar: SolarForecastDay) -> (
    minute: u16)
    ensures
        minute == solar_minute(event, offset_minutes as int, solar),
        minute < 1_440,
{
    let minute: u16 = match event {
        SolarEvent::Sunrise => solar.sunrise_minute,
        SolarEvent::Sunset => solar.sunset_minute,
    };
    remainder(minute as i128 + offset_minutes as i128, 1_440) as u16
}

/// The minute at which a timed rule acts on a day, if it does.
pub open spec fn timed_minute(
    rule: AutomationRule,
    day: int,
    solar: Option<SolarForecastDay>,
) -> Option<int> {
    let weekday = crate::clock::weekday(day);
    match rule.trigger {
        AutomationTrigger::FixedTime { minute_of_day, weekdays } => if weekdays[weekday] {
            Some(minute_of_day as int)
        } else {
            None
        },
        AutomationTrigger::Solar { event, offset_minutes, weekdays } => if weekdays[weekday]
            && solar is Some {
            Some(solar_minute(event, offset_minutes as int, solar->0))
        } else {
            None
        },
        AutomationTrigger::LightLevel { .. } => None,
    }
}

/// The minute at which a timed rule acts on a day, if it does.
pub fn calendar_timed_event(
    rule: &AutomationRule,
    day: i128,
    solar: Option<SolarForecastDay>,
) -> (minute: Option<u16>)
    requires
        crate::clock::day_in_range(day as int),
    ensures
        match minute {
            Some(minute) => timed_minute(*rule, day as int, solar) == Some(minute as int),
            None => timed_minute(*rule, day as int, solar) is None,
        },
{
    let weekday: usize = weekday_index(day);
    match rule.trigger {
        AutomationTrigger::FixedTime { minute_of_day, weekdays } => if weekdays[weekday] {
            Some(minute_of_day)
        } else {
            None
        },
        AutomationTrigger::Solar { event, offset_minutes, weekdays } => if weekdays[weekday] {
            match solar {
                Some(solar) => Some(solar_event_minute(event, offset_minutes, solar)),
                None => None,
            }
        } else {
            None
        },
        AutomationTrigger::LightLevel { .. } => None,
    }
}

/// The moment at which a timed rule acts on a day, if it does.
pub open spec fn event_at(
    rule: AutomationRule,
    forecast: Seq<SolarForecastDay>,
    day: int,
) -> Option<int> {
    match timed_minute(rule, day, solar_for(forecast, day)) {
        Some(minute) => Some(day * 1_440 + minute),
        None => None,
    }
}

/// Whether a day is among the three weeks around the week that begins on a Monday.
pub open spec fn in_horizon(monday: int, day: int) -> bool {
    monday - 7 <= day < monday + 14
}

/// Whether an enabled timed rule acts at a moment of the three weeks.
pub open spec fn fires(
    rules: Seq<AutomationRule>,
    forecast: Seq<SolarForecastDay>,
    monday: int,
    rule: int,
    at: int,
) -> bool {
    &&& rules[rule].enabled
    &&& exists|day: int|
        in_horizon(monday, day) && #[trigger] event_at(rules[rule], forecast, day) == Some(at)
}

/// Rules that act at one moment.
#[derive(Debug)]
pub struct TimedSlot {
    pub at: i128,
    pub rules: Vec<usize>,
}

/// Whether a rule was added before another: it has the smaller identity.
pub open spec fn added_before(rules: Seq<AutomationRule>, left: int, right: int) -> bool {
    rules[left].id < rules[right].id || (rules[left].id == rules[right].id && left < right)
}

/// Whether a slot lists a rule.
pub open spec fn lists(slot: TimedSlot, rule: int) -> bool {
    exists|j: int| 0 <= j < slot.rules@.len() && #[trigger] slot.rules@[j] == rule
}

/// Whether the moments of slots ascend strictly.
pub open spec fn moments_ascend(slots: Seq<TimedSlot>) -> bool {
    forall|k: int, l: int|
        0 <= k < l < slots.len() ==> (#[trigger] slots[k]).at < (#[trigger] slots[l]).at
}

/// Whether the rules of a slot are rules, at least one, in the order in which they were added.
pub open spec fn slot_in_order(rules: Seq<AutomationRule>, slot: TimedSlot) -> bool {
    &&& slot.rules@.len() > 0
    &&& forall|j: int| 0 <= j < slot.rules@.len() ==> #[trigger] slot.rules@[j] < rules.len()
    &&& forall|i: int, j: int|
        0 <= i < j < slot.rules@.len() ==> added_before(
            rules,
            #[trigger] slot.rules@[i] as int,
            #[trigger] slot.rules@[j] as int,
        )
}

/// Whether slots are well formed.
pub open spec fn slots_in_order(rules: Seq<AutomationRule>, slots: Seq<TimedSlot>) -> bool {
    &&& moments_ascend(slots)
    &&& forall|k: int| 0 <= k < slots.len() ==> slot_in_order(rules, #[trigger] slots[k])
}

/// Whether some slot lists a rule at a moment.
pub open spec fn scheduled(slots: Seq<TimedSlot>, rule: int, at: int) -> bool {
    exists|k: int| 0 <= k < slots.len() && (#[trigger] slots[k]).at == at && lists(slots[k], rule)
}

/// Whether slots hold the timed events of three weeks: at each moment exactly the enabled
/// rules that act then.
pub open spec fn holds_events(
    slots: Seq<TimedSlot>,
    rules: Seq<AutomationRule>,
    forecast: Seq<SolarForecastDay>,
    monday: int,
) -> bool {
    &&& slots_in_order(rules, slots)
    &&& forall|rule: int, at: int|
        #![trigger scheduled(slots, rule, at)]
        0 <= rule < rules.len() ==> (scheduled(slots, rule, at) <==> fires(
            rules,
            forecast,
            monday,
            rule,
            at,
        ))
}

/// A rule acts at a moment on one day only.
proof fn lemma_event_day(
    rule: AutomationRule,
    forecast: Seq<SolarForecastDay>,
    day: int,
    other: int,
)
    requires
        event_at(rule, forecast, day) is Some,
        event_at(rule, forecast, day) == event_at(rule, forecast, other),
    ensures
        day == other,
{
}

/// Whether the pair of a day and a rule comes before another, days first.
spec fn pair_before(day: int, rule: int, next_day: int, next_rule: int) -> bool {
    day < next_day || (day == next_day && rule < next_rule)
}

/// Whether a rule acts at a moment on a day that was dealt with.
spec fn fired_before(
    rules: Seq<AutomationRule>,
    forecast: Seq<SolarForecastDay>,
    monday: int,
    rule: int,
    at: int,
    next_day: int,
    next_rule: int,
) -> bool {
    &&& rules[rule].enabled
    &&& exists|day: int|
        in_horizon(monday, day) && pair_before(day, rule, next_day, next_rule)
            && #[trigger] event_at(rules[rule], forecast, day) == Some(at)
}

spec fn holds_events_before(
    slots: Seq<TimedSlot>,
    rules: Seq<AutomationRule>,
    forecast: Seq<SolarForecastDay>,
    monday: int,
    next_day: int,
    next_rule: int,
) -> bool {
    &&& slots_in_order(rules, slots)
    &&& forall|rule: int, at: int|
        #![trigger scheduled(slots, rule, at)]
        0 <= rule < rules.len() ==> (scheduled(slots, rule, at) <==> fired_before(
            rules,
            forecast,
            monday,
            rule,
            at,
            next_day,
            next_rule,
        ))
}

/// Puts a rule into a slot that does not list it yet.
fn add_to_slot(slot: TimedSlot, rules: &Vec<AutomationRule>, rule: usize) -> (result: TimedSlot)
    requires
        rule < rules@.len(),
        slot_in_order(rules@, slot),
        !lists(slot, rule as int),
    ensures
        result.at == slot.at,
        slot_in_order(rules@, result),
        forall|other: int| #[trigger] lists(result, other) <==> (lists(slot, other) || other == rule),
{
    let mut listed = slot.rules;
    let ghost before = listed@;
    let mut index: usize = 0;
    while index < listed.len() && (rules[listed[index]].id < rules[rule].id || (
    rules[listed[index]].id == rules[rule].id && listed[index] < rule))
        invariant
            listed@ == before,
            rule < rules@.len(),
            index <= listed@.len(),
            forall|j: int| 0 <= j < listed@.len() ==> #[trigger] listed@[j] < rules@.len(),
            forall|j: int|
                0 <= j < index ==> added_before(
                    rules@,
                    #[trigger] listed@[j] as int,
                    rule as int,
                ),
        decreases listed@.len() - index,
    {
        index = index + 1;
    }
    listed.insert(index, rule);
    let result = TimedSlot { at: slot.at, rules: listed };
    proof {
        let after = result.rules@;
        assert(after =~= before.insert(index as int, rule));
        assert(slot.rules@ == before);
        if index < before.len() {
            assert(lists(slot, before[index as int] as int));
            assert(added_before(rules@, rule as int, before[index as int] as int));
        }
        assert forall|i: int, j: int| 0 <= i < j < after.len() implies added_before(
            rules@,
            #[trigger] after[i] as int,
            #[trigger] after[j] as int,
        ) by {
            if j < index {
                assert(after[i] == before[i] && after[j] == before[j]);
            } else if j == index {
                assert(after[i] == before[i]);
            } else if i < index {
                assert(after[i] == before[i] && after[j] == before[j - 1]);
            } else if i == index {
                assert(after[j] == before[j - 1]);
                if j - 1 > index {
                    assert(added_before(
                        rules@,
                        before[index as int] as int,
                        before[j - 1] as int,
                    ));
                }
            } else {
                assert(after[i] == before[i - 1] && after[j] == before[j - 1]);
            }
        }
        assert forall|j: int| 0 <= j < after.len() implies #[trigger] after[j] < rules@.len() by {
            if j < index {
                assert(after[j] == before[j]);
            } else if j > index {
                assert(after[j] == before[j - 1]);
            }
        }
        assert forall|other: int| #[trigger] lists(result, other) <==> (lists(slot, other) || other
            == rule) by {
            if lists(result, other) {
                let j = choose|j: int|
                    0 <= j < result.rules@.len() && #[trigger] result.rules@[j] == other;
                if j < index {
                    assert(slot.rules@[j] == after[j]);
                } else if j > index {
                    assert(slot.rules@[j - 1] == after[j]);
                }
            }
            if lists(slot, other) {
                let j = choose|j: int|
                    0 <= j < slot.rules@.len() && #[trigger] slot.rules@[j] == other;
                if j < index {
                    assert(result.rules@[j] == slot.rules@[j]);
                } else {
                    assert(result.rules@[j + 1] == slot.rules@[j]);
                }
            }
            if other == rule {
                assert(result.rules@[index as int] == rule);
            }
        }
    }
    result
}

/// Enters an event of a rule that is not entered yet.
fn add_event(slots: &mut Vec<TimedSlot>, rules: &Vec<AutomationRule>, rule: usize, at: i128)
    requires
        rule < rules@.len(),
        slots_in_order(rules@, old(slots)@),
        !scheduled(old(slots)@, rule as int, at as int),
    ensures
        slots_in_order(rules@, final(slots)@),
        forall|other: int, moment: int| #[trigger]
            scheduled(final(slots)@, other, moment) <==> (scheduled(old(slots)@, other, moment) || (
            other == rule && moment == at)),
{
    let ghost before = slots@;
    let mut index: usize = 0;
    while index < slots.len() && slots[index].at < at
        invariant
            slots@ == before,
            index <= slots@.len(),
            forall|k: int| 0 <= k < index ==> (#[trigger] slots@[k]).at < at,
        decreases slots@.len() - index,
    {
        index = index + 1;
    }
    if index < slots.len() && slots[index].at == at {
        let slot = slots.remove(index);
        proof {
            assert(!lists(slot, rule as int)) by {
                if lists(slot, rule as int) {
                    assert(before[index as int] == slot);
                    assert(scheduled(before, rule as int, at as int));
                }
            }
        }
        let grown = add_to_slot(slot, rules, rule);
        slots.insert(index, grown);
        proof {
            let after = slots@;
            assert(after =~= before.update(index as int, grown));
            assert(slots_in_order(rules@, after));
            assert forall|other: int, moment: int| #[trigger]
                scheduled(after, other, moment) <==> (scheduled(before, other, moment) || (other
                    == rule && moment == at)) by {
                if scheduled(after, other, moment) {
                    let k = choose|k: int|
                        0 <= k < after.len() && (#[trigger] after[k]).at == moment && lists(
                            after[k],
                            other,
                        );
                    assert(before[k].at == moment);
                    if k != index {
                        assert(lists(before[k], other));
                    }
                }
                if scheduled(before, other, moment) {
                    let k = choose|k: int|
                        0 <= k < before.len() && (#[trigger] before[k]).at == moment && lists(
                            before[k],
                            other,
                        );
                    assert(after[k].at == moment && lists(after[k], other));
                }
                if other == rule && moment == at {
                    assert(after[index as int].at == moment && lists(after[index as int], other));
                }
            }
        }
    } else {
        let mut listed: Vec<usize> = Vec::new();
        listed.push(rule);
        let slot = TimedSlot { at, rules: listed };
        slots.insert(index, slot);
        proof {
            let after = slots@;
            assert(after =~= before.insert(index as int, slot));
            assert(slot.rules@[0] == rule);
            assert(lists(slot, rule as int));
            assert forall|k: int| index <= k < before.len() implies (#[trigger] before[k]).at > at by {
                if k > index {
                    assert(before[index as int].at < before[k].at);
                }
            }
            assert forall|k: int, l: int| 0 <= k < l < after.len() implies (#[trigger] after[k]).at
                < (#[trigger] after[l]).at by {
                if l < index {
                    assert(after[k] == before[k] && after[l] == before[l]);
                } else if l == index {
                    assert(after[k] == before[k]);
                } else if k < index {
                    assert(after[k] == before[k] && after[l] == before[l - 1]);
                } else if k == index {
                    assert(after[l] == before[l - 1]);
                } else {
                    assert(after[k] == before[k - 1] && after[l] == before[l - 1]);
                }
            }
            assert forall|k: int| 0 <= k < after.len() implies slot_in_order(
                rules@,
                #[trigger] after[k],
            ) by {
                if k < index {
                    assert(after[k] == before[k]);
                } else if k > index {
                    assert(after[k] == before[k - 1]);
                }
            }
            assert forall|other: int, moment: int| #[trigger]
                scheduled(after, other, moment) <==> (scheduled(before, other, moment) || (other
                    == rule && moment == at)) by {
                if scheduled(after, other, moment) {
                    let k = choose|k: int|
                        0 <= k < after.len() && (#[trigger] after[k]).at == moment && lists(
                            after[k],
                            other,
                        );
                    if k < index {
                        assert(before[k].at == moment && lists(before[k], other));
                    } else if k > index {
                        assert(before[k - 1].at == moment && lists(before[k - 1], other));
                    }
                }
                if scheduled(before, other, moment) {
                    let k = choose|k: int|
                        0 <= k < before.len() && (#[trigger] before[k]).at == moment && lists(
                            before[k],
                            other,
                        );
                    if k < index {
                        assert(after[k] == before[k]);
                    } else {
                        assert(after[k + 1] == before[k]);
                    }
                }
                if other == rule && moment == at {
                    assert(after[index as int].at == moment && lists(after[index as int], other));
                }
            }
        }
    }
}

/// Whether a Monday is near enough to a day that sixty-four bits count.
pub open spec fn monday_in_range(monday: int) -> bool {
    i64::MIN - 6 <= monday <= i64::MAX
}

/// The timed events of the three weeks around the week that begins on a Monday.
pub fn enabled_timed_events(
    rules: &Vec<AutomationRule>,
    monday: i128,
    forecast: &Vec<SolarForecastDay>,
) -> (slots: Vec<TimedSlot>)
    requires
        monday_in_range(monday as int),
    ensures
        holds_events(slots@, rules@, forecast@, monday as int),
{
    let mut slots: Vec<TimedSlot> = Vec::new();
    let mut day: i128 = monday - 7;
    proof {
        assert forall|rule: int, at: int|
            #![trigger scheduled(slots@, rule, at)]
            0 <= rule < rules@.len() implies (scheduled(slots@, rule, at) <==> fired_before(
            rules@,
            forecast@,
            monday as int,
            rule,
            at,
            day as int,
            0,
        )) by {}
    }
    while day < monday + 14
        invariant
            monday_in_range(monday as int),
            monday - 7 <= day <= monday + 14,
            holds_events_before(slots@, rules@, forecast@, monday as int, day as int, 0),
        decreases monday + 14 - day,
    {
        let solar = solar_on(forecast, day);
        let mut index: usize = 0;
        while index < rules.len()
            invariant
                monday_in_range(monday as int),
                monday - 7 <= day < monday + 14,
                index <= rules@.len(),
                solar == solar_for(forecast@, day as int),
                holds_events_before(
                    slots@,
                    rules@,
                    forecast@,
                    monday as int,
                    day as int,
                    index as int,
                ),
            decreases rules@.len() - index,
        {
            let ghost before = slots@;
            let event = if rules[index].enabled {
                calendar_timed_event(&rules[index], day, solar)
            } else {
                None
            };
            match event {
                Some(minute) => {
                    let at: i128 = day * 1_440 + minute as i128;
                    proof {
                        assert(event_at(rules@[index as int], forecast@, day as int) == Some(
                            at as int,
                        ));
                        if scheduled(before, index as int, at as int) {
                            assert(fired_before(
                                rules@,
                                forecast@,
                                monday as int,
                                index as int,
                                at as int,
                                day as int,
                                index as int,
                            ));
                            let other = choose|other: int|
                                in_horizon(monday as int, other) && pair_before(
                                    other,
                                    index as int,
                                    day as int,
                                    index as int,
                                ) && #[trigger] event_at(rules@[index as int], forecast@, other)
                                    == Some(at as int);
                            lemma_event_day(
                                rules@[index as int],
                                forecast@,
                                day as int,
                                other,
                            );
                        }
                    }
                    add_event(&mut slots, rules, index, at);
                },
                None => {},
            }
            proof {
                lemma_next_pair(
                    before,
                    slots@,
                    rules@,
                    forecast@,
                    monday as int,
                    day as int,
                    index as int,
                );
            }
            index = index + 1;
        }
        proof {
            assert forall|rule: int, at: int|
                #![trigger scheduled(slots@, rule, at)]
                0 <= rule < rules@.len() implies (scheduled(slots@, rule, at) <==> fired_before(
                rules@,
                forecast@,
                monday as int,
                rule,
                at,
                day + 1,
                0,
            )) by {
                lemma_next_day(
                    rules@,
                    forecast@,
                    monday as int,
                    rule,
                    at,
                    day as int,
                    rules@.len() as int,
                );
            }
        }
        day = day + 1;
    }
    proof {
        assert forall|rule: int, at: int|
            #![trigger scheduled(slots@, rule, at)]
            0 <= rule < rules@.len() implies (scheduled(slots@, rule, at) <==> fires(
            rules@,
            forecast@,
            monday as int,
            rule,
            at,
        )) by {
            if fires(rules@, forecast@, monday as int, rule, at) {
                let on = choose|on: int|
                    in_horizon(monday as int, on) && #[trigger] event_at(
                        rules@[rule],
                        forecast@,
                        on,
                    ) == Some(at);
                assert(pair_before(on, rule, day as int, 0));
            }
        }
    }
    slots
}

proof fn lemma_next_day(
    rules: Seq<AutomationRule>,
    forecast: Seq<SolarForecastDay>,
    monday: int,
    rule: int,
    at: int,
    day: int,
    count: int,
)
    requires
        0 <= rule < count,
    ensures
        fired_before(rules, forecast, monday, rule, at, day, count) <==> fired_before(
            rules,
            forecast,
            monday,
            rule,
            at,
            day + 1,
            0,
        ),
{
    if fired_before(rules, forecast, monday, rule, at, day, count) {
        let on = choose|on: int|
            in_horizon(monday, on) && pair_before(on, rule, day, count) && #[trigger] event_at(
                rules[rule],
                forecast,
                on,
            ) == Some(at);
        assert(pair_before(on, rule, day + 1, 0));
    }
    if fired_before(rules, forecast, monday, rule, at, day + 1, 0) {
        let on = choose|on: int|
            in_horizon(monday, on) && pair_before(on, rule, day + 1, 0) && #[trigger] event_at(
                rules[rule],
                forecast,
                on,
            ) == Some(at);
        assert(pair_before(on, rule, day, count));
    }
}

proof fn lemma_next_pair(
    before: Seq<TimedSlot>,
    after: Seq<TimedSlot>,
    rules: Seq<AutomationRule>,
    forecast: Seq<SolarForecastDay>,
    monday: int,
    day: int,
    rule: int,
)
    requires
        0 <= rule < rules.len(),
        in_horizon(monday, day),
        holds_events_before(before, rules, forecast, monday, day, rule),
        slots_in_order(rules, after),
        if rules[rule].enabled && event_at(rules[rule], forecast, day) is Some {
            forall|other: int, moment: int| #[trigger]
                scheduled(after, other, moment) <==> (scheduled(before, other, moment) || (other
                    == rule && moment == event_at(rules[rule], forecast, day)->0))
        } else {
            after == before
        },
    ensures
        holds_events_before(after, rules, forecast, monday, day, rule + 1),
{
    assert forall|other: int, at: int|
        #![trigger scheduled(after, other, at)]
        0 <= other < rules.len() implies (scheduled(after, other, at) <==> fired_before(
        rules,
        forecast,
        monday,
        other,
        at,
        day,
        rule + 1,
    )) by {
        assert(scheduled(before, other, at) <==> fired_before(
            rules,
            forecast,
            monday,
            other,
            at,
            day,
            rule,
        ));
        if fired_before(rules, forecast, monday, other, at, day, rule + 1) {
            let on = choose|on: int|
                in_horizon(monday, on) && pair_before(on, other, day, rule + 1)
                    && #[trigger] event_at(rules[other], forecast, on) == Some(at);
            if !(on == day && other == rule) {
                assert(pair_before(on, other, day, rule));
                assert(fired_before(rules, forecast, monday, other, at, day, rule));
            }
        }
        if fired_before(rules, forecast, monday, other, at, day, rule) {
            let on = choose|on: int|
                in_horizon(monday, on) && pair_before(on, other, day, rule) && #[trigger] event_at(
                    rules[other],
                    forecast,
                    on,
                ) == Some(at);
            assert(pair_before(on, other, day, rule + 1));
        }
        if scheduled(after, other, at) && !scheduled(before, other, at) {
            assert(pair_before(day, other, day, rule + 1));
            assert(event_at(rules[other], forecast, day) == Some(at));
        }
    }
}

/// The rule that wins at a moment: the one added last.
pub open spec fn winner(slot: TimedSlot) -> int {
    slot.rules@.last() as int
}

/// The rule that wins at a moment: the one added last.
pub fn winning_timed_event(slot: &TimedSlot) -> (rule: usize)
    requires
        slot.rules@.len() > 0,
    ensures
        rule == winner(*slot),
{
    slot.rules[slot.rules.len() - 1]
}

/// Of the enabled timed rules that act at one moment, the one with the highest identity wins.
pub proof fn law_highest_identity_wins(
    slots: Seq<TimedSlot>,
    rules: Seq<AutomationRule>,
    forecast: Seq<SolarForecastDay>,
    monday: int,
    k: int,
    rule: int,
)
    requires
        holds_events(slots, rules, forecast, monday),
        0 <= k < slots.len(),
        0 <= rule < rules.len(),
        fires(rules, forecast, monday, rule, slots[k].at as int),
    ensures
        0 <= winner(slots[k]) < rules.len(),
        fires(rules, forecast, monday, winner(slots[k]), slots[k].at as int),
        rules[rule].id <= rules[winner(slots[k])].id,
{
    let at = slots[k].at as int;
    assert(slot_in_order(rules, slots[k]));
    let last = slots[k].rules@.len() - 1;
    assert(slots[k].rules@[last] == winner(slots[k]));
    assert(lists(slots[k], winner(slots[k])));
    assert(scheduled(slots, winner(slots[k]), at));
    assert(scheduled(slots, rule, at));
    let l = choose|l: int|
        0 <= l < slots.len() && (#[trigger] slots[l]).at == at && lists(slots[l], rule);
    if l != k {
        if l < k {
            assert(slots[l].at < slots[k].at);
        } else {
            assert(slots[k].at < slots[l].at);
        }
    }
    let j = choose|j: int| 0 <= j < slots[k].rules@.len() && #[trigger] slots[k].rules@[j] == rule;
    if j < last {
        assert(added_before(rules, slots[k].rules@[j] as int, slots[k].rules@[last] as int));
    }
}

/// A disabled rule never wins a moment, nor loses one.
pub proof fn law_disabled_rules_are_not_scheduled(
    slots: Seq<TimedSlot>,
    rules: Seq<AutomationRule>,
    forecast: Seq<SolarForecastDay>,
    monday: int,
    k: int,
    j: int,
)
    requires
        holds_events(slots, rules, forecast, monday),
        0 <= k < slots.len(),
        0 <= j < slots[k].rules@.len(),
    ensures
        rules[slots[k].rules@[j] as int].enabled,
{
    assert(slot_in_order(rules, slots[k]));
    let rule = slots[k].rules@[j] as int;
    assert(lists(slots[k], rule));
    assert(scheduled(slots, rule, slots[k].at as int));
}

/// A light rule wins no moment, nor loses one: its windows stay apart from what timed rules
/// set.
pub proof fn law_light_rules_are_not_scheduled(
    slots: Seq<TimedSlot>,
    rules: Seq<AutomationRule>,
    forecast: Seq<SolarForecastDay>,
    monday: int,
    k: int,
    j: int,
)
    requires
        holds_events(slots, rules, forecast, monday),
        0 <= k < slots.len(),
        0 <= j < slots[k].rules@.len(),
    ensures
        crate::automation::is_timed(rules[slots[k].rules@[j] as int].trigger),
{
    assert(slot_in_order(rules, slots[k]));
    let rule = slots[k].rules@[j] as int;
    assert(lists(slots[k], rule));
    assert(scheduled(slots, rule, slots[k].at as int));
    assert(fires(rules, forecast, monday, rule, slots[k].at as int));
}

} // verus!
