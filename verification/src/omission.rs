//! What a calendar keeps when a disabled rule is left out of it.
use crate::automation::AutomationRule;
use crate::calendar::{CalendarSummaryView, Thresholds, WeekCalendarView};
use crate::schedule::TimedSlot;
use crate::spans::Span;
use crate::weather::{SolarForecastDay, WeatherStatus};
use vstd::prelude::*;

verus! {

/// The place among all rules of a rule at a place among the rules without one.
pub open spec fn shifted(left_out: int, index: int) -> int {
    if index < left_out {
        index
    } else {
        index + 1
    }
}

/// Whether two slots of one moment list the same rules, the second by places among the rules
/// without one.
pub open spec fn slot_alike(slot: TimedSlot, fewer: TimedSlot, left_out: int) -> bool {
    &&& slot.at == fewer.at
    &&& slot.rules@.len() == fewer.rules@.len()
    &&& forall|j: int|
        0 <= j < slot.rules@.len() ==> #[trigger] slot.rules@[j] == shifted(
            left_out,
            fewer.rules@[j] as int,
        )
}

/// Whether two lists of slots agree slot by slot.
pub open spec fn slots_alike(slots: Seq<TimedSlot>, fewer: Seq<TimedSlot>, left_out: int) -> bool {
    &&& slots.len() == fewer.len()
    &&& forall|k: int| 0 <= k < slots.len() ==> slot_alike(#[trigger] slots[k], fewer[k], left_out)
}

/// Whether two spans last equally long, and have the same rule.
pub open spec fn span_alike(span: Span, fewer: Span, left_out: int) -> bool {
    &&& span.start == fewer.start
    &&& span.end == fewer.end
    &&& span.rule == shifted(left_out, fewer.rule as int)
}

/// Whether two summaries say the same.
pub open spec fn same_summary(
    summary: Option<CalendarSummaryView>,
    other: Option<CalendarSummaryView>,
) -> bool {
    match (summary, other) {
        (Some(summary), Some(other)) => summary.state@ == other.state@ && match (
            summary.next,
            other.next,
        ) {
            (Some(next), Some(other_next)) => next@ == other_next@,
            (None, None) => true,
            _ => false,
        },
        (None, None) => true,
        _ => false,
    }
}

/// Sequences that are ordered alike and hold the same are equal.
proof fn lemma_same_order<A>(left: Seq<A>, right: Seq<A>, before: spec_fn(A, A) -> bool)
    requires
        forall|a: A, b: A| #[trigger] before(a, b) ==> !before(b, a),
        forall|i: int, j: int| 0 <= i < j < left.len() ==> before(left[i], left[j]),
        forall|i: int, j: int| 0 <= i < j < right.len() ==> before(right[i], right[j]),
        forall|a: A| #[trigger] left.contains(a) <==> right.contains(a),
    ensures
        left == right,
    decreases left.len(),
{
    if left.len() == 0 {
        if right.len() > 0 {
            assert(right.contains(right[0]));
            assert(left.contains(right[0]));
        }
        assert(left =~= right);
    } else {
        assert(left.contains(left.last()));
        assert(right.contains(left.last()));
        let j = choose|j: int| 0 <= j < right.len() && right[j] == left.last();
        assert(right.contains(right.last()));
        assert(left.contains(right.last()));
        let i = choose|i: int| 0 <= i < left.len() && left[i] == right.last();
        if j < right.len() - 1 {
            assert(before(right[j], right[right.len() - 1]));
            if i < left.len() - 1 {
                assert(before(left[i], left[left.len() - 1]));
            }
        }
        assert(left.last() == right.last());
        assert forall|a: A| #[trigger] left.drop_last().contains(a) <==> right.drop_last().contains(
            a,
        ) by {
            if left.drop_last().contains(a) {
                let m = choose|m: int| 0 <= m < left.drop_last().len() && left.drop_last()[m] == a;
                assert(left[m] == a && before(left[m], left[left.len() - 1]));
                assert(left.contains(a));
                let n = choose|n: int| 0 <= n < right.len() && right[n] == a;
                if n == right.len() - 1 {
                    assert(before(a, a));
                }
                assert(right.drop_last()[n] == a);
            }
            if right.drop_last().contains(a) {
                let m = choose|m: int| 0 <= m < right.drop_last().len() && right.drop_last()[m] == a;
                assert(right[m] == a && before(right[m], right[right.len() - 1]));
                assert(right.contains(a));
                assert(left.contains(a));
                let n = choose|n: int| 0 <= n < left.len() && left[n] == a;
                if n == left.len() - 1 {
                    assert(before(a, a));
                }
                assert(left.drop_last()[n] == a);
            }
        }
        assert forall|i: int, j: int| 0 <= i < j < left.drop_last().len() implies before(
            left.drop_last()[i],
            left.drop_last()[j],
        ) by {
            assert(before(left[i], left[j]));
        }
        assert forall|i: int, j: int| 0 <= i < j < right.drop_last().len() implies before(
            right.drop_last()[i],
            right.drop_last()[j],
        ) by {
            assert(before(right[i], right[j]));
        }
        lemma_same_order(left.drop_last(), right.drop_last(), before);
        assert(left =~= left.drop_last().push(left.last()));
        assert(right =~= right.drop_last().push(right.last()));
    }
}

/// The moments of slots.
spec fn moments(slots: Seq<TimedSlot>) -> Seq<int> {
    slots.map_values(|slot: TimedSlot| slot.at as int)
}

proof fn lemma_listed(
    slots: Seq<TimedSlot>,
    rules: Seq<AutomationRule>,
    forecast: Seq<SolarForecastDay>,
    monday: int,
    k: int,
    rule: int,
)
    requires
        crate::schedule::holds_events(slots, rules, forecast, monday),
        0 <= k < slots.len(),
    ensures
        crate::schedule::lists(slots[k], rule) <==> 0 <= rule < rules.len()
            && crate::schedule::fires(rules, forecast, monday, rule, slots[k].at as int),
{
    let at = slots[k].at as int;
    assert(crate::schedule::slot_in_order(rules, slots[k]));
    if crate::schedule::lists(slots[k], rule) {
        assert(crate::schedule::scheduled(slots, rule, at));
    }
    if 0 <= rule < rules.len() && crate::schedule::fires(rules, forecast, monday, rule, at) {
        assert(crate::schedule::scheduled(slots, rule, at));
        let l = choose|l: int|
            0 <= l < slots.len() && (#[trigger] slots[l]).at == at && crate::schedule::lists(
                slots[l],
                rule,
            );
        if l < k {
            assert(slots[l].at < slots[k].at);
        } else if k < l {
            assert(slots[k].at < slots[l].at);
        }
    }
}

proof fn lemma_moment(
    slots: Seq<TimedSlot>,
    rules: Seq<AutomationRule>,
    forecast: Seq<SolarForecastDay>,
    monday: int,
    rule: int,
    at: int,
) -> (k: int)
    requires
        crate::schedule::holds_events(slots, rules, forecast, monday),
        0 <= rule < rules.len(),
        crate::schedule::fires(rules, forecast, monday, rule, at),
    ensures
        0 <= k < slots.len(),
        slots[k].at == at,
{
    assert(crate::schedule::scheduled(slots, rule, at));
    choose|k: int|
        0 <= k < slots.len() && (#[trigger] slots[k]).at == at && crate::schedule::lists(
            slots[k],
            rule,
        )
}

proof fn lemma_first_rule(
    slots: Seq<TimedSlot>,
    rules: Seq<AutomationRule>,
    forecast: Seq<SolarForecastDay>,
    monday: int,
    k: int,
) -> (rule: int)
    requires
        crate::schedule::holds_events(slots, rules, forecast, monday),
        0 <= k < slots.len(),
    ensures
        0 <= rule < rules.len(),
        crate::schedule::fires(rules, forecast, monday, rule, slots[k].at as int),
{
    assert(crate::schedule::slot_in_order(rules, slots[k]));
    let rule = slots[k].rules@[0] as int;
    assert(crate::schedule::lists(slots[k], rule));
    lemma_listed(slots, rules, forecast, monday, k, rule);
    rule
}

proof fn lemma_fires_alike(
    rules: Seq<AutomationRule>,
    forecast: Seq<SolarForecastDay>,
    monday: int,
    left_out: int,
    index: int,
    at: int,
)
    requires
        0 <= left_out < rules.len(),
        0 <= index < rules.len() - 1,
    ensures
        crate::schedule::fires(rules.remove(left_out), forecast, monday, index, at)
            <==> crate::schedule::fires(rules, forecast, monday, shifted(left_out, index), at),
{
    assert(rules.remove(left_out)[index] == rules[shifted(left_out, index)]);
}

/// The place of a rule among the rules without another.
spec fn closed_up(left_out: int, rule: int) -> int {
    if rule < left_out {
        rule
    } else {
        rule - 1
    }
}

proof fn lemma_moments_alike(
    slots: Seq<TimedSlot>,
    fewer: Seq<TimedSlot>,
    rules: Seq<AutomationRule>,
    forecast: Seq<SolarForecastDay>,
    monday: int,
    left_out: int,
)
    requires
        0 <= left_out < rules.len(),
        !rules[left_out].enabled,
        crate::schedule::holds_events(slots, rules, forecast, monday),
        crate::schedule::holds_events(fewer, rules.remove(left_out), forecast, monday),
    ensures
        moments(slots) == moments(fewer),
{
    let without = rules.remove(left_out);
    assert forall|at: int| #[trigger] moments(slots).contains(at) <==> moments(fewer).contains(
        at,
    ) by {
        if moments(slots).contains(at) {
            let k = choose|k: int| 0 <= k < moments(slots).len() && moments(slots)[k] == at;
            let rule = lemma_first_rule(slots, rules, forecast, monday, k);
            let index = closed_up(left_out, rule);
            lemma_fires_alike(rules, forecast, monday, left_out, index, at);
            let l = lemma_moment(fewer, without, forecast, monday, index, at);
            assert(moments(fewer)[l] == at);
        }
        if moments(fewer).contains(at) {
            let k = choose|k: int| 0 <= k < moments(fewer).len() && moments(fewer)[k] == at;
            let index = lemma_first_rule(fewer, without, forecast, monday, k);
            lemma_fires_alike(rules, forecast, monday, left_out, index, at);
            let l = lemma_moment(slots, rules, forecast, monday, shifted(left_out, index), at);
            assert(moments(slots)[l] == at);
        }
    }
    lemma_same_order(moments(slots), moments(fewer), |a: int, b: int| a < b);
}

proof fn lemma_slot_alike(
    slots: Seq<TimedSlot>,
    fewer: Seq<TimedSlot>,
    rules: Seq<AutomationRule>,
    forecast: Seq<SolarForecastDay>,
    monday: int,
    left_out: int,
    k: int,
)
    requires
        0 <= left_out < rules.len(),
        !rules[left_out].enabled,
        crate::schedule::holds_events(slots, rules, forecast, monday),
        crate::schedule::holds_events(fewer, rules.remove(left_out), forecast, monday),
        0 <= k < slots.len(),
        k < fewer.len(),
        slots[k].at == fewer[k].at,
    ensures
        slot_alike(slots[k], fewer[k], left_out),
{
    let without = rules.remove(left_out);
    let at = slots[k].at as int;
    let left = slots[k].rules@.map_values(|rule: usize| rule as int);
    let right = fewer[k].rules@.map_values(|rule: usize| shifted(left_out, rule as int));
    let before = |a: int, b: int| crate::schedule::added_before(rules, a, b);
    assert(crate::schedule::slot_in_order(rules, slots[k]));
    assert(crate::schedule::slot_in_order(without, fewer[k]));
    assert forall|i: int, j: int| 0 <= i < j < left.len() implies before(left[i], left[j]) by {
        assert(crate::schedule::added_before(
            rules,
            slots[k].rules@[i] as int,
            slots[k].rules@[j] as int,
        ));
    }
    assert forall|i: int, j: int| 0 <= i < j < right.len() implies before(right[i], right[j]) by {
        let a = fewer[k].rules@[i] as int;
        let b = fewer[k].rules@[j] as int;
        assert(crate::schedule::added_before(without, a, b));
        assert(without[a] == rules[shifted(left_out, a)]);
        assert(without[b] == rules[shifted(left_out, b)]);
    }
    assert forall|rule: int| #[trigger] left.contains(rule) <==> right.contains(rule) by {
        if left.contains(rule) {
            let i = choose|i: int| 0 <= i < left.len() && left[i] == rule;
            assert(slots[k].rules@[i] == rule);
            assert(crate::schedule::lists(slots[k], rule));
            lemma_listed(slots, rules, forecast, monday, k, rule);
            let index = closed_up(left_out, rule);
            lemma_fires_alike(rules, forecast, monday, left_out, index, at);
            lemma_listed(fewer, without, forecast, monday, k, index);
            let j = choose|j: int|
                0 <= j < fewer[k].rules@.len() && #[trigger] fewer[k].rules@[j] == index;
            assert(right[j] == rule);
        }
        if right.contains(rule) {
            let j = choose|j: int| 0 <= j < right.len() && right[j] == rule;
            let index = fewer[k].rules@[j] as int;
            assert(crate::schedule::lists(fewer[k], index));
            lemma_listed(fewer, without, forecast, monday, k, index);
            lemma_fires_alike(rules, forecast, monday, left_out, index, at);
            lemma_listed(slots, rules, forecast, monday, k, rule);
            let i = choose|i: int|
                0 <= i < slots[k].rules@.len() && #[trigger] slots[k].rules@[i] == rule;
            assert(left[i] == rule);
        }
    }
    lemma_same_order(left, right, before);
    assert forall|j: int| 0 <= j < slots[k].rules@.len() implies #[trigger] slots[k].rules@[j]
        == shifted(left_out, fewer[k].rules@[j] as int) by {
        assert(left[j] == right[j]);
    }
}

/// Leaving out a disabled rule keeps the slots.
proof fn lemma_slots_alike(
    slots: Seq<TimedSlot>,
    fewer: Seq<TimedSlot>,
    rules: Seq<AutomationRule>,
    forecast: Seq<SolarForecastDay>,
    monday: int,
    left_out: int,
)
    requires
        0 <= left_out < rules.len(),
        !rules[left_out].enabled,
        crate::schedule::holds_events(slots, rules, forecast, monday),
        crate::schedule::holds_events(fewer, rules.remove(left_out), forecast, monday),
    ensures
        slots_alike(slots, fewer, left_out),
{
    lemma_moments_alike(slots, fewer, rules, forecast, monday, left_out);
    assert(moments(slots).len() == slots.len() && moments(fewer).len() == fewer.len());
    assert forall|k: int| 0 <= k < slots.len() implies slot_alike(
        #[trigger] slots[k],
        fewer[k],
        left_out,
    ) by {
        assert(moments(slots)[k] == moments(fewer)[k]);
        lemma_slot_alike(slots, fewer, rules, forecast, monday, left_out, k);
    }
}

/// Whether slots are those of rules, and those of the rules without one agree with them.
spec fn agree(
    slots: Seq<TimedSlot>,
    fewer: Seq<TimedSlot>,
    rules: Seq<AutomationRule>,
    left_out: int,
) -> bool {
    &&& 0 <= left_out < rules.len()
    &&& crate::schedule::slots_in_order(rules, slots)
    &&& crate::schedule::slots_in_order(rules.remove(left_out), fewer)
    &&& slots_alike(slots, fewer, left_out)
}

proof fn lemma_winner(
    slots: Seq<TimedSlot>,
    fewer: Seq<TimedSlot>,
    rules: Seq<AutomationRule>,
    left_out: int,
    k: int,
)
    requires
        agree(slots, fewer, rules, left_out),
        0 <= k < slots.len(),
    ensures
        slots[k].at == fewer[k].at,
        crate::schedule::winner(slots[k]) == shifted(left_out, crate::schedule::winner(fewer[k])),
        0 <= crate::schedule::winner(fewer[k]) < rules.len() - 1,
        rules[crate::schedule::winner(slots[k])] == rules.remove(left_out)[crate::schedule::winner(
            fewer[k],
        )],
{
    assert(slot_alike(slots[k], fewer[k], left_out));
    assert(crate::schedule::slot_in_order(rules, slots[k]));
    assert(crate::schedule::slot_in_order(rules.remove(left_out), fewer[k]));
    let last = slots[k].rules@.len() - 1;
    assert(slots[k].rules@[last] == shifted(left_out, fewer[k].rules@[last] as int));
}

proof fn lemma_until(
    slots: Seq<TimedSlot>,
    fewer: Seq<TimedSlot>,
    rules: Seq<AutomationRule>,
    left_out: int,
    moment: int,
)
    requires
        agree(slots, fewer, rules, left_out),
    ensures
        crate::spans::slots_until(slots, moment) == crate::spans::slots_until(fewer, moment),
        0 <= crate::spans::slots_until(slots, moment) <= slots.len(),
{
    crate::spans::lemma_slots_until(slots, moment);
    crate::spans::lemma_slots_until(fewer, moment);
    let left = crate::spans::slots_until(slots, moment);
    let right = crate::spans::slots_until(fewer, moment);
    if left < right {
        lemma_winner(slots, fewer, rules, left_out, left);
        assert(fewer[left].at <= moment);
        assert(slots[left].at > moment);
    } else if right < left {
        lemma_winner(slots, fewer, rules, left_out, right);
        assert(slots[right].at <= moment);
        assert(fewer[right].at > moment);
    }
}

proof fn lemma_ruling(
    slots: Seq<TimedSlot>,
    fewer: Seq<TimedSlot>,
    rules: Seq<AutomationRule>,
    left_out: int,
    moment: int,
)
    requires
        agree(slots, fewer, rules, left_out),
    ensures
        match (crate::spans::ruling(slots, moment), crate::spans::ruling(fewer, moment)) {
            (Some(rule), Some(index)) => rule == shifted(left_out, index) && rules[rule]
                == rules.remove(left_out)[index],
            (None, None) => true,
            _ => false,
        },
{
    lemma_until(slots, fewer, rules, left_out, moment);
    let count = crate::spans::slots_until(slots, moment);
    if count > 0 {
        lemma_winner(slots, fewer, rules, left_out, count - 1);
    }
}

proof fn lemma_next_change(
    slots: Seq<TimedSlot>,
    fewer: Seq<TimedSlot>,
    rules: Seq<AutomationRule>,
    left_out: int,
    on: bool,
    from: int,
)
    requires
        agree(slots, fewer, rules, left_out),
        0 <= from <= slots.len(),
    ensures
        crate::calendar::next_change(slots, rules, on, from) == crate::calendar::next_change(
            fewer,
            rules.remove(left_out),
            on,
            from,
        ),
        crate::calendar::next_change(slots, rules, on, from) matches Some(change) ==> 0 <= change
            < slots.len(),
    decreases slots.len() - from,
{
    if from < slots.len() {
        lemma_winner(slots, fewer, rules, left_out, from);
        lemma_next_change(slots, fewer, rules, left_out, on, from + 1);
    }
}

proof fn lemma_losers(
    slots: Seq<TimedSlot>,
    fewer: Seq<TimedSlot>,
    rules: Seq<AutomationRule>,
    left_out: int,
    k: int,
    id: u64,
    count: int,
)
    requires
        agree(slots, fewer, rules, left_out),
        0 <= k < slots.len(),
        0 <= count <= slots[k].rules@.len(),
    ensures
        crate::calendar::loser_names(rules, slots[k].rules@, id, count)
            == crate::calendar::loser_names(
            rules.remove(left_out),
            fewer[k].rules@,
            id,
            count,
        ),
    decreases count,
{
    if count > 0 {
        lemma_losers(slots, fewer, rules, left_out, k, id, count - 1);
        assert(slot_alike(slots[k], fewer[k], left_out));
        assert(crate::schedule::slot_in_order(rules.remove(left_out), fewer[k]));
        let index = fewer[k].rules@[count - 1] as int;
        assert(slots[k].rules@[count - 1] == shifted(left_out, index));
        assert(rules.remove(left_out)[index] == rules[shifted(left_out, index)]);
    }
}

proof fn lemma_conflicts(
    slots: Seq<TimedSlot>,
    fewer: Seq<TimedSlot>,
    rules: Seq<AutomationRule>,
    left_out: int,
    week_start: int,
    week_end: int,
    count: int,
)
    requires
        agree(slots, fewer, rules, left_out),
        0 <= count <= slots.len(),
    ensures
        crate::calendar::conflict_texts(rules, slots, week_start, week_end, count)
            == crate::calendar::conflict_texts(
            rules.remove(left_out),
            fewer,
            week_start,
            week_end,
            count,
        ),
    decreases count,
{
    if count > 0 {
        let k = count - 1;
        lemma_conflicts(slots, fewer, rules, left_out, week_start, week_end, k);
        lemma_winner(slots, fewer, rules, left_out, k);
        assert(slot_alike(slots[k], fewer[k], left_out));
        let winner = rules[crate::schedule::winner(slots[k])];
        lemma_losers(
            slots,
            fewer,
            rules,
            left_out,
            k,
            winner.id,
            slots[k].rules@.len() as int,
        );
    }
}

/// A span has one rule only.
proof fn lemma_span_rule(
    slots: Seq<TimedSlot>,
    fewer: Seq<TimedSlot>,
    rules: Seq<AutomationRule>,
    left_out: int,
    week_start: int,
    span: Span,
    other: Span,
)
    requires
        agree(slots, fewer, rules, left_out),
        span.start == other.start,
        span.start < span.end,
        other.start < other.end,
        crate::spans::established(span, slots, rules, week_start),
        crate::spans::established(other, fewer, rules.remove(left_out), week_start),
        crate::spans::lasts(span, slots, rules),
        crate::spans::lasts(other, fewer, rules.remove(left_out)),
    ensures
        span.rule == shifted(left_out, other.rule as int),
{
    let without = rules.remove(left_out);
    let start = span.start as int;
    lemma_ruling(slots, fewer, rules, left_out, start);
    lemma_ruling(slots, fewer, rules, left_out, week_start - 1);
    crate::spans::lemma_slots_until(slots, start);
    crate::spans::lemma_slots_until(slots, start - 1);
    lemma_until(slots, fewer, rules, left_out, start);
    lemma_until(slots, fewer, rules, left_out, start - 1);
    assert(crate::spans::ruling(slots, start) is Some);
    assert(crate::spans::ruling(fewer, start) is Some);
    if exists|k: int| crate::spans::begins_with(span, slots, rules, k) {
        let k = choose|k: int| crate::spans::begins_with(span, slots, rules, k);
        lemma_counts_at(slots, rules, k);
        lemma_winner(slots, fewer, rules, left_out, k);
        if exists|l: int| crate::spans::begins_with(other, fewer, without, l) {
            let l = choose|l: int| crate::spans::begins_with(other, fewer, without, l);
            lemma_winner(slots, fewer, rules, left_out, l);
            if l < k {
                assert(slots[l].at < slots[k].at);
            } else if k < l {
                assert(slots[k].at < slots[l].at);
            }
        } else if k > 0 {
            lemma_winner(slots, fewer, rules, left_out, k - 1);
        }
    } else if exists|l: int| crate::spans::begins_with(other, fewer, without, l) {
        let l = choose|l: int| crate::spans::begins_with(other, fewer, without, l);
        lemma_winner(slots, fewer, rules, left_out, l);
        lemma_counts_at(slots, rules, l);
        if l > 0 {
            lemma_winner(slots, fewer, rules, left_out, l - 1);
        }
    }
}

proof fn lemma_counts_at(slots: Seq<TimedSlot>, rules: Seq<AutomationRule>, k: int)
    requires
        crate::schedule::slots_in_order(rules, slots),
        0 <= k < slots.len(),
    ensures
        crate::spans::slots_until(slots, slots[k].at as int) == k + 1,
        crate::spans::slots_until(slots, slots[k].at - 1) == k,
{
    let at = slots[k].at as int;
    crate::spans::lemma_slots_until(slots, at);
    crate::spans::lemma_slots_until(slots, at - 1);
    let count = crate::spans::slots_until(slots, at);
    let earlier = crate::spans::slots_until(slots, at - 1);
    if count > k + 1 {
        assert(slots[k].at < slots[k + 1].at);
    }
    if earlier < k {
        assert(slots[earlier].at < slots[k].at);
    }
}

proof fn lemma_spans_alike(
    slots: Seq<TimedSlot>,
    fewer: Seq<TimedSlot>,
    rules: Seq<AutomationRule>,
    left_out: int,
    week_start: int,
    week_end: int,
    spans: Seq<Span>,
    others: Seq<Span>,
    i: int,
)
    requires
        agree(slots, fewer, rules, left_out),
        crate::spans::are_spans(spans, slots, rules, week_start, week_end),
        crate::spans::are_spans(others, fewer, rules.remove(left_out), week_start, week_end),
        0 <= i < spans.len(),
        i < others.len(),
    ensures
        span_alike(spans[i], others[i], left_out),
    decreases i,
{
    let without = rules.remove(left_out);
    if i > 0 {
        lemma_spans_alike(
            slots,
            fewer,
            rules,
            left_out,
            week_start,
            week_end,
            spans,
            others,
            i - 1,
        );
        assert(spans[i - 1].end == spans[i].start);
        assert(others[i - 1].end == others[i].start);
    } else {
        lemma_ruling(slots, fewer, rules, left_out, week_start - 1);
        lemma_ruling(slots, fewer, rules, left_out, week_end - 1);
        lemma_until(slots, fewer, rules, left_out, week_end - 1);
        crate::spans::lemma_slots_until(slots, week_end - 1);
        lemma_winner(slots, fewer, rules, left_out, 0);
    }
    let span = spans[i];
    let other = others[i];
    lemma_span_rule(slots, fewer, rules, left_out, week_start, span, other);
    assert(rules[span.rule as int] == without[other.rule as int]);
    if span.end < other.end {
        let moment = span.end as int;
        assert(i + 1 < spans.len());
        let next = spans[i + 1];
        assert(span.end == next.start && rules[span.rule as int].turn_on
            != rules[next.rule as int].turn_on);
        assert(crate::spans::lasts(next, slots, rules));
        assert(crate::spans::lasts(other, fewer, without));
        lemma_ruling(slots, fewer, rules, left_out, moment);
    } else if other.end < span.end {
        let moment = other.end as int;
        assert(i + 1 < others.len());
        let next = others[i + 1];
        assert(other.end == next.start && without[other.rule as int].turn_on
            != without[next.rule as int].turn_on);
        assert(crate::spans::lasts(next, fewer, without));
        assert(crate::spans::lasts(span, slots, rules));
        lemma_ruling(slots, fewer, rules, left_out, moment);
    }
}

proof fn lemma_span_count(
    slots: Seq<TimedSlot>,
    fewer: Seq<TimedSlot>,
    rules: Seq<AutomationRule>,
    left_out: int,
    week_start: int,
    week_end: int,
    spans: Seq<Span>,
    others: Seq<Span>,
)
    requires
        agree(slots, fewer, rules, left_out),
        crate::spans::are_spans(spans, slots, rules, week_start, week_end),
        crate::spans::are_spans(others, fewer, rules.remove(left_out), week_start, week_end),
    ensures
        spans.len() == others.len(),
{
    lemma_ruling(slots, fewer, rules, left_out, week_end - 1);
    if spans.len() > 0 && others.len() > 0 {
        let last = if spans.len() < others.len() {
            spans.len() - 1
        } else {
            others.len() - 1
        };
        lemma_spans_alike(
            slots,
            fewer,
            rules,
            left_out,
            week_start,
            week_end,
            spans,
            others,
            last,
        );
        if spans.len() < others.len() {
            assert(others[last].end == others[last + 1].start);
        } else if others.len() < spans.len() {
            assert(spans[last].end == spans[last + 1].start);
        }
    }
}

proof fn lemma_entries(
    rules: Seq<AutomationRule>,
    left_out: int,
    spans: Seq<Span>,
    others: Seq<Span>,
    week_start: int,
    week_end: int,
    day: int,
    count: int,
)
    requires
        0 <= left_out < rules.len(),
        0 <= count <= spans.len(),
        spans.len() == others.len(),
        forall|i: int|
            0 <= i < spans.len() ==> span_alike(#[trigger] spans[i], others[i], left_out)
                && others[i].rule < rules.len() - 1,
    ensures
        crate::calendar::span_entries(rules, spans, week_start, week_end, day, count)
            == crate::calendar::span_entries(
            rules.remove(left_out),
            others,
            week_start,
            week_end,
            day,
            count,
        ),
    decreases count,
{
    if count > 0 {
        lemma_entries(rules, left_out, spans, others, week_start, week_end, day, count - 1);
        let span = spans[count - 1];
        let other = others[count - 1];
        assert(span_alike(span, other, left_out));
        assert(rules.remove(left_out)[other.rule as int] == rules[span.rule as int]);
    }
}

proof fn lemma_summary(
    summary: Option<CalendarSummaryView>,
    other: Option<CalendarSummaryView>,
    slots: Seq<TimedSlot>,
    fewer: Seq<TimedSlot>,
    rules: Seq<AutomationRule>,
    left_out: int,
    now: int,
)
    requires
        agree(slots, fewer, rules, left_out),
        crate::calendar::summarises(summary, slots, rules, now),
        crate::calendar::summarises(other, fewer, rules.remove(left_out), now),
    ensures
        same_summary(summary, other),
{
    lemma_ruling(slots, fewer, rules, left_out, now);
    lemma_until(slots, fewer, rules, left_out, now);
    if crate::spans::ruling(slots, now) is Some {
        let on = rules[crate::spans::ruling(slots, now)->0].turn_on;
        let from = crate::spans::slots_until(slots, now);
        lemma_next_change(slots, fewer, rules, left_out, on, from);
        match crate::calendar::next_change(slots, rules, on, from) {
            Some(change) => {
                lemma_winner(slots, fewer, rules, left_out, change);
                assert(crate::calendar::change_text(slots, rules, now, change)
                    == crate::calendar::change_text(fewer, rules.remove(left_out), now, change));
            },
            None => {},
        }
    }
}

/// Whether two lists of spans agree span by span.
pub open spec fn spans_alike(spans: Seq<Span>, fewer: Seq<Span>, left_out: int) -> bool {
    &&& spans.len() == fewer.len()
    &&& forall|i: int| 0 <= i < spans.len() ==> span_alike(#[trigger] spans[i], fewer[i], left_out)
}

proof fn lemma_states(
    slots: Seq<TimedSlot>,
    fewer: Seq<TimedSlot>,
    rules: Seq<AutomationRule>,
    left_out: int,
    week_start: int,
    week_end: int,
    spans: Seq<Span>,
    others: Seq<Span>,
    day: int,
)
    requires
        agree(slots, fewer, rules, left_out),
        crate::spans::are_spans(spans, slots, rules, week_start, week_end),
        crate::spans::are_spans(others, fewer, rules.remove(left_out), week_start, week_end),
    ensures
        spans_alike(spans, others, left_out),
        crate::calendar::span_entries(
            rules,
            spans,
            week_start,
            week_end,
            day,
            spans.len() as int,
        ) == crate::calendar::span_entries(
            rules.remove(left_out),
            others,
            week_start,
            week_end,
            day,
            others.len() as int,
        ),
{
    lemma_span_count(slots, fewer, rules, left_out, week_start, week_end, spans, others);
    lemma_ruling(slots, fewer, rules, left_out, week_end - 1);
    assert forall|i: int| 0 <= i < spans.len() implies span_alike(
        #[trigger] spans[i],
        others[i],
        left_out,
    ) && others[i].rule < rules.len() - 1 by {
        lemma_spans_alike(
            slots,
            fewer,
            rules,
            left_out,
            week_start,
            week_end,
            spans,
            others,
            i,
        );
        assert(others[i].rule < rules.remove(left_out).len());
    }
    lemma_entries(
        rules,
        left_out,
        spans,
        others,
        week_start,
        week_end,
        day,
        spans.len() as int,
    );
}

/// A disabled rule takes no part in a calendar: one of the rules without it has the same summary,
/// the same conflicts, the same spans, and shows the same states on each day.
pub proof fn law_disabled_rules_change_no_state(
    view: WeekCalendarView,
    other: WeekCalendarView,
    rules: Seq<AutomationRule>,
    thresholds: Seq<Thresholds>,
    fewer_thresholds: Seq<Thresholds>,
    weather: WeatherStatus,
    slots: Seq<TimedSlot>,
    fewer: Seq<TimedSlot>,
    spans: Seq<Span>,
    others: Seq<Span>,
    left_out: int,
    day: int,
)
    requires
        0 <= left_out < rules.len(),
        !rules[left_out].enabled,
        crate::calendar::shows_week(view, rules, thresholds, weather, slots, spans),
        crate::calendar::shows_week(
            other,
            rules.remove(left_out),
            fewer_thresholds,
            weather,
            fewer,
            others,
        ),
    ensures
        same_summary(view.summary, other.summary),
        crate::calendar::conflict_details(view.conflicts@) == crate::calendar::conflict_details(
            other.conflicts@,
        ),
        spans_alike(spans, others, left_out),
        ({
            let monday = crate::calendar::monday_of(weather.current_day as int);
            crate::calendar::span_entries(
                rules,
                spans,
                monday * 1_440,
                (monday + 7) * 1_440,
                day,
                spans.len() as int,
            ) == crate::calendar::span_entries(
                rules.remove(left_out),
                others,
                monday * 1_440,
                (monday + 7) * 1_440,
                day,
                others.len() as int,
            )
        }),
{
    let monday = crate::calendar::monday_of(weather.current_day as int);
    let week_start = monday * 1_440;
    let week_end = (monday + 7) * 1_440;
    let now = weather.current_day * 1_440 + weather.current_minute;
    lemma_slots_alike(slots, fewer, rules, weather.solar_days@, monday, left_out);
    lemma_summary(view.summary, other.summary, slots, fewer, rules, left_out, now);
    lemma_conflicts(slots, fewer, rules, left_out, week_start, week_end, slots.len() as int);
    lemma_states(slots, fewer, rules, left_out, week_start, week_end, spans, others, day);
}

} // verus!
