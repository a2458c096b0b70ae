//! The spans of a week in which timed rules keep a plug on or off.
use crate::automation::AutomationRule;
use crate::schedule::{winning_timed_event, TimedSlot};
use vstd::prelude::*;

verus! {

/// The number of slots up to and at a moment.
pub open spec fn slots_until(slots: Seq<TimedSlot>, moment: int) -> int
    decreases slots.len(),
{
    if slots.len() == 0 {
        0
    } else if slots.last().at <= moment {
        slots.len() as int
    } else {
        slots_until(slots.drop_last(), moment)
    }
}

/// The slots up to and at a moment come first.
pub proof fn lemma_slots_until(slots: Seq<TimedSlot>, moment: int)
    requires
        crate::schedule::moments_ascend(slots),
    ensures
        0 <= slots_until(slots, moment) <= slots.len(),
        forall|i: int|
            0 <= i < slots_until(slots, moment) ==> (#[trigger] slots[i]).at <= moment,
        forall|i: int|
            slots_until(slots, moment) <= i < slots.len() ==> (#[trigger] slots[i]).at > moment,
    decreases slots.len(),
{
    if slots.len() > 0 {
        if slots.last().at <= moment {
            assert forall|i: int| 0 <= i < slots.len() implies (#[trigger] slots[i]).at <= moment by {
                if i < slots.len() - 1 {
                    assert(slots[i].at < slots[slots.len() - 1].at);
                }
            }
        } else {
            let front = slots.drop_last();
            assert forall|k: int, l: int| 0 <= k < l < front.len() implies (#[trigger] front[k]).at
                < (#[trigger] front[l]).at by {
                assert(slots[k].at < slots[l].at);
            }
            lemma_slots_until(front, moment);
            let count = slots_until(front, moment);
            assert forall|i: int| 0 <= i < count implies (#[trigger] slots[i]).at <= moment by {
                assert(front[i] == slots[i]);
            }
            assert forall|i: int| count <= i < slots.len() implies (#[trigger] slots[i]).at
                > moment by {
                if i < front.len() {
                    assert(front[i] == slots[i]);
                }
            }
        }
    }
}

/// The number of slots up to and at a moment.
pub fn count_until(slots: &Vec<TimedSlot>, moment: i128) -> (count: usize)
    requires
        crate::schedule::moments_ascend(slots@),
    ensures
        count == slots_until(slots@, moment as int),
        count <= slots@.len(),
{
    let mut count: usize = slots.len();
    proof {
        assert(slots@.take(slots@.len() as int) =~= slots@);
    }
    while count > 0 && slots[count - 1].at > moment
        invariant
            count <= slots@.len(),
            slots_until(slots@, moment as int) == slots_until(
                slots@.take(count as int),
                moment as int,
            ),
        decreases count,
    {
        proof {
            assert(slots@.take(count as int).drop_last() =~= slots@.take(count - 1));
        }
        count = count - 1;
    }
    count
}

/// The rule that rules at a moment: the winner of the latest slot, if there is any.
pub open spec fn ruling(slots: Seq<TimedSlot>, moment: int) -> Option<int> {
    let count = slots_until(slots, moment);
    if count > 0 {
        Some(crate::schedule::winner(slots[count - 1]))
    } else {
        None
    }
}

/// The state that the winner of a slot sets.
pub open spec fn sets_on(rules: Seq<AutomationRule>, slot: TimedSlot) -> bool {
    rules[crate::schedule::winner(slot)].turn_on
}

/// A span of time in which the state that a rule set lasts.
#[derive(Debug, Clone, Copy, PartialEq, Eq, Structural)]
pub struct Span {
    pub start: i128,
    pub end: i128,
    pub rule: usize,
}

/// Whether a slot changes the state to what a rule sets, or is the first to set one, at the
/// beginning of a span.
pub open spec fn begins_with(
    span: Span,
    slots: Seq<TimedSlot>,
    rules: Seq<AutomationRule>,
    k: int,
) -> bool {
    &&& 0 <= k < slots.len()
    &&& slots[k].at == span.start
    &&& crate::schedule::winner(slots[k]) == span.rule
    &&& k > 0 ==> sets_on(rules, slots[k - 1]) != sets_on(rules, slots[k])
}

/// Whether the rule of a span established its state: at the beginning of the span, or, for a
/// span that the week begins with, at the latest slot before the week.
pub open spec fn established(
    span: Span,
    slots: Seq<TimedSlot>,
    rules: Seq<AutomationRule>,
    week_start: int,
) -> bool {
    ||| exists|k: int| begins_with(span, slots, rules, k)
    ||| span.start == week_start && ruling(slots, week_start - 1) == Some(span.rule as int)
}

/// Whether the state of a span lasts all through it.
pub open spec fn lasts(span: Span, slots: Seq<TimedSlot>, rules: Seq<AutomationRule>) -> bool {
    forall|moment: int|
        #![trigger ruling(slots, moment)]
        span.start <= moment < span.end ==> ruling(slots, moment) is Some && rules[ruling(
            slots,
            moment,
        )->0].turn_on == rules[span.rule as int].turn_on
}

/// Whether spans follow one another without a gap, each with another state than the one
/// before it.
pub open spec fn follow(spans: Seq<Span>, rules: Seq<AutomationRule>) -> bool {
    forall|i: int, j: int|
        #![trigger spans[i], spans[j]]
        0 <= i < spans.len() && j == i + 1 && j < spans.len() ==> spans[i].end == spans[j].start
            && rules[spans[i].rule as int].turn_on != rules[spans[j].rule as int].turn_on
}

/// The moment of a week from which on timed rules set a state: its beginning where a slot
/// precedes it, and else the first slot.
pub open spec fn known_from(slots: Seq<TimedSlot>, week_start: int) -> int {
    if ruling(slots, week_start - 1) is Some {
        week_start
    } else {
        slots[0].at as int
    }
}

/// Whether spans are those of a week, from the moment on from which a state is known. There are
/// none where no slot comes before the end of the week.
pub open spec fn are_spans(
    spans: Seq<Span>,
    slots: Seq<TimedSlot>,
    rules: Seq<AutomationRule>,
    week_start: int,
    week_end: int,
) -> bool {
    if ruling(slots, week_end - 1) is None {
        spans.len() == 0
    } else {
        &&& spans.len() > 0
        &&& spans[0].start == known_from(slots, week_start)
        &&& spans.last().end == week_end
        &&& follow(spans, rules)
        &&& forall|i: int|
            #![trigger spans[i]]
            0 <= i < spans.len() ==> {
                &&& week_start <= spans[i].start < spans[i].end <= week_end
                &&& spans[i].rule < rules.len()
                &&& lasts(spans[i], slots, rules)
                &&& established(spans[i], slots, rules, week_start)
            }
    }
}

/// The spans of a week.
pub fn scheduled_spans(
    slots: &Vec<TimedSlot>,
    rules: &Vec<AutomationRule>,
    week_start: i128,
    week_end: i128,
) -> (spans: Vec<Span>)
    requires
        crate::schedule::slots_in_order(rules@, slots@),
        i128::MIN < week_start < week_end,
    ensures
        are_spans(spans@, slots@, rules@, week_start as int, week_end as int),
{
    let mut spans: Vec<Span> = Vec::new();
    let first: usize = count_until(slots, week_start - 1);
    proof {
        lemma_slots_until(slots@, week_start - 1);
        lemma_slots_until(slots@, week_end - 1);
    }
    if first == 0 && (slots.len() == 0 || slots[0].at >= week_end) {
        return spans;
    }
    let mut state_start: i128 = if first == 0 {
        slots[0].at
    } else {
        week_start
    };
    let mut next: usize = if first == 0 {
        1
    } else {
        first
    };
    let mut state_rule: usize = winning_timed_event(&slots[next - 1]);
    let ghost origin = state_start;
    let ghost begin = next;
    proof {
        assert(slot_rule_known(rules@, slots@[next - 1]));
        assert(ruling(slots@, week_end - 1) is Some);
        assert(origin == known_from(slots@, week_start as int));
        assert forall|moment: int|
            #![trigger ruling(slots@, moment)]
            state_start <= moment && slots_until(slots@, moment) <= next implies ruling(
            slots@,
            moment,
        ) is Some && rules@[ruling(slots@, moment)->0].turn_on
            == rules@[state_rule as int].turn_on by {
            lemma_slots_until(slots@, moment);
        }
        assert forall|i: int| begin <= i < slots@.len() implies origin <= (#[trigger] slots@[i]).at by {
            if first == 0 {
                assert(slots@[0].at < slots@[i].at);
            }
        }
        let span = Span { start: state_start, end: week_end, rule: state_rule };
        if first == 0 {
            assert(begins_with(span, slots@, rules@, 0));
        }
    }
    while next < slots.len() && slots[next].at < week_end
        invariant
            crate::schedule::slots_in_order(rules@, slots@),
            i128::MIN < week_start < week_end,
            0 < begin <= next <= slots@.len(),
            forall|i: int| begin <= i < slots@.len() ==> origin <= (#[trigger] slots@[i]).at,
            week_start <= origin <= state_start < week_end,
            next > begin ==> state_start <= slots@[next - 1].at,
            next == begin ==> state_start == origin && spans@.len() == 0,
            state_rule < rules@.len(),
            rules@[state_rule as int].turn_on == sets_on(rules@, slots@[next - 1]),
            forall|moment: int|
                #![trigger ruling(slots@, moment)]
                state_start <= moment && slots_until(slots@, moment) <= next ==> ruling(
                    slots@,
                    moment,
                ) is Some && rules@[ruling(slots@, moment)->0].turn_on
                    == rules@[state_rule as int].turn_on,
            established(
                (Span { start: state_start, end: week_end, rule: state_rule }),
                slots@,
                rules@,
                week_start as int,
            ),
            spans@.len() == 0 ==> state_start == origin,
            spans@.len() > 0 ==> spans@[0].start == origin && spans@.last().end == state_start
                && rules@[spans@.last().rule as int].turn_on
                != rules@[state_rule as int].turn_on,
            follow(spans@, rules@),
            forall|i: int|
                #![trigger spans@[i]]
                0 <= i < spans@.len() ==> {
                    &&& week_start <= spans@[i].start < spans@[i].end <= week_end
                    &&& spans@[i].rule < rules@.len()
                    &&& lasts(spans@[i], slots@, rules@)
                    &&& established(spans@[i], slots@, rules@, week_start as int)
                },
        decreases slots@.len() - next,
    {
        let at: i128 = slots[next].at;
        let rule: usize = winning_timed_event(&slots[next]);
        proof {
            assert(slot_rule_known(rules@, slots@[next as int]));
            assert(slots@[next - 1].at < slots@[next as int].at);
        }
        let ghost old_start = state_start;
        let ghost old_rule = state_rule;
        if rules[rule].turn_on != rules[state_rule].turn_on {
            if state_start < at {
                let ghost before = spans@;
                let span = Span { start: state_start, end: at, rule: state_rule };
                proof {
                    assert(lasts(span, slots@, rules@)) by {
                        assert forall|moment: int|
                            #![trigger ruling(slots@, moment)]
                            span.start <= moment < span.end implies ruling(slots@, moment) is Some
                            && rules@[ruling(slots@, moment)->0].turn_on
                            == rules@[span.rule as int].turn_on by {
                            lemma_slots_until(slots@, moment);
                            if slots_until(slots@, moment) > next {
                                assert(slots@[next as int].at <= moment);
                            }
                        }
                    }
                    lemma_established_ignores_end(
                        span,
                        (Span { start: state_start, end: week_end, rule: state_rule }),
                        slots@,
                        rules@,
                        week_start as int,
                    );
                }
                spans.push(span);
                proof {
                    assert forall|i: int, j: int|
                        #![trigger spans@[i], spans@[j]]
                        0 <= i < spans@.len() && j == i + 1 && j < spans@.len() implies spans@[i].end
                        == spans@[j].start && rules@[spans@[i].rule as int].turn_on
                        != rules@[spans@[j].rule as int].turn_on by {
                        assert(spans@[i] == before[i]);
                        if j < before.len() {
                            assert(spans@[j] == before[j]);
                        } else {
                            assert(before[i] == before.last());
                        }
                    }
                    assert forall|i: int|
                        #![trigger spans@[i]]
                        0 <= i < spans@.len() implies {
                        &&& week_start <= spans@[i].start < spans@[i].end <= week_end
                        &&& spans@[i].rule < rules@.len()
                        &&& lasts(spans@[i], slots@, rules@)
                        &&& established(spans@[i], slots@, rules@, week_start as int)
                    } by {
                        if i < before.len() {
                            assert(spans@[i] == before[i]);
                        }
                    }
                    if before.len() > 0 {
                        assert(spans@[0] == before[0]);
                    }
                }
            }
            state_start = at;
            state_rule = rule;
            proof {
                let span = Span { start: state_start, end: week_end, rule: state_rule };
                assert(begins_with(span, slots@, rules@, next as int));
            }
        }
        proof {
            assert forall|moment: int|
                #![trigger ruling(slots@, moment)]
                state_start <= moment && slots_until(slots@, moment) <= next + 1 implies ruling(
                slots@,
                moment,
            ) is Some && rules@[ruling(slots@, moment)->0].turn_on
                == rules@[state_rule as int].turn_on by {
                lemma_slots_until(slots@, moment);
                if state_start == at && slots_until(slots@, moment) <= next {
                    assert(slots@[next as int].at > moment);
                }
            }
        }
        next = next + 1;
    }
    let span = Span { start: state_start, end: week_end, rule: state_rule };
    let ghost before = spans@;
    proof {
        assert(lasts(span, slots@, rules@)) by {
            assert forall|moment: int|
                #![trigger ruling(slots@, moment)]
                span.start <= moment < span.end implies ruling(slots@, moment) is Some
                && rules@[ruling(slots@, moment)->0].turn_on
                == rules@[span.rule as int].turn_on by {
                lemma_slots_until(slots@, moment);
                if slots_until(slots@, moment) > next {
                    assert(slots@[next as int].at <= moment);
                }
            }
        }
    }
    spans.push(span);
    proof {
        assert forall|i: int, j: int|
            #![trigger spans@[i], spans@[j]]
            0 <= i < spans@.len() && j == i + 1 && j < spans@.len() implies spans@[i].end
            == spans@[j].start && rules@[spans@[i].rule as int].turn_on
            != rules@[spans@[j].rule as int].turn_on by {
            assert(spans@[i] == before[i]);
            if j < before.len() {
                assert(spans@[j] == before[j]);
            } else {
                assert(before[i] == before.last());
            }
        }
        assert forall|i: int|
            #![trigger spans@[i]]
            0 <= i < spans@.len() implies {
            &&& week_start <= spans@[i].start < spans@[i].end <= week_end
            &&& spans@[i].rule < rules@.len()
            &&& lasts(spans@[i], slots@, rules@)
            &&& established(spans@[i], slots@, rules@, week_start as int)
        } by {
            if i < before.len() {
                assert(spans@[i] == before[i]);
            }
        }
        if before.len() > 0 {
            assert(spans@[0] == before[0]);
        }
    }
    spans
}

spec fn slot_rule_known(rules: Seq<AutomationRule>, slot: TimedSlot) -> bool {
    crate::schedule::slot_in_order(rules, slot) && slot.rules@[slot.rules@.len() - 1] < rules.len()
}

proof fn lemma_established_ignores_end(
    span: Span,
    other: Span,
    slots: Seq<TimedSlot>,
    rules: Seq<AutomationRule>,
    week_start: int,
)
    requires
        span.start == other.start,
        span.rule == other.rule,
        established(other, slots, rules, week_start),
    ensures
        established(span, slots, rules, week_start),
{
    if exists|k: int| begins_with(other, slots, rules, k) {
        let k = choose|k: int| begins_with(other, slots, rules, k);
        assert(begins_with(span, slots, rules, k));
    }
}

/// Every minute of the week by which a timed event is known lies in a span, and the span has
/// the state of the latest event by then.
pub proof fn law_spans_cover_the_week(
    spans: Seq<Span>,
    slots: Seq<TimedSlot>,
    rules: Seq<AutomationRule>,
    week_start: int,
    week_end: int,
    moment: int,
)
    requires
        crate::schedule::moments_ascend(slots),
        are_spans(spans, slots, rules, week_start, week_end),
        ruling(slots, moment) is Some,
        week_start <= moment < week_end,
    ensures
        exists|i: int|
            0 <= i < spans.len() && (#[trigger] spans[i]).start <= moment < spans[i].end
                && rules[ruling(slots, moment)->0].turn_on == rules[spans[i].rule as int].turn_on,
{
    lemma_slots_until(slots, moment);
    lemma_slots_until(slots, week_start - 1);
    lemma_slots_until(slots, week_end - 1);
    assert(slots[0].at <= moment);
    assert(ruling(slots, week_end - 1) is Some);
    let i = lemma_span_of(spans, slots, rules, week_start, week_end, moment, spans.len() - 1);
    assert(lasts(spans[i], slots, rules));
}

proof fn lemma_span_of(
    spans: Seq<Span>,
    slots: Seq<TimedSlot>,
    rules: Seq<AutomationRule>,
    week_start: int,
    week_end: int,
    moment: int,
    last: int,
) -> (index: int)
    requires
        are_spans(spans, slots, rules, week_start, week_end),
        0 <= last < spans.len(),
        spans[0].start <= moment < spans[last].end,
    ensures
        0 <= index <= last,
        spans[index].start <= moment < spans[index].end,
    decreases last,
{
    if spans[last].start <= moment {
        last
    } else {
        assert(spans[last - 1].end == spans[last].start);
        lemma_span_of(spans, slots, rules, week_start, week_end, moment, last - 1)
    }
}

/// No two spans overlap.
pub proof fn law_spans_are_disjoint(
    spans: Seq<Span>,
    slots: Seq<TimedSlot>,
    rules: Seq<AutomationRule>,
    week_start: int,
    week_end: int,
    earlier: int,
    later: int,
)
    requires
        are_spans(spans, slots, rules, week_start, week_end),
        0 <= earlier < later < spans.len(),
    ensures
        spans[earlier].end <= spans[later].start,
    decreases later - earlier,
{
    assert(spans[later - 1].end == spans[later].start);
    if earlier < later - 1 {
        law_spans_are_disjoint(spans, slots, rules, week_start, week_end, earlier, later - 1);
        assert(spans[later - 1].start < spans[later - 1].end);
    }
}

} // verus!
