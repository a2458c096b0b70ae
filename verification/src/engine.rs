//! One round of automation: which forecasts it takes, and what it does to the plugs.
use crate::automation::{evaluate_rule, AutomationRule, Coordinate, RuleEvaluation};
use crate::plug::SmartPlug;
use crate::text::same_text;
use crate::weather::WeatherSnapshot;
use vstd::prelude::*;

verus! {

/// The weather at a place.
#[derive(Debug)]
pub struct Forecast {
    pub place: Coordinate,
    pub weather: WeatherSnapshot,
}

/// The relay of a plug is to be switched. The plug stands at this place in the inventory.
#[derive(Debug, Clone, Copy, PartialEq, Eq, Structural)]
pub struct Switch {
    pub plug: usize,
    pub turn_on: bool,
}

/// A timed rule acted on a day.
#[derive(Debug, Clone, Copy, PartialEq, Eq, Structural)]
pub struct TriggeredRule {
    pub id: u64,
    pub day: i64,
}

/// What a round of automation does.
#[derive(Debug)]
pub struct Plan {
    pub switches: Vec<Switch>,
    pub triggered: Vec<TriggeredRule>,
}

/// The plug of that identity; of several the last.
pub open spec fn plug_named(plugs: Seq<SmartPlug>, device_id: Seq<char>) -> Option<int>
    decreases plugs.len(),
{
    if plugs.len() == 0 {
        None
    } else if plugs.last().device_id@ == device_id {
        Some(plugs.len() - 1)
    } else {
        plug_named(plugs.drop_last(), device_id)
    }
}

/// The first forecast for a place.
pub open spec fn forecast_at(forecasts: Seq<Forecast>, place: Coordinate) -> Option<WeatherSnapshot>
    decreases forecasts.len(),
{
    if forecasts.len() == 0 {
        None
    } else if forecasts[0].place == place {
        Some(forecasts[0].weather)
    } else {
        forecast_at(forecasts.drop_first(), place)
    }
}

/// The place whose weather an enabled rule goes by, where its plug is known and has one.
pub open spec fn rule_place(rule: AutomationRule, plugs: Seq<SmartPlug>) -> Option<Coordinate> {
    if !rule.enabled {
        None
    } else {
        match plug_named(plugs, rule.device_id@) {
            Some(index) => crate::automation::place_of(plugs[index]),
            None => None,
        }
    }
}

/// The places whose weather the first `count` rules go by, each once, in the order in which
/// the rules need them.
pub open spec fn places_needed(
    rules: Seq<AutomationRule>,
    plugs: Seq<SmartPlug>,
    count: int,
) -> Seq<Coordinate>
    decreases count,
{
    if count <= 0 {
        seq![]
    } else {
        let front = places_needed(rules, plugs, count - 1);
        match rule_place(rules[count - 1], plugs) {
            Some(place) => if front.contains(place) {
                front
            } else {
                front.push(place)
            },
            None => front,
        }
    }
}

/// What a rule asks for.
pub open spec fn outcome(
    rule: AutomationRule,
    plugs: Seq<SmartPlug>,
    forecasts: Seq<Forecast>,
) -> Option<RuleEvaluation> {
    match rule_place(rule, plugs) {
        Some(place) => match forecast_at(forecasts, place) {
            Some(weather) => crate::automation::evaluation(rule, weather),
            None => None,
        },
        None => None,
    }
}

/// The timed rules among the first `count` that act, with their day.
pub open spec fn triggered_rules(
    rules: Seq<AutomationRule>,
    plugs: Seq<SmartPlug>,
    forecasts: Seq<Forecast>,
    count: int,
) -> Seq<TriggeredRule>
    decreases count,
{
    if count <= 0 {
        seq![]
    } else {
        let front = triggered_rules(rules, plugs, forecasts, count - 1);
        let rule = rules[count - 1];
        match outcome(rule, plugs, forecasts) {
            Some(evaluation) => match evaluation.trigger_day {
                Some(day) => front.push(TriggeredRule { id: rule.id, day }),
                None => front,
            },
            None => front,
        }
    }
}

/// What the first `count` rules together ask of a device: the last that asks decides.
pub open spec fn decision(
    rules: Seq<AutomationRule>,
    plugs: Seq<SmartPlug>,
    forecasts: Seq<Forecast>,
    device_id: Seq<char>,
    count: int,
) -> Option<bool>
    decreases count,
{
    if count <= 0 {
        None
    } else {
        let rule = rules[count - 1];
        match outcome(rule, plugs, forecasts) {
            Some(evaluation) if rule.device_id@ == device_id => Some(evaluation.turn_on),
            _ => decision(rules, plugs, forecasts, device_id, count - 1),
        }
    }
}

/// What the rules ask of the plug at a place in the inventory. A plug whose identity occurs
/// again further on is not meant.
pub open spec fn plug_decision(
    rules: Seq<AutomationRule>,
    plugs: Seq<SmartPlug>,
    forecasts: Seq<Forecast>,
    plug: int,
    count: int,
) -> Option<bool> {
    if plug_named(plugs, plugs[plug].device_id@) == Some(plug) {
        decision(rules, plugs, forecasts, plugs[plug].device_id@, count)
    } else {
        None
    }
}

/// The switches that the first `count` plugs of the inventory need: each plug whose relay is
/// not as the rules ask.
pub open spec fn switches_needed(
    rules: Seq<AutomationRule>,
    plugs: Seq<SmartPlug>,
    forecasts: Seq<Forecast>,
    count: int,
) -> Seq<Switch>
    decreases count,
{
    if count <= 0 {
        seq![]
    } else {
        let front = switches_needed(rules, plugs, forecasts, count - 1);
        match plug_decision(rules, plugs, forecasts, count - 1, rules.len() as int) {
            Some(turn_on) => if plugs[count - 1].relay_on != turn_on {
                front.push(Switch { plug: (count - 1) as usize, turn_on })
            } else {
                front
            },
            None => front,
        }
    }
}

/// The plug of an identity, by its place in the inventory.
pub fn find_plug(plugs: &Vec<SmartPlug>, device_id: &str) -> (index: Option<usize>)
    ensures
        match index {
            Some(index) => index < plugs@.len() && plug_named(plugs@, device_id@) == Some(
                index as int,
            ) && plugs@[index as int].device_id@ == device_id@,
            None => plug_named(plugs@, device_id@) is None,
        },
{
    let mut count: usize = plugs.len();
    proof {
        assert(plugs@.take(plugs@.len() as int) =~= plugs@);
    }
    while count > 0
        invariant
            count <= plugs@.len(),
            plug_named(plugs@, device_id@) == plug_named(plugs@.take(count as int), device_id@),
        decreases count,
    {
        proof {
            assert(plugs@.take(count as int).drop_last() =~= plugs@.take(count - 1));
        }
        if same_text(plugs[count - 1].device_id.as_str(), device_id) {
            return Some(count - 1);
        }
        count = count - 1;
    }
    None
}

fn find_forecast<'a>(forecasts: &'a Vec<Forecast>, place: Coordinate) -> (weather: Option<
    &'a WeatherSnapshot,
>)
    ensures
        match weather {
            Some(weather) => forecast_at(forecasts@, place) == Some(*weather),
            None => forecast_at(forecasts@, place) is None,
        },
{
    let mut index: usize = 0;
    proof {
        assert(forecasts@.skip(0) =~= forecasts@);
    }
    while index < forecasts.len()
        invariant
            index <= forecasts@.len(),
            forecast_at(forecasts@, place) == forecast_at(forecasts@.skip(index as int), place),
        decreases forecasts@.len() - index,
    {
        proof {
            assert(forecasts@.skip(index as int).drop_first() =~= forecasts@.skip(index + 1));
        }
        if forecasts[index].place == place {
            return Some(&forecasts[index].weather);
        }
        index = index + 1;
    }
    None
}

fn place_for(rule: &AutomationRule, plugs: &Vec<SmartPlug>) -> (place: Option<Coordinate>)
    ensures
        place == rule_place(*rule, plugs@),
{
    if !rule.enabled {
        return None;
    }
    match find_plug(plugs, rule.device_id.as_str()) {
        Some(index) => Coordinate::from_plug(&plugs[index]),
        None => None,
    }
}

fn contains_place(places: &Vec<Coordinate>, place: Coordinate) -> (result: bool)
    ensures
        result == places@.contains(place),
{
    let mut index: usize = 0;
    while index < places.len()
        invariant
            index <= places@.len(),
            forall|i: int| 0 <= i < index ==> places@[i] != place,
        decreases places@.len() - index,
    {
        if places[index] == place {
            return true;
        }
        index = index + 1;
    }
    false
}

/// The places whose weather a round of automation takes.
pub fn needed_places(rules: &Vec<AutomationRule>, plugs: &Vec<SmartPlug>) -> (places: Vec<
    Coordinate,
>)
    ensures
        places@ == places_needed(rules@, plugs@, rules@.len() as int),
{
    let mut places: Vec<Coordinate> = Vec::new();
    let mut index: usize = 0;
    while index < rules.len()
        invariant
            index <= rules@.len(),
            places@ == places_needed(rules@, plugs@, index as int),
        decreases rules@.len() - index,
    {
        match place_for(&rules[index], plugs) {
            Some(place) => {
                if !contains_place(&places, place) {
                    places.push(place);
                }
            },
            None => {},
        }
        index = index + 1;
    }
    places
}

fn rule_outcome(
    rule: &AutomationRule,
    plugs: &Vec<SmartPlug>,
    forecasts: &Vec<Forecast>,
) -> (result: Option<RuleEvaluation>)
    ensures
        result == outcome(*rule, plugs@, forecasts@),
{
    match place_for(rule, plugs) {
        Some(place) => match find_forecast(forecasts, place) {
            Some(weather) => evaluate_rule(rule, weather),
            None => None,
        },
        None => None,
    }
}

/// Plans a round of automation. The rules stand in the order of their identities, so that of
/// several rules for one plug the one added last decides.
pub fn evaluation_plan(
    rules: &Vec<AutomationRule>,
    plugs: &Vec<SmartPlug>,
    forecasts: &Vec<Forecast>,
) -> (plan: Plan)
    ensures
        plan.switches@ == switches_needed(rules@, plugs@, forecasts@, plugs@.len() as int),
        plan.triggered@ == triggered_rules(rules@, plugs@, forecasts@, rules@.len() as int),
{
    let mut decisions: Vec<Option<bool>> = Vec::new();
    let mut index: usize = 0;
    while index < plugs.len()
        invariant
            index <= plugs@.len(),
            decisions@.len() == index,
            forall|p: int| 0 <= p < index ==> #[trigger] decisions@[p] is None,
        decreases plugs@.len() - index,
    {
        decisions.push(None);
        index = index + 1;
    }
    let mut triggered: Vec<TriggeredRule> = Vec::new();
    let mut next: usize = 0;
    while next < rules.len()
        invariant
            next <= rules@.len(),
            decisions@.len() == plugs@.len(),
            forall|p: int|
                0 <= p < plugs@.len() ==> #[trigger] decisions@[p] == plug_decision(
                    rules@,
                    plugs@,
                    forecasts@,
                    p,
                    next as int,
                ),
            triggered@ == triggered_rules(rules@, plugs@, forecasts@, next as int),
        decreases rules@.len() - next,
    {
        let rule = &rules[next];
        match rule_outcome(rule, plugs, forecasts) {
            Some(evaluation) => {
                match evaluation.trigger_day {
                    Some(day) => triggered.push(TriggeredRule { id: rule.id, day }),
                    None => {},
                }
                match find_plug(plugs, rule.device_id.as_str()) {
                    Some(plug) => {
                        decisions.set(plug, Some(evaluation.turn_on));
                    },
                    None => {},
                }
            },
            None => {},
        }
        next = next + 1;
    }
    let mut switches: Vec<Switch> = Vec::new();
    let mut plug: usize = 0;
    while plug < plugs.len()
        invariant
            plug <= plugs@.len(),
            decisions@.len() == plugs@.len(),
            forall|p: int|
                0 <= p < plugs@.len() ==> #[trigger] decisions@[p] == plug_decision(
                    rules@,
                    plugs@,
                    forecasts@,
                    p,
                    rules@.len() as int,
                ),
            switches@ == switches_needed(rules@, plugs@, forecasts@, plug as int),
        decreases plugs@.len() - plug,
    {
        match decisions[plug] {
            Some(turn_on) => {
                if plugs[plug].relay_on != turn_on {
                    switches.push(Switch { plug, turn_on });
                }
            },
            None => {},
        }
        plug = plug + 1;
    }
    Plan { switches, triggered }
}

/// A device is switched as the last rule asks that asks anything of it: rules before that one
/// do not matter.
pub proof fn law_last_rule_decides(
    rules: Seq<AutomationRule>,
    plugs: Seq<SmartPlug>,
    forecasts: Seq<Forecast>,
    device_id: Seq<char>,
    last: int,
)
    requires
        0 <= last < rules.len(),
        rules[last].device_id@ == device_id,
        outcome(rules[last], plugs, forecasts) is Some,
        forall|i: int|
            last < i < rules.len() && (#[trigger] rules[i]).device_id@ == device_id ==> outcome(
                rules[i],
                plugs,
                forecasts,
            ) is None,
    ensures
        decision(rules, plugs, forecasts, device_id, rules.len() as int) == Some(
            outcome(rules[last], plugs, forecasts)->0.turn_on,
        ),
{
    lemma_silent_rules_leave_decision(
        rules,
        plugs,
        forecasts,
        device_id,
        last + 1,
        rules.len() as int,
    );
}

/// Of rules in the order of their identities, the one with the highest identity decides among
/// those that ask anything of a device.
pub proof fn law_highest_identity_decides(
    rules: Seq<AutomationRule>,
    plugs: Seq<SmartPlug>,
    forecasts: Seq<Forecast>,
    device_id: Seq<char>,
    highest: int,
)
    requires
        forall|i: int, j: int|
            0 <= i < j < rules.len() ==> (#[trigger] rules[i]).id < (#[trigger] rules[j]).id,
        0 <= highest < rules.len(),
        rules[highest].device_id@ == device_id,
        outcome(rules[highest], plugs, forecasts) is Some,
        forall|i: int|
            0 <= i < rules.len() && (#[trigger] rules[i]).device_id@ == device_id && outcome(
                rules[i],
                plugs,
                forecasts,
            ) is Some ==> rules[i].id <= rules[highest].id,
    ensures
        decision(rules, plugs, forecasts, device_id, rules.len() as int) == Some(
            outcome(rules[highest], plugs, forecasts)->0.turn_on,
        ),
{
    law_last_rule_decides(rules, plugs, forecasts, device_id, highest);
}

proof fn lemma_silent_rules_leave_decision(
    rules: Seq<AutomationRule>,
    plugs: Seq<SmartPlug>,
    forecasts: Seq<Forecast>,
    device_id: Seq<char>,
    from: int,
    count: int,
)
    requires
        0 <= from <= count <= rules.len(),
        forall|i: int|
            from <= i < count && (#[trigger] rules[i]).device_id@ == device_id ==> outcome(
                rules[i],
                plugs,
                forecasts,
            ) is None,
    ensures
        decision(rules, plugs, forecasts, device_id, count) == decision(
            rules,
            plugs,
            forecasts,
            device_id,
            from,
        ),
    decreases count - from,
{
    if from < count {
        let rule = rules[count - 1];
        lemma_silent_rules_leave_decision(rules, plugs, forecasts, device_id, from, count - 1);
        assert(rule.device_id@ == device_id ==> outcome(rule, plugs, forecasts) is None);
    }
}

/// A round of automation switches no plug to the state that it is in.
pub proof fn law_switches_change_something(
    rules: Seq<AutomationRule>,
    plugs: Seq<SmartPlug>,
    forecasts: Seq<Forecast>,
    count: int,
    index: int,
)
    requires
        0 <= count <= plugs.len(),
        plugs.len() <= usize::MAX,
        0 <= index < switches_needed(rules, plugs, forecasts, count).len(),
    ensures
        ({
            let switch = switches_needed(rules, plugs, forecasts, count)[index];
            &&& switch.plug < count
            &&& plugs[switch.plug as int].relay_on != switch.turn_on
        }),
    decreases count,
{
    let front = switches_needed(rules, plugs, forecasts, count - 1);
    if index < front.len() {
        law_switches_change_something(rules, plugs, forecasts, count - 1, index);
    }
}

/// A disabled rule asks for nothing.
pub proof fn law_disabled_rules_do_nothing(
    rule: AutomationRule,
    plugs: Seq<SmartPlug>,
    forecasts: Seq<Forecast>,
)
    requires
        !rule.enabled,
    ensures
        outcome(rule, plugs, forecasts) is None,
{
}

/// Of several plugs of one identity the last is the one that is named.
pub proof fn lemma_plug_named(plugs: Seq<SmartPlug>, device_id: Seq<char>)
    ensures
        match plug_named(plugs, device_id) {
            Some(plug) => {
                &&& 0 <= plug < plugs.len()
                &&& plugs[plug].device_id@ == device_id
                &&& forall|p: int|
                    plug < p < plugs.len() ==> (#[trigger] plugs[p]).device_id@ != device_id
            },
            None => forall|p: int|
                0 <= p < plugs.len() ==> (#[trigger] plugs[p]).device_id@ != device_id,
        },
    decreases plugs.len(),
{
    if plugs.len() > 0 && plugs.last().device_id@ != device_id {
        let front = plugs.drop_last();
        lemma_plug_named(front, device_id);
        assert forall|p: int|
            0 <= p < plugs.len() - 1 implies (#[trigger] plugs[p]) == front[p] by {}
    }
}

proof fn lemma_forecast_at(forecasts: Seq<Forecast>, place: Coordinate, first: int)
    requires
        0 <= first <= forecasts.len(),
        forall|f: int| 0 <= f < first ==> (#[trigger] forecasts[f]).place != place,
        first < forecasts.len() ==> forecasts[first].place == place,
    ensures
        forecast_at(forecasts, place) == (if first < forecasts.len() {
            Some(forecasts[first].weather)
        } else {
            None
        }),
    decreases first,
{
    if first > 0 {
        let rest = forecasts.drop_first();
        assert(forecasts[0].place != place);
        assert forall|f: int| 0 <= f < first - 1 implies (#[trigger] rest[f]).place != place by {
            assert(rest[f] == forecasts[f + 1]);
        }
        lemma_forecast_at(rest, place, first - 1);
    }
}

/// An enabled rule goes by the first forecast for the place of its plug, to the ten thousandth of
/// a degree. Of several plugs of that identity the last is meant.
pub proof fn law_rules_go_by_the_weather_of_their_plug(
    rule: AutomationRule,
    plugs: Seq<SmartPlug>,
    forecasts: Seq<Forecast>,
    plug: int,
    first: int,
)
    requires
        0 <= plug < plugs.len(),
        plugs[plug].device_id@ == rule.device_id@,
        forall|p: int|
            plug < p < plugs.len() ==> (#[trigger] plugs[p]).device_id@ != rule.device_id@,
        plugs[plug].latitude is Some && plugs[plug].longitude is Some,
        0 <= first < forecasts.len(),
        forecasts[first].place.latitude == plugs[plug].latitude->0.ten_thousandths,
        forecasts[first].place.longitude == plugs[plug].longitude->0.ten_thousandths,
        forall|f: int|
            0 <= f < first ==> (#[trigger] forecasts[f]).place.latitude
                != plugs[plug].latitude->0.ten_thousandths || forecasts[f].place.longitude
                != plugs[plug].longitude->0.ten_thousandths,
    ensures
        rule.enabled ==> outcome(rule, plugs, forecasts) == crate::automation::evaluation(
            rule,
            forecasts[first].weather,
        ),
        !rule.enabled ==> outcome(rule, plugs, forecasts) is None,
{
    lemma_plug_named(plugs, rule.device_id@);
    assert(plug_named(plugs, rule.device_id@) == Some(plug));
    lemma_forecast_at(forecasts, forecasts[first].place, first);
}

/// A rule asks for nothing where no plug has its identity, where the plug does not know its
/// place, or where there is no forecast for it.
pub proof fn law_rules_need_a_forecast(
    rule: AutomationRule,
    plugs: Seq<SmartPlug>,
    forecasts: Seq<Forecast>,
)
    requires
        forall|p: int, f: int|
            0 <= p < plugs.len() && (#[trigger] plugs[p]).device_id@ == rule.device_id@ && 0 <= f
                < forecasts.len() ==> plugs[p].latitude is None || plugs[p].longitude is None || (
            #[trigger] forecasts[f]).place.latitude != plugs[p].latitude->0.ten_thousandths
                || forecasts[f].place.longitude != plugs[p].longitude->0.ten_thousandths,
    ensures
        outcome(rule, plugs, forecasts) is None,
{
    lemma_plug_named(plugs, rule.device_id@);
    match rule_place(rule, plugs) {
        Some(place) => {
            let plug = plug_named(plugs, rule.device_id@)->0;
            assert forall|f: int| 0 <= f < forecasts.len() implies (#[trigger] forecasts[f]).place
                != place by {
                assert(plugs[plug].device_id@ == rule.device_id@);
            }
            lemma_forecast_at(forecasts, place, forecasts.len() as int);
        },
        None => {},
    }
}

/// Whether a rule asks for a state of a device, and no later rule asks for anything of it.
pub open spec fn has_last_say(
    rules: Seq<AutomationRule>,
    plugs: Seq<SmartPlug>,
    forecasts: Seq<Forecast>,
    device_id: Seq<char>,
    rule: int,
    on: bool,
) -> bool {
    &&& 0 <= rule < rules.len()
    &&& rules[rule].device_id@ == device_id
    &&& outcome(rules[rule], plugs, forecasts) is Some
    &&& outcome(rules[rule], plugs, forecasts)->0.turn_on == on
    &&& forall|r: int|
        rule < r < rules.len() && (#[trigger] rules[r]).device_id@ == device_id ==> outcome(
            rules[r],
            plugs,
            forecasts,
        ) is None
}

proof fn lemma_decision(
    rules: Seq<AutomationRule>,
    plugs: Seq<SmartPlug>,
    forecasts: Seq<Forecast>,
    device_id: Seq<char>,
    count: int,
)
    requires
        0 <= count <= rules.len(),
    ensures
        ({
            let decided = decision(rules, plugs, forecasts, device_id, count);
            decided is Some ==> exists|rule: int|
                has_last_say(rules.take(count), plugs, forecasts, device_id, rule, decided->0)
        }),
    decreases count,
{
    if count > 0 {
        let rule = rules[count - 1];
        let decided = decision(rules, plugs, forecasts, device_id, count);
        if rule.device_id@ == device_id && outcome(rule, plugs, forecasts) is Some {
            assert(has_last_say(
                rules.take(count),
                plugs,
                forecasts,
                device_id,
                count - 1,
                decided->0,
            ));
        } else {
            lemma_decision(rules, plugs, forecasts, device_id, count - 1);
            if decided is Some {
                let front = rules.take(count - 1);
                let last = choose|last: int|
                    has_last_say(front, plugs, forecasts, device_id, last, decided->0);
                assert(rules.take(count)[last] == front[last]);
                assert forall|r: int|
                    last < r < count && (#[trigger] rules.take(count)[r]).device_id@
                        == device_id implies outcome(
                    rules.take(count)[r],
                    plugs,
                    forecasts,
                ) is None by {
                    if r < count - 1 {
                        assert(front[r] == rules.take(count)[r]);
                    }
                }
                assert(has_last_say(
                    rules.take(count),
                    plugs,
                    forecasts,
                    device_id,
                    last,
                    decided->0,
                ));
            }
        }
    }
}

proof fn lemma_switches(
    rules: Seq<AutomationRule>,
    plugs: Seq<SmartPlug>,
    forecasts: Seq<Forecast>,
    count: int,
    switch: Switch,
)
    requires
        0 <= count <= plugs.len() <= usize::MAX,
    ensures
        switches_needed(rules, plugs, forecasts, count).contains(switch) <==> {
            &&& switch.plug < count
            &&& plugs[switch.plug as int].relay_on != switch.turn_on
            &&& plug_decision(rules, plugs, forecasts, switch.plug as int, rules.len() as int)
                == Some(switch.turn_on)
        },
    decreases count,
{
    let needed = switches_needed(rules, plugs, forecasts, count);
    if count > 0 {
        let front = switches_needed(rules, plugs, forecasts, count - 1);
        lemma_switches(rules, plugs, forecasts, count - 1, switch);
        if needed != front {
            let added = needed.last();
            assert(needed == front.push(added));
            assert(needed[front.len() as int] == added);
            if front.contains(switch) {
                let i = choose|i: int| 0 <= i < front.len() && front[i] == switch;
                assert(needed[i] == switch);
            }
            if needed.contains(switch) && switch != added {
                let i = choose|i: int| 0 <= i < needed.len() && needed[i] == switch;
                assert(front[i] == switch);
            }
        }
    }
}

/// A plug is switched exactly where the rule that has the last say over it asks for a state that
/// its relay is not in.
pub proof fn law_plugs_are_switched_as_asked(
    rules: Seq<AutomationRule>,
    plugs: Seq<SmartPlug>,
    forecasts: Seq<Forecast>,
    plan: Plan,
    plug: usize,
    on: bool,
)
    requires
        plan.switches@ == switches_needed(rules, plugs, forecasts, plugs.len() as int),
        plug < plugs.len() <= usize::MAX,
        forall|p: int|
            plug < p < plugs.len() ==> (#[trigger] plugs[p]).device_id@
                != plugs[plug as int].device_id@,
    ensures
        (exists|i: int|
            0 <= i < plan.switches@.len() && (#[trigger] plan.switches@[i]).plug == plug
                && plan.switches@[i].turn_on == on) <==> plugs[plug as int].relay_on != on && exists|
            rule: int,
        |
            has_last_say(rules, plugs, forecasts, plugs[plug as int].device_id@, rule, on),
{
    let device_id = plugs[plug as int].device_id@;
    let switch = Switch { plug, turn_on: on };
    lemma_switches(rules, plugs, forecasts, plugs.len() as int, switch);
    lemma_plug_named(plugs, device_id);
    lemma_decision(rules, plugs, forecasts, device_id, rules.len() as int);
    assert(rules.take(rules.len() as int) =~= rules);
    if exists|rule: int| has_last_say(rules, plugs, forecasts, device_id, rule, on) {
        let rule = choose|rule: int| has_last_say(rules, plugs, forecasts, device_id, rule, on);
        law_last_rule_decides(rules, plugs, forecasts, device_id, rule);
    }
    if plan.switches@.contains(switch) {
        let i = choose|i: int| 0 <= i < plan.switches@.len() && plan.switches@[i] == switch;
        assert(plan.switches@[i].plug == plug);
    }
    if exists|i: int|
        0 <= i < plan.switches@.len() && (#[trigger] plan.switches@[i]).plug == plug
            && plan.switches@[i].turn_on == on {
        let i = choose|i: int|
            0 <= i < plan.switches@.len() && (#[trigger] plan.switches@[i]).plug == plug
                && plan.switches@[i].turn_on == on;
        assert(plan.switches@[i] == switch);
    }
}

proof fn lemma_triggered(
    rules: Seq<AutomationRule>,
    plugs: Seq<SmartPlug>,
    forecasts: Seq<Forecast>,
    count: int,
    triggered: TriggeredRule,
)
    requires
        0 <= count <= rules.len(),
    ensures
        triggered_rules(rules, plugs, forecasts, count).contains(triggered) <==> exists|rule: int|
            0 <= rule < count && (#[trigger] rules[rule]).id == triggered.id && outcome(
                rules[rule],
                plugs,
                forecasts,
            ) is Some && outcome(rules[rule], plugs, forecasts)->0.trigger_day == Some(
                triggered.day,
            ),
    decreases count,
{
    let all = triggered_rules(rules, plugs, forecasts, count);
    if count > 0 {
        let front = triggered_rules(rules, plugs, forecasts, count - 1);
        lemma_triggered(rules, plugs, forecasts, count - 1, triggered);
        if all != front {
            let added = all.last();
            assert(all == front.push(added));
            assert(all[front.len() as int] == added);
            if front.contains(triggered) {
                let i = choose|i: int| 0 <= i < front.len() && front[i] == triggered;
                assert(all[i] == triggered);
            }
            if all.contains(triggered) && triggered != added {
                let i = choose|i: int| 0 <= i < all.len() && all[i] == triggered;
                assert(front[i] == triggered);
            }
            assert(rules[count - 1].id == added.id);
        }
    }
}

/// A round records exactly the rules that acted by the clock or the sun, each with its day.
pub proof fn law_timed_rules_are_recorded(
    rules: Seq<AutomationRule>,
    plugs: Seq<SmartPlug>,
    forecasts: Seq<Forecast>,
    plan: Plan,
    id: u64,
    day: i64,
)
    requires
        plan.triggered@ == triggered_rules(rules, plugs, forecasts, rules.len() as int),
    ensures
        (exists|i: int|
            0 <= i < plan.triggered@.len() && (#[trigger] plan.triggered@[i]).id == id
                && plan.triggered@[i].day == day) <==> exists|rule: int|
            0 <= rule < rules.len() && (#[trigger] rules[rule]).id == id && outcome(
                rules[rule],
                plugs,
                forecasts,
            ) is Some && outcome(rules[rule], plugs, forecasts)->0.trigger_day == Some(day),
{
    let triggered = TriggeredRule { id, day };
    lemma_triggered(rules, plugs, forecasts, rules.len() as int, triggered);
    if plan.triggered@.contains(triggered) {
        let i = choose|i: int| 0 <= i < plan.triggered@.len() && plan.triggered@[i] == triggered;
        assert(plan.triggered@[i].id == id);
    }
    if exists|i: int|
        0 <= i < plan.triggered@.len() && (#[trigger] plan.triggered@[i]).id == id
            && plan.triggered@[i].day == day {
        let i = choose|i: int|
            0 <= i < plan.triggered@.len() && (#[trigger] plan.triggered@[i]).id == id
                && plan.triggered@[i].day == day;
        assert(plan.triggered@[i] == triggered);
    }
}

/// A forecast is asked for exactly the places of the plugs of enabled rules, each once.
pub proof fn law_places_are_asked_for_once(
    rules: Seq<AutomationRule>,
    plugs: Seq<SmartPlug>,
    place: Coordinate,
    count: int,
)
    requires
        0 <= count <= rules.len(),
    ensures
        places_needed(rules, plugs, count).no_duplicates(),
        places_needed(rules, plugs, count).contains(place) <==> exists|rule: int, plug: int|
            0 <= rule < count && (#[trigger] rules[rule]).enabled && 0 <= plug < plugs.len() && (
            #[trigger] plugs[plug]).device_id@ == rules[rule].device_id@ && (forall|p: int|
                plug < p < plugs.len() ==> (#[trigger] plugs[p]).device_id@
                    != rules[rule].device_id@) && plugs[plug].latitude is Some
                && plugs[plug].longitude is Some && plugs[plug].latitude->0.ten_thousandths
                == place.latitude && plugs[plug].longitude->0.ten_thousandths == place.longitude,
    decreases count,
{
    if count > 0 {
        law_places_are_asked_for_once(rules, plugs, place, count - 1);
        let front = places_needed(rules, plugs, count - 1);
        let all = places_needed(rules, plugs, count);
        let rule = count - 1;
        lemma_plug_named(plugs, rules[rule].device_id@);
        match rule_place(rules[rule], plugs) {
            Some(added) => {
                let plug = plug_named(plugs, rules[rule].device_id@)->0;
                assert(rules[rule].enabled && plugs[plug].device_id@ == rules[rule].device_id@);
                if !front.contains(added) {
                    assert(all == front.push(added));
                    assert(all[front.len() as int] == added);
                    if front.contains(place) {
                        let i = choose|i: int| 0 <= i < front.len() && front[i] == place;
                        assert(all[i] == place);
                    }
                    if all.contains(place) && place != added {
                        let i = choose|i: int| 0 <= i < all.len() && all[i] == place;
                        assert(front[i] == place);
                    }
                }
            },
            None => {},
        }
    }
}

} // verus!
