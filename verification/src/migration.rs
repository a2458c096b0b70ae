//! The move of schedules from a plug to the library: each is added here, then deleted there,
//! and taken back here where the plug keeps it.
use crate::automation::NewAutomation;
use crate::forms::AppError;
use crate::rules::{migrated_automation, ScheduleRule};
use vstd::prelude::*;
use vstd::string::*;

verus! {

/// Where a move stands.
#[derive(Debug)]
pub enum Stage {
    /// The rule that takes over the current schedule is being added.
    Adding,
    /// The current schedule is being deleted from the plug; the rule has this identity.
    Deleting { rule_id: u64 },
    /// The rule is being deleted again, since the plug failed in this way.
    TakingBack { failure: String },
    /// The move is over.
    Over,
}

/// A move of schedules from a plug.
#[derive(Debug)]
pub struct Migration {
    pub rules: Vec<ScheduleRule>,
    pub schedules_enabled: bool,
    pub device_id: String,
    pub current: usize,
    pub stage: Stage,
}

/// What happened to a move.
#[derive(Debug)]
pub enum Event {
    /// The rule was added under this identity.
    Added(u64),
    /// The rule could not be added.
    AddFailed(String),
    /// The plug deleted the schedule.
    Deleted,
    /// The plug did not delete the schedule.
    DeleteFailed(String),
    /// The rule is gone again.
    TakenBack,
    /// The rule could not be deleted again.
    TakeBackFailed(String),
}

/// What a move does next.
#[derive(Debug)]
pub enum Action {
    /// Add this rule.
    Add(NewAutomation),
    /// Delete the schedule with this identity from the plug.
    DeleteSchedule(String),
    /// Delete the rule with this identity.
    DeleteRule(u64),
    /// The move is done.
    Finish,
    /// The move failed.
    Fail(AppError),
}

/// Whether the library can take over a schedule.
pub open spec fn movable(rule: ScheduleRule) -> bool {
    crate::rules::plain_fixed(rule) || crate::rules::plain_solar(rule)
}

/// The first schedule from `from` on that the library can take over.
pub open spec fn next_movable(rules: Seq<ScheduleRule>, from: int) -> Option<int>
    decreases rules.len() - from,
{
    if from < 0 || from >= rules.len() {
        None
    } else if movable(rules[from]) {
        Some(from)
    } else {
        next_movable(rules, from + 1)
    }
}

/// Whether an event is one that a move waits for.
pub open spec fn awaits(stage: Stage, event: Event) -> bool {
    match stage {
        Stage::Adding => event is Added || event is AddFailed,
        Stage::Deleting { rule_id } => event is Deleted || event is DeleteFailed,
        Stage::TakingBack { failure } => event is TakenBack || event is TakeBackFailed,
        Stage::Over => false,
    }
}

impl Migration {
    /// Whether the current schedule is one to move, unless the move is over.
    pub open spec fn sound(self) -> bool {
        self.stage is Over || (self.current < self.rules@.len() && movable(
            self.rules@[self.current as int],
        ))
    }
}

/// Whether a move goes on to the next schedule from `from` on, or is over where there is none.
pub open spec fn goes_on(migration: Migration, action: Action, from: int) -> bool {
    match next_movable(migration.rules@, from) {
        Some(index) => {
            &&& migration.current == index
            &&& migration.stage is Adding
            &&& action is Add
            &&& crate::rules::takes_over(
                action->Add_0,
                migration.rules@[index],
                migration.schedules_enabled,
                migration.device_id@,
            )
        },
        None => migration.stage is Over && action is Finish,
    }
}

/// Whether a failed move says why.
pub open spec fn fails(action: Action, message: Seq<char>) -> bool {
    action matches Action::Fail(error) && error.status == 500 && error.message@ == message
}

/// The message where the plug keeps a schedule and the rule cannot be deleted again.
pub open spec fn doubled(failure: Seq<char>, second: Seq<char>) -> Seq<char> {
    "could not remove plug schedule ("@ + failure + ") or roll back server schedule ("@ + second
        + ")"@
}

/// Whether an event takes a move from one state to another and leads to an action.
pub open spec fn step(before: Migration, event: Event, after: Migration, action: Action) -> bool {
    match (before.stage, event) {
        (Stage::Adding, Event::Added(rule_id)) => {
            &&& after.current == before.current
            &&& after.stage == (Stage::Deleting { rule_id })
            &&& action matches Action::DeleteSchedule(id) && id@ == before.rules@[before.current as int].id->0@
        },
        (Stage::Adding, Event::AddFailed(failure)) => after.stage is Over && fails(
            action,
            failure@,
        ),
        (Stage::Deleting { rule_id }, Event::Deleted) => goes_on(
            after,
            action,
            before.current + 1,
        ),
        (Stage::Deleting { rule_id }, Event::DeleteFailed(failure)) => {
            &&& after.current == before.current
            &&& after.stage == (Stage::TakingBack { failure })
            &&& action == Action::DeleteRule(rule_id)
        },
        (Stage::TakingBack { failure }, Event::TakenBack) => after.stage is Over && fails(
            action,
            failure@,
        ),
        (Stage::TakingBack { failure }, Event::TakeBackFailed(second)) => after.stage is Over
            && fails(action, doubled(failure@, second@)),
        _ => false,
    }
}

impl Migration {
    /// Goes on to the next schedule from `from` on.
    fn go_on(&mut self, from: usize) -> (action: Action)
        requires
            from <= old(self).rules@.len(),
        ensures
            final(self).rules == old(self).rules,
            final(self).schedules_enabled == old(self).schedules_enabled,
            final(self).device_id == old(self).device_id,
            goes_on(*final(self), action, from as int),
            final(self).sound(),
    {
        let mut index: usize = from;
        while index < self.rules.len()
            invariant
                self.rules == old(self).rules,
                self.schedules_enabled == old(self).schedules_enabled,
                self.device_id == old(self).device_id,
                index <= self.rules@.len(),
                next_movable(self.rules@, from as int) == next_movable(self.rules@, index as int),
            decreases self.rules@.len() - index,
        {
            match migrated_automation(
                &self.rules[index],
                self.schedules_enabled,
                self.device_id.as_str(),
            ) {
                Some(automation) => {
                    self.current = index;
                    self.stage = Stage::Adding;
                    return Action::Add(automation);
                },
                None => {},
            }
            index = index + 1;
        }
        self.stage = Stage::Over;
        Action::Finish
    }

    /// Starts to move the schedules of a plug.
    pub fn begin(rules: Vec<ScheduleRule>, schedules_enabled: bool, device_id: &str) -> (result: (
        Migration,
        Action,
    ))
        ensures
            result.0.rules == rules,
            result.0.schedules_enabled == schedules_enabled,
            result.0.device_id@ == device_id@,
            goes_on(result.0, result.1, 0),
            result.0.sound(),
    {
        let mut migration = Migration {
            rules,
            schedules_enabled,
            device_id: device_id.to_owned(),
            current: 0,
            stage: Stage::Over,
        };
        let action = migration.go_on(0);
        (migration, action)
    }

    /// Takes in what happened, and says what to do next.
    pub fn advance(&mut self, event: Event) -> (action: Action)
        requires
            old(self).sound(),
            awaits(old(self).stage, event),
        ensures
            final(self).rules == old(self).rules,
            final(self).schedules_enabled == old(self).schedules_enabled,
            final(self).device_id == old(self).device_id,
            step(*old(self), event, *final(self), action),
            final(self).sound(),
    {
        let total: usize = self.rules.len();
        let mut stage = Stage::Over;
        std::mem::swap(&mut stage, &mut self.stage);
        match (stage, event) {
            (Stage::Adding, Event::Added(rule_id)) => {
                let id = match &self.rules[self.current].id {
                    Some(id) => id.clone(),
                    None => String::new(),
                };
                self.stage = Stage::Deleting { rule_id };
                Action::DeleteSchedule(id)
            },
            (Stage::Adding, Event::AddFailed(failure)) => Action::Fail(
                AppError::internal(failure.as_str()),
            ),
            (Stage::Deleting { rule_id }, Event::Deleted) => {
                assert(self.current < total);
                let next: usize = self.current + 1;
                self.go_on(next)
            },
            (Stage::Deleting { rule_id }, Event::DeleteFailed(failure)) => {
                self.stage = Stage::TakingBack { failure };
                Action::DeleteRule(rule_id)
            },
            (Stage::TakingBack { failure }, Event::TakeBackFailed(second)) => {
                let mut message = "could not remove plug schedule (".to_owned();
                message.append(failure.as_str());
                message.append(") or roll back server schedule (");
                message.append(second.as_str());
                message.append(")");
                Action::Fail(AppError::internal(message.as_str()))
            },
            (Stage::TakingBack { failure }, _) => Action::Fail(
                AppError::internal(failure.as_str()),
            ),
            _ => Action::Finish,
        }
    }
}

/// How many rules a move has added and not deleted again, and how many schedules it has deleted
/// from the plug, after an event.
pub open spec fn tally(counts: (int, int), event: Event) -> (int, int) {
    match event {
        Event::Added(_) => (counts.0 + 1, counts.1),
        Event::Deleted => (counts.0, counts.1 + 1),
        Event::TakenBack => (counts.0 - 1, counts.1),
        _ => counts,
    }
}

/// Whether the rules that were added stand for the schedules that were deleted, but for the one
/// that is on its way.
pub open spec fn balanced(stage: Stage, counts: (int, int)) -> bool {
    if stage is Deleting || stage is TakingBack {
        counts.0 == counts.1 + 1
    } else {
        counts.0 == counts.1
    }
}

/// A move neither loses nor doubles a schedule: as many rules are added as schedules leave the
/// plug, through every step but the one in which a rule cannot be deleted again.
pub proof fn law_schedules_move_whole(
    before: Migration,
    event: Event,
    after: Migration,
    action: Action,
    counts: (int, int),
)
    requires
        step(before, event, after, action),
        balanced(before.stage, counts),
        !(event is TakeBackFailed),
    ensures
        balanced(after.stage, tally(counts, event)),
{
}

/// How many steps a move can still take at most.
pub open spec fn steps_left(migration: Migration) -> int {
    let rest = migration.rules@.len() - migration.current;
    match migration.stage {
        Stage::Adding => 3 * rest,
        Stage::Deleting { rule_id } => 3 * rest - 1,
        Stage::TakingBack { failure } => 3 * rest - 2,
        Stage::Over => 0,
    }
}

proof fn lemma_next_movable(rules: Seq<ScheduleRule>, from: int)
    requires
        0 <= from,
    ensures
        next_movable(rules, from) matches Some(index) ==> from <= index < rules.len() && movable(
            rules[index],
        ),
    decreases rules.len() - from,
{
    if from < rules.len() && !movable(rules[from]) {
        lemma_next_movable(rules, from + 1);
    }
}

/// Every move ends.
pub proof fn law_migrations_end(before: Migration, event: Event, after: Migration, action: Action)
    requires
        before.sound(),
        step(before, event, after, action),
        after.rules == before.rules,
    ensures
        0 <= steps_left(after) < steps_left(before),
{
    lemma_next_movable(before.rules@, before.current + 1);
}

/// A move goes through the schedules in their order: it adds a rule for the first one from where it
/// stands that it can take over, and is done where there is none.
pub proof fn law_moves_go_in_order(
    migration: Migration,
    action: Action,
    from: int,
    next: int,
)
    requires
        goes_on(migration, action, from),
        0 <= from <= next <= migration.rules@.len(),
        forall|i: int|
            from <= i < next ==> !crate::rules::plain_fixed(#[trigger] migration.rules@[i])
                && !crate::rules::plain_solar(migration.rules@[i]),
        next < migration.rules@.len() ==> crate::rules::plain_fixed(migration.rules@[next])
            || crate::rules::plain_solar(migration.rules@[next]),
    ensures
        next < migration.rules@.len() ==> {
            &&& migration.current == next
            &&& action is Add
            &&& action->Add_0.device_id@ == migration.device_id@
            &&& action->Add_0.turn_on <==> migration.rules@[next].sact == 1
            &&& action->Add_0.enabled <==> migration.schedules_enabled
                && migration.rules@[next].enabled
        },
        next == migration.rules@.len() ==> action is Finish,
{
    lemma_next_is(migration.rules@, from, next);
}

proof fn lemma_next_is(rules: Seq<ScheduleRule>, from: int, next: int)
    requires
        0 <= from <= next <= rules.len(),
        forall|i: int|
            from <= i < next ==> !crate::rules::plain_fixed(#[trigger] rules[i])
                && !crate::rules::plain_solar(rules[i]),
        next < rules.len() ==> crate::rules::plain_fixed(rules[next]) || crate::rules::plain_solar(
            rules[next],
        ),
    ensures
        next_movable(rules, from) == (if next < rules.len() {
            Some(next)
        } else {
            None
        }),
    decreases next - from,
{
    if from < next {
        assert(!movable(rules[from]));
        lemma_next_is(rules, from + 1, next);
    }
}

/// A schedule leaves the plug only once its rule was added, under its own identity. Where the plug
/// keeps it, the rule that was added is deleted again, and the move fails.
pub proof fn law_moves_are_taken_back(
    before: Migration,
    event: Event,
    after: Migration,
    action: Action,
)
    requires
        step(before, event, after, action),
    ensures
        action is DeleteSchedule <==> event is Added,
        action is DeleteSchedule ==> action->DeleteSchedule_0@
            == before.rules@[before.current as int].id->0@,
        action is DeleteRule <==> event is DeleteFailed,
        action is DeleteRule ==> (before.stage matches Stage::Deleting { rule_id }
            && action->DeleteRule_0 == rule_id),
        event is AddFailed || event is TakenBack || event is TakeBackFailed <==> action is Fail,
        action is Fail ==> action->Fail_0.status == 500 && after.stage is Over,
        event matches Event::AddFailed(failure) ==> action->Fail_0.message@ == failure@,
        event is TakenBack ==> (before.stage matches Stage::TakingBack { failure }
            && action->Fail_0.message@ == failure@),
        event matches Event::Added(id) ==> after.stage == (Stage::Deleting { rule_id: id }),
        action is Add || action is Finish ==> event is Deleted,
{
}

/// Where neither the plug lets go of a schedule nor the rule can be deleted again, the failure names
/// both reasons, that of the plug first.
pub proof fn law_double_failures_name_both(
    before: Migration,
    after: Migration,
    action: Action,
    first: String,
    second: String,
)
    requires
        before.stage == (Stage::TakingBack { failure: first }),
        step(before, Event::TakeBackFailed(second), after, action),
    ensures
        action is Fail,
        action->Fail_0.message@ == "could not remove plug schedule ("@ + first@
            + ") or roll back server schedule ("@ + second@ + ")"@,
{
}

/// A move waits for what it just asked for, and is over exactly where it is done or failed.
pub proof fn law_moves_wait_for_what_they_ask(
    before: Migration,
    event: Event,
    after: Migration,
    action: Action,
)
    requires
        step(before, event, after, action),
    ensures
        action is Finish || action is Fail <==> after.stage is Over,
        action is Add <==> after.stage is Adding,
        action is DeleteSchedule <==> after.stage is Deleting,
        action is DeleteRule <==> after.stage is TakingBack,
        awaits(before.stage, event),
{
}

} // verus!
