//! Control of devices through the interface: a run goes from probe to command to read-back,
//! and its outcome is reported.
use crate::api::{brightness_field, ApiError};
use crate::plug::{Address, SmartPlug};
use crate::text::same_text;
use vstd::prelude::*;
use vstd::string::*;

verus! {

/// A device that is remembered, with the time it was last seen.
#[derive(Debug, Clone)]
pub struct StoredDevice {
    pub device: SmartPlug,
    pub last_seen_at: i64,
}

/// What is asked of a device.
#[derive(Debug, Clone, Copy, PartialEq, Eq, Structural)]
pub enum Requested {
    Relay(bool),
    Brightness(u8),
}

/// How a run ended.
#[derive(Debug, Clone, Copy, PartialEq, Eq, Structural)]
pub enum Outcome {
    Confirmed,
    Failed,
    Unknown,
    NotAttempted,
}

/// The word for an outcome.
pub open spec fn outcome_name(outcome: Outcome) -> Seq<char> {
    match outcome {
        Outcome::Confirmed => "confirmed"@,
        Outcome::Failed => "failed"@,
        Outcome::Unknown => "unknown"@,
        Outcome::NotAttempted => "not_attempted"@,
    }
}

impl Outcome {
    /// The word for this outcome.
    pub fn name(&self) -> (name: &'static str)
        ensures
            name@ == outcome_name(*self),
    {
        match self {
            Outcome::Confirmed => "confirmed",
            Outcome::Failed => "failed",
            Outcome::Unknown => "unknown",
            Outcome::NotAttempted => "not_attempted",
        }
    }
}

/// Why a run did not confirm what was asked.
#[derive(Debug, Clone, Copy, PartialEq, Eq, Structural)]
pub enum FailureCode {
    DeviceUnreachable,
    IdentityMismatch,
    VerificationFailed,
    StateMismatch,
}

/// The word for a failure.
pub open spec fn failure_name(code: FailureCode) -> Seq<char> {
    match code {
        FailureCode::DeviceUnreachable => "device_unreachable"@,
        FailureCode::IdentityMismatch => "identity_mismatch"@,
        FailureCode::VerificationFailed => "verification_failed"@,
        FailureCode::StateMismatch => "state_mismatch"@,
    }
}

impl FailureCode {
    /// The word for this failure.
    pub fn name(&self) -> (name: &'static str)
        ensures
            name@ == failure_name(*self),
    {
        match self {
            FailureCode::DeviceUnreachable => "device_unreachable",
            FailureCode::IdentityMismatch => "identity_mismatch",
            FailureCode::VerificationFailed => "verification_failed",
            FailureCode::StateMismatch => "state_mismatch",
        }
    }
}

/// The state of a device that was seen.
#[derive(Debug, Clone, Copy, PartialEq, Eq, Structural)]
pub struct ObservedState {
    pub relay_on: bool,
    pub brightness: Option<u8>,
    pub observed_at: i64,
}

/// What came of a run.
#[derive(Debug)]
pub struct DeviceResult {
    pub device_id: String,
    pub outcome: Outcome,
    pub code: Option<FailureCode>,
    pub observed: Option<ObservedState>,
}

/// How far a run is.
#[derive(Debug, Clone, Copy, PartialEq, Eq, Structural)]
pub enum Stage {
    /// The device is asked what it is.
    Probing,
    /// What it said is stored; it was the right device, in this state.
    Storing { relay_on: bool, brightness: Option<u8> },
    /// The command is sent.
    Commanding,
    /// The device is asked again.
    ReadingBack,
    /// What it said is stored; it was the right device, in this state.
    Recording { observed: ObservedState },
    /// The run is over.
    Finished,
}

/// The run of a command to one device.
#[derive(Debug)]
pub struct DeviceRun {
    pub request_id: String,
    pub device_id: String,
    pub address: Address,
    pub requested: Requested,
    pub stage: Stage,
}

/// What happened to a run.
#[derive(Debug)]
pub enum Event {
    /// The device answered the first probe, or did not.
    Probed(Option<SmartPlug>),
    /// The observation was stored, or was not.
    Stored(bool),
    /// The command went through, or did not.
    Commanded(bool),
    /// The device answered the second probe at a time, or did not.
    ReadBack(Option<SmartPlug>, i64),
}

/// What a run does next.
#[derive(Debug)]
pub enum Action {
    /// Store this observation.
    Store(SmartPlug),
    /// Send the command to the address of the run.
    Command,
    /// Probe the address of the run again.
    ReadBack,
    /// Report this result.
    Finish(DeviceResult),
    /// Refuse the request.
    Refuse(ApiError),
}

/// Whether an event is one that a run waits for.
pub open spec fn awaits(stage: Stage, event: Event) -> bool {
    match stage {
        Stage::Probing => event is Probed,
        Stage::Storing { .. } => event is Stored,
        Stage::Commanding => event is Commanded,
        Stage::ReadingBack => event is ReadBack,
        Stage::Recording { .. } => event is Stored,
        Stage::Finished => false,
    }
}

/// Whether a device is in the state that was asked for.
pub open spec fn meets(requested: Requested, observed: ObservedState) -> bool {
    match requested {
        Requested::Relay(on) => observed.relay_on == on,
        Requested::Brightness(brightness) => observed.brightness == Some(brightness),
    }
}

/// Whether what is asked for needs something that the device lacks: a change of brightness
/// needs a dimmer that is on.
pub open spec fn unmet(requested: Requested, relay_on: bool, brightness: Option<u8>) -> bool {
    requested is Brightness && (brightness is None || !relay_on)
}

/// The stage of a run after an event.
pub open spec fn stage_after(run: DeviceRun, event: Event) -> Stage {
    match (run.stage, event) {
        (Stage::Probing, Event::Probed(Some(plug))) => if plug.device_id@ == run.device_id@ {
            Stage::Storing { relay_on: plug.relay_on, brightness: plug.brightness }
        } else {
            Stage::Finished
        },
        (Stage::Storing { relay_on, brightness }, Event::Stored(stored)) => if stored && !unmet(
            run.requested,
            relay_on,
            brightness,
        ) {
            Stage::Commanding
        } else {
            Stage::Finished
        },
        (Stage::Commanding, Event::Commanded(sent)) => if sent {
            Stage::ReadingBack
        } else {
            Stage::Finished
        },
        (Stage::ReadingBack, Event::ReadBack(Some(plug), observed_at)) => if plug.device_id@
            == run.device_id@ {
            Stage::Recording {
                observed: ObservedState {
                    relay_on: plug.relay_on,
                    brightness: plug.brightness,
                    observed_at,
                },
            }
        } else {
            Stage::Finished
        },
        _ => Stage::Finished,
    }
}

/// Whether an action reports this result for a run.
pub open spec fn reports(
    action: Action,
    run: DeviceRun,
    outcome: Outcome,
    code: Option<FailureCode>,
    observed: Option<ObservedState>,
) -> bool {
    action matches Action::Finish(result) && result.device_id@ == run.device_id@ && result.outcome
        == outcome && result.code == code && result.observed == observed
}

/// Whether an action refuses a change of brightness for want of a dimmer.
pub open spec fn refuses_capability(action: Action, run: DeviceRun) -> bool {
    action matches Action::Refuse(error) && crate::api::not_started(
        error,
        run.request_id@,
        422,
        "unsupported_capability"@,
        "This device does not support brightness."@,
    ) && !error.retryable && !error.retry_after && crate::api::names_field(error)
}

/// Whether an action refuses a change of brightness because the relay is off.
pub open spec fn refuses_off(action: Action, run: DeviceRun) -> bool {
    action matches Action::Refuse(error) && crate::api::bare(error) && crate::api::not_started(
        error,
        run.request_id@,
        409,
        "relay_off"@,
        "Brightness cannot be changed while the relay is off."@,
    )
}

/// Whether an action is the one that a run takes after an event.
pub open spec fn acts(run: DeviceRun, event: Event, action: Action) -> bool {
    match (run.stage, event) {
        (Stage::Probing, Event::Probed(probe)) => match probe {
            None => reports(
                action,
                run,
                Outcome::Failed,
                Some(FailureCode::DeviceUnreachable),
                None,
            ),
            Some(plug) => if plug.device_id@ == run.device_id@ {
                action == Action::Store(plug)
            } else {
                reports(action, run, Outcome::Failed, Some(FailureCode::IdentityMismatch), None)
            },
        },
        (Stage::Storing { relay_on, brightness }, Event::Stored(stored)) => if !stored {
            match run.requested {
                Requested::Relay(_) => reports(
                    action,
                    run,
                    Outcome::Failed,
                    Some(FailureCode::VerificationFailed),
                    None,
                ),
                Requested::Brightness(_) => action matches Action::Refuse(error)
                    && crate::api::internal_error(error, run.request_id@),
            }
        } else if run.requested is Brightness && brightness is None {
            refuses_capability(action, run)
        } else if run.requested is Brightness && !relay_on {
            refuses_off(action, run)
        } else {
            action is Command
        },
        (Stage::Commanding, Event::Commanded(sent)) => if sent {
            action is ReadBack
        } else {
            reports(action, run, Outcome::Unknown, Some(FailureCode::VerificationFailed), None)
        },
        (Stage::ReadingBack, Event::ReadBack(readback, _)) => match readback {
            None => reports(
                action,
                run,
                Outcome::Unknown,
                Some(FailureCode::VerificationFailed),
                None,
            ),
            Some(plug) => if plug.device_id@ == run.device_id@ {
                action == Action::Store(plug)
            } else {
                reports(action, run, Outcome::Unknown, Some(FailureCode::IdentityMismatch), None)
            },
        },
        (Stage::Recording { observed }, Event::Stored(stored)) => if !stored {
            reports(
                action,
                run,
                Outcome::Unknown,
                Some(FailureCode::VerificationFailed),
                Some(observed),
            )
        } else if meets(run.requested, observed) {
            reports(action, run, Outcome::Confirmed, None, Some(observed))
        } else {
            reports(
                action,
                run,
                Outcome::Failed,
                Some(FailureCode::StateMismatch),
                Some(observed),
            )
        },
        _ => true,
    }
}

fn result_of(
    device_id: &String,
    outcome: Outcome,
    code: Option<FailureCode>,
    observed: Option<ObservedState>,
) -> (result: DeviceResult)
    ensures
        result.device_id@ == device_id@,
        result.outcome == outcome,
        result.code == code,
        result.observed == observed,
{
    DeviceResult { device_id: device_id.clone(), outcome, code, observed }
}

impl DeviceRun {
    /// A run that begins with a probe of the remembered address.
    pub fn begin(request_id: &str, stored: &StoredDevice, requested: Requested) -> (run: DeviceRun)
        ensures
            run.request_id@ == request_id@,
            run.device_id@ == stored.device.device_id@,
            run.address == stored.device.address,
            run.requested == requested,
            run.stage == Stage::Probing,
    {
        DeviceRun {
            request_id: request_id.to_owned(),
            device_id: stored.device.device_id.clone(),
            address: stored.device.address,
            requested,
            stage: Stage::Probing,
        }
    }

    /// Takes a run one event further.
    pub fn advance(&mut self, event: Event) -> (action: Action)
        requires
            awaits(old(self).stage, event),
        ensures
            final(self).request_id == old(self).request_id,
            final(self).device_id == old(self).device_id,
            final(self).address == old(self).address,
            final(self).requested == old(self).requested,
            final(self).stage == stage_after(*old(self), event),
            acts(*old(self), event, action),
    {
        let stage = self.stage;
        self.stage = Stage::Finished;
        match (stage, event) {
            (Stage::Probing, Event::Probed(probe)) => match probe {
                None => Action::Finish(
                    result_of(
                        &self.device_id,
                        Outcome::Failed,
                        Some(FailureCode::DeviceUnreachable),
                        None,
                    ),
                ),
                Some(plug) => {
                    if !same_text(plug.device_id.as_str(), self.device_id.as_str()) {
                        return Action::Finish(
                            result_of(
                                &self.device_id,
                                Outcome::Failed,
                                Some(FailureCode::IdentityMismatch),
                                None,
                            ),
                        );
                    }
                    self.stage = Stage::Storing {
                        relay_on: plug.relay_on,
                        brightness: plug.brightness,
                    };
                    Action::Store(plug)
                },
            },
            (Stage::Storing { relay_on, brightness }, Event::Stored(stored)) => {
                let dims = match self.requested {
                    Requested::Brightness(_) => true,
                    Requested::Relay(_) => false,
                };
                if !stored {
                    return if dims {
                        Action::Refuse(ApiError::internal(self.request_id.as_str()))
                    } else {
                        Action::Finish(
                            result_of(
                                &self.device_id,
                                Outcome::Failed,
                                Some(FailureCode::VerificationFailed),
                                None,
                            ),
                        )
                    };
                }
                if dims && brightness.is_none() {
                    let mut error = ApiError::new(
                        self.request_id.as_str(),
                        422,
                        "unsupported_capability",
                        "This device does not support brightness.",
                        false,
                    );
                    error.details = Some(brightness_field());
                    return Action::Refuse(error);
                }
                if dims && !relay_on {
                    return Action::Refuse(
                        ApiError::new(
                            self.request_id.as_str(),
                            409,
                            "relay_off",
                            "Brightness cannot be changed while the relay is off.",
                            false,
                        ),
                    );
                }
                self.stage = Stage::Commanding;
                Action::Command
            },
            (Stage::Commanding, Event::Commanded(sent)) => {
                if sent {
                    self.stage = Stage::ReadingBack;
                    Action::ReadBack
                } else {
                    Action::Finish(
                        result_of(
                            &self.device_id,
                            Outcome::Unknown,
                            Some(FailureCode::VerificationFailed),
                            None,
                        ),
                    )
                }
            },
            (Stage::ReadingBack, Event::ReadBack(readback, observed_at)) => match readback {
                None => Action::Finish(
                    result_of(
                        &self.device_id,
                        Outcome::Unknown,
                        Some(FailureCode::VerificationFailed),
                        None,
                    ),
                ),
                Some(plug) => {
                    if !same_text(plug.device_id.as_str(), self.device_id.as_str()) {
                        return Action::Finish(
                            result_of(
                                &self.device_id,
                                Outcome::Unknown,
                                Some(FailureCode::IdentityMismatch),
                                None,
                            ),
                        );
                    }
                    self.stage = Stage::Recording {
                        observed: ObservedState {
                            relay_on: plug.relay_on,
                            brightness: plug.brightness,
                            observed_at,
                        },
                    };
                    Action::Store(plug)
                },
            },
            (Stage::Recording { observed }, Event::Stored(stored)) => {
                let met = match self.requested {
                    Requested::Relay(on) => observed.relay_on == on,
                    Requested::Brightness(brightness) => match observed.brightness {
                        Some(seen) => seen == brightness,
                        None => false,
                    },
                };
                if !stored {
                    Action::Finish(
                        result_of(
                            &self.device_id,
                            Outcome::Unknown,
                            Some(FailureCode::VerificationFailed),
                            Some(observed),
                        ),
                    )
                } else if met {
                    Action::Finish(
                        result_of(&self.device_id, Outcome::Confirmed, None, Some(observed)),
                    )
                } else {
                    Action::Finish(
                        result_of(
                            &self.device_id,
                            Outcome::Failed,
                            Some(FailureCode::StateMismatch),
                            Some(observed),
                        ),
                    )
                }
            },
            _ => Action::Finish(
                result_of(
                    &self.device_id,
                    Outcome::Unknown,
                    Some(FailureCode::VerificationFailed),
                    None,
                ),
            ),
        }
    }
}

/// The run after the first `count` events.
pub open spec fn run_after(run: DeviceRun, events: Seq<Event>, count: int) -> DeviceRun
    decreases count,
{
    if count <= 0 {
        run
    } else {
        let before = run_after(run, events, count - 1);
        DeviceRun { stage: stage_after(before, events[count - 1]), ..before }
    }
}

/// Whether events are ones that a run waits for, one after another.
pub open spec fn is_trace(run: DeviceRun, events: Seq<Event>) -> bool {
    forall|i: int|
        0 <= i < events.len() ==> awaits(run_after(run, events, i).stage, #[trigger] events[i])
}

/// Whether an event is an answer to the first probe by the device that was meant.
pub open spec fn identified(run: DeviceRun, event: Event) -> bool {
    event matches Event::Probed(Some(plug)) && plug.device_id@ == run.device_id@
}

proof fn lemma_stage_of_run(run: DeviceRun, events: Seq<Event>, count: int)
    requires
        run.stage == Stage::Probing,
        is_trace(run, events),
        0 <= count <= events.len(),
    ensures
        run_after(run, events, count).device_id == run.device_id,
        run_after(run, events, count).address == run.address,
        run_after(run, events, count).requested == run.requested,
        run_after(run, events, count).request_id == run.request_id,
        ({
            let stage = run_after(run, events, count).stage;
            &&& stage is Probing ==> count == 0
            &&& stage is Storing ==> count == 1 && identified(run, events[0])
            &&& stage is Commanding ==> count == 2 && identified(run, events[0]) && events[1]
                == Event::Stored(true)
            &&& stage is ReadingBack ==> count == 3 && identified(run, events[0])
            &&& stage is Recording ==> count == 4 && identified(run, events[0])
        }),
    decreases count,
{
    if count > 0 {
        lemma_stage_of_run(run, events, count - 1);
        assert(awaits(run_after(run, events, count - 1).stage, events[count - 1]));
    }
}

/// An address that answers with another identity is never actuated: a run sends its command
/// only after the device that was meant answered from the address, and after that was stored.
pub proof fn law_only_identified_devices_are_commanded(
    run: DeviceRun,
    events: Seq<Event>,
    index: int,
    action: Action,
)
    requires
        run.stage == Stage::Probing,
        is_trace(run, events),
        0 <= index < events.len(),
        acts(run_after(run, events, index), events[index], action),
        action is Command,
    ensures
        index == 1,
        identified(run, events[0]),
        events[1] == Event::Stored(true),
        run_after(run, events, index).address == run.address,
{
    lemma_stage_of_run(run, events, index);
    assert(awaits(run_after(run, events, index).stage, events[index]));
}

/// A run takes at most five events, and after five it has ended.
pub proof fn law_runs_end(run: DeviceRun, events: Seq<Event>)
    requires
        run.stage == Stage::Probing,
        is_trace(run, events),
    ensures
        events.len() <= 5,
        events.len() == 5 ==> run_after(run, events, 5).stage == Stage::Finished,
{
    if events.len() >= 5 {
        lemma_stage_of_run(run, events, 5);
    }
    if events.len() > 5 {
        assert(awaits(run_after(run, events, 5).stage, events[5]));
    }
}

/// Only what the device that was meant showed of itself is stored.
pub proof fn law_only_own_observations_are_stored(
    run: DeviceRun,
    events: Seq<Event>,
    index: int,
    action: Action,
)
    requires
        run.stage == Stage::Probing,
        is_trace(run, events),
        0 <= index < events.len(),
        acts(run_after(run, events, index), events[index], action),
    ensures
        action matches Action::Store(plug) ==> plug.device_id@ == run.device_id@ && match events[index] {
            Event::Probed(seen) => seen == Some(plug),
            Event::ReadBack(seen, _) => seen == Some(plug),
            _ => false,
        },
{
    lemma_stage_of_run(run, events, index);
    assert(awaits(run_after(run, events, index).stage, events[index]));
}

/// A run confirms only what the device that was meant was seen to do: the state that it read
/// back is the one that was asked for.
pub proof fn law_confirmed_means_observed(
    run: DeviceRun,
    events: Seq<Event>,
    index: int,
    action: Action,
)
    requires
        run.stage == Stage::Probing,
        is_trace(run, events),
        0 <= index < events.len(),
        acts(run_after(run, events, index), events[index], action),
        action matches Action::Finish(result) && result.outcome == Outcome::Confirmed,
    ensures
        index == 4,
        events[3] matches Event::ReadBack(Some(plug), _) && plug.device_id@ == run.device_id@
            && match run.requested {
            Requested::Relay(on) => plug.relay_on == on,
            Requested::Brightness(brightness) => plug.brightness == Some(brightness),
        },
{
    lemma_stage_of_run(run, events, index);
    assert(awaits(run_after(run, events, index).stage, events[index]));
    lemma_stage_of_run(run, events, 3);
    assert(awaits(run_after(run, events, 3).stage, events[3]));
    lemma_stage_of_run(run, events, 4);
}

/// A change of brightness is sent only to a dimmer that was just seen to be on.
pub proof fn law_brightness_needs_a_lit_dimmer(
    run: DeviceRun,
    events: Seq<Event>,
    index: int,
    action: Action,
)
    requires
        run.stage == Stage::Probing,
        run.requested is Brightness,
        is_trace(run, events),
        0 <= index < events.len(),
        acts(run_after(run, events, index), events[index], action),
        action is Command,
    ensures
        index == 1,
        events[0] matches Event::Probed(Some(plug)) && plug.relay_on && plug.brightness is Some,
{
    lemma_stage_of_run(run, events, index);
    assert(awaits(run_after(run, events, index).stage, events[index]));
    lemma_stage_of_run(run, events, 0);
    assert(awaits(run_after(run, events, 0).stage, events[0]));
    lemma_stage_of_run(run, events, 1);
}

/// A run that ends before its command is sent failed, and saw nothing. Once the command is on its
/// way and the device cannot be read, what came of it is unknown.
pub proof fn law_outcomes_depend_on_the_command(run: DeviceRun, event: Event, action: Action)
    requires
        awaits(run.stage, event),
        acts(run, event, action),
        action is Finish,
    ensures
        action->Finish_0.device_id@ == run.device_id@,
        run.stage is Probing || run.stage is Storing ==> action->Finish_0.outcome
            == Outcome::Failed && action->Finish_0.observed is None,
        run.stage is Commanding || run.stage is ReadingBack ==> action->Finish_0.outcome
            == Outcome::Unknown && action->Finish_0.observed is None,
        action->Finish_0.code is None <==> action->Finish_0.outcome == Outcome::Confirmed,
        action->Finish_0.outcome != Outcome::NotAttempted,
{
}

/// A device that does not answer the first probe is unreachable. One that answers with another
/// identity, at either probe, is a mismatch of identities. One that answers as it should is
/// remembered.
pub proof fn law_probes_are_answered_by_the_device(run: DeviceRun, event: Event, action: Action)
    requires
        awaits(run.stage, event),
        acts(run, event, action),
    ensures
        event matches Event::Probed(None) ==> action is Finish && action->Finish_0.code == Some(
            FailureCode::DeviceUnreachable,
        ),
        event matches Event::ReadBack(None, _) ==> action is Finish && action->Finish_0.code
            == Some(FailureCode::VerificationFailed),
        event matches Event::Probed(Some(plug)) ==> if plug.device_id@ == run.device_id@ {
            action == Action::Store(plug)
        } else {
            action is Finish && action->Finish_0.code == Some(FailureCode::IdentityMismatch)
        },
        event matches Event::ReadBack(Some(plug), _) ==> if plug.device_id@ == run.device_id@ {
            action == Action::Store(plug)
        } else {
            action is Finish && action->Finish_0.code == Some(FailureCode::IdentityMismatch)
        },
{
}

/// A state that was read back and remembered confirms what was asked where the relay, or the
/// brightness, is as asked; else the command failed. Where it could not be remembered, the outcome
/// is unknown. What was seen is reported each time.
pub proof fn law_read_backs_decide(
    run: DeviceRun,
    stored: bool,
    observed: ObservedState,
    action: Action,
)
    requires
        run.stage == (Stage::Recording { observed }),
        acts(run, Event::Stored(stored), action),
    ensures
        action is Finish,
        action->Finish_0.observed == Some(observed),
        ({
            let as_asked = match run.requested {
                Requested::Relay(on) => observed.relay_on == on,
                Requested::Brightness(percent) => observed.brightness is Some
                    && observed.brightness->0 == percent,
            };
            &&& action->Finish_0.outcome == Outcome::Confirmed <==> stored && as_asked
            &&& action->Finish_0.outcome == Outcome::Failed <==> stored && !as_asked
            &&& action->Finish_0.outcome == Outcome::Unknown <==> !stored
            &&& action->Finish_0.code == Some(FailureCode::StateMismatch) <==> stored && !as_asked
        }),
{
}

/// A command is sent exactly where the device was remembered as it answered, and a change of
/// brightness only to a dimmer that is on. A device without a dimmer is refused as unprocessable,
/// and one that is off as in conflict.
pub proof fn law_commands_need_a_remembered_device(
    run: DeviceRun,
    stored: bool,
    relay_on: bool,
    brightness: Option<u8>,
    action: Action,
)
    requires
        run.stage == (Stage::Storing { relay_on, brightness }),
        acts(run, Event::Stored(stored), action),
    ensures
        action is Command <==> stored && match run.requested {
            Requested::Relay(_) => true,
            Requested::Brightness(_) => brightness is Some && relay_on,
        },
        stored && run.requested is Brightness && brightness is None ==> action is Refuse
            && action->Refuse_0.status == 422,
        stored && run.requested is Brightness && brightness is Some && !relay_on ==> action
            is Refuse && action->Refuse_0.status == 409,
        !stored && run.requested is Relay ==> action is Finish && action->Finish_0.code == Some(
            FailureCode::VerificationFailed,
        ),
        !stored && run.requested is Brightness ==> action is Refuse && action->Refuse_0.status
            == 500,
{
}

/// A run goes through its stages in order, and keeps what the device said for the next one.
pub proof fn law_stages_follow(run: DeviceRun, event: Event)
    requires
        awaits(run.stage, event),
    ensures
        event matches Event::Probed(Some(plug)) ==> (plug.device_id@ == run.device_id@ ==> (
        stage_after(run, event) matches Stage::Storing { relay_on, brightness } && relay_on
            == plug.relay_on && brightness == plug.brightness)),
        event matches Event::ReadBack(Some(plug), at) ==> (plug.device_id@ == run.device_id@ ==> (
        stage_after(run, event) matches Stage::Recording { observed } && observed.relay_on
            == plug.relay_on && observed.brightness == plug.brightness && observed.observed_at
            == at)),
        event == Event::Commanded(true) ==> stage_after(run, event) is ReadingBack,
        stage_after(run, event) is Commanding ==> run.stage is Storing && event == Event::Stored(
            true,
        ),
        event matches Event::Probed(Some(plug)) && plug.device_id@ != run.device_id@ ==> stage_after(
            run,
            event,
        ) is Finished,
        event == Event::Commanded(false) ==> stage_after(run, event) is Finished,
        run.stage is Recording ==> stage_after(run, event) is Finished,
{
}

/// Every outcome and every failure has a word of its own.
pub proof fn law_words_are_distinct(
    outcome: Outcome,
    other: Outcome,
    code: FailureCode,
    second: FailureCode,
)
    ensures
        outcome_name(outcome) == outcome_name(other) ==> outcome == other,
        failure_name(code) == failure_name(second) ==> code == second,
        outcome_name(outcome) == "confirmed"@ <==> outcome == Outcome::Confirmed,
        outcome_name(outcome) == "failed"@ <==> outcome == Outcome::Failed,
        outcome_name(outcome) == "unknown"@ <==> outcome == Outcome::Unknown,
        outcome_name(outcome) == "not_attempted"@ <==> outcome == Outcome::NotAttempted,
        failure_name(code) == "device_unreachable"@ <==> code == FailureCode::DeviceUnreachable,
        failure_name(code) == "identity_mismatch"@ <==> code == FailureCode::IdentityMismatch,
        failure_name(code) == "verification_failed"@ <==> code == FailureCode::VerificationFailed,
        failure_name(code) == "state_mismatch"@ <==> code == FailureCode::StateMismatch,
{
    reveal_strlit("confirmed");
    reveal_strlit("failed");
    reveal_strlit("unknown");
    reveal_strlit("not_attempted");
    assert("confirmed"@.len() == 9);
    assert("failed"@.len() == 6);
    assert("unknown"@.len() == 7);
    assert("not_attempted"@.len() == 13);
    reveal_strlit("device_unreachable");
    reveal_strlit("identity_mismatch");
    reveal_strlit("verification_failed");
    reveal_strlit("state_mismatch");
    assert("device_unreachable"@.len() == 18);
    assert("identity_mismatch"@.len() == 17);
    assert("verification_failed"@.len() == 19);
    assert("state_mismatch"@.len() == 14);
}

/// A run waits for what it just asked for, and is over exactly where it reported or refused.
pub proof fn law_runs_wait_for_what_they_ask(run: DeviceRun, event: Event, action: Action)
    requires
        awaits(run.stage, event),
        acts(run, event, action),
    ensures
        action is Finish || action is Refuse <==> stage_after(run, event) is Finished,
        action is Command <==> stage_after(run, event) is Commanding,
        action is ReadBack <==> stage_after(run, event) is ReadingBack,
        action is Store <==> stage_after(run, event) is Storing || stage_after(run, event)
            is Recording,
        forall|next: Event| #[trigger]
            awaits(stage_after(run, event), next) ==> match next {
                Event::Probed(_) => false,
                Event::Stored(_) => action is Store,
                Event::Commanded(_) => action is Command,
                Event::ReadBack(_, _) => action is ReadBack,
            },
{
}

} // verus!
