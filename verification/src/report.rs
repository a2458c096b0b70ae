//! Reports of the interface: which devices a command goes to, and what came of it.
use crate::api::{ApiError, MAX_GROUP_MEMBERS};
use crate::control::{DeviceResult, FailureCode, Outcome, Requested, StoredDevice};
use crate::group::DeviceGroup;
use crate::json::{Json, Tree};
use crate::text::{parse_number, precedes, same_text};
use vstd::prelude::*;
use vstd::string::*;

verus! {

/// The word for the state of a relay.
pub open spec fn relay_name(on: bool) -> Seq<char> {
    if on {
        "on"@
    } else {
        "off"@
    }
}

/// The word for the state of a relay.
pub fn relay_state(on: bool) -> (name: &'static str)
    ensures
        name@ == relay_name(on),
{
    if on {
        "on"
    } else {
        "off"
    }
}

/// A brightness as a document.
pub open spec fn brightness_tree(brightness: Option<u8>) -> Tree {
    match brightness {
        Some(value) => crate::json::natural(value as int),
        None => Tree::Null,
    }
}

fn brightness_json(brightness: Option<u8>) -> (document: Json)
    ensures
        document.tree() == brightness_tree(brightness),
{
    match brightness {
        Some(value) => Json::unsigned(value as u64),
        None => Json::Null,
    }
}

/// A state that was seen, as a document.
pub open spec fn state_tree(relay_on: bool, brightness: Option<u8>, observed_at: i64) -> Tree {
    Tree::Object(
        seq![
            ("brightness"@, brightness_tree(brightness)),
            ("observed_at"@, crate::json::integer(observed_at as int)),
            ("relay"@, Tree::Text(relay_name(relay_on))),
        ],
    )
}

fn state_json(relay_on: bool, brightness: Option<u8>, observed_at: i64) -> (document: Json)
    ensures
        document.tree() == state_tree(relay_on, brightness, observed_at),
{
    let document = Json::empty().with("brightness", brightness_json(brightness)).with(
        "observed_at",
        Json::signed(observed_at),
    ).with("relay", Json::text(relay_state(relay_on)));
    proof {
        assert(document.tree()->Object_0 =~= state_tree(
            relay_on,
            brightness,
            observed_at,
        )->Object_0);
    }
    document
}

/// What came of a run, as a document.
pub open spec fn result_tree(result: DeviceResult) -> Tree {
    Tree::Object(
        seq![
            (
                "code"@,
                match result.code {
                    Some(code) => Tree::Text(crate::control::failure_name(code)),
                    None => Tree::Null,
                },
            ),
            ("device_id"@, Tree::Text(result.device_id@)),
            (
                "observed"@,
                match result.observed {
                    Some(observed) => state_tree(
                        observed.relay_on,
                        observed.brightness,
                        observed.observed_at,
                    ),
                    None => Tree::Null,
                },
            ),
            ("outcome"@, Tree::Text(crate::control::outcome_name(result.outcome))),
        ],
    )
}

fn result_json(result: &DeviceResult) -> (document: Json)
    ensures
        document.tree() == result_tree(*result),
{
    let code = match &result.code {
        Some(code) => Json::text(code.name()),
        None => Json::Null,
    };
    let observed = match &result.observed {
        Some(observed) => state_json(
            observed.relay_on,
            observed.brightness,
            observed.observed_at,
        ),
        None => Json::Null,
    };
    let document = Json::empty().with("code", code).with(
        "device_id",
        Json::text(result.device_id.as_str()),
    ).with("observed", observed).with("outcome", Json::text(result.outcome.name()));
    proof {
        assert(document.tree()->Object_0 =~= result_tree(*result)->Object_0);
    }
    document
}

/// The number of the first `count` results that have an outcome.
pub open spec fn outcome_count(results: Seq<DeviceResult>, outcome: Outcome, count: int) -> int
    decreases count,
{
    if count <= 0 {
        0
    } else {
        outcome_count(results, outcome, count - 1) + (if results[count - 1].outcome == outcome {
            1int
        } else {
            0
        })
    }
}

fn count_outcomes(results: &Vec<DeviceResult>, outcome: Outcome) -> (count: usize)
    ensures
        count == outcome_count(results@, outcome, results@.len() as int),
{
    let mut count: usize = 0;
    let mut index: usize = 0;
    while index < results.len()
        invariant
            index <= results@.len(),
            count == outcome_count(results@, outcome, index as int),
            count <= index,
        decreases results@.len() - index,
    {
        if results[index].outcome == outcome {
            count = count + 1;
        }
        index = index + 1;
    }
    count
}

/// Every result is counted under one outcome.
pub proof fn law_counts_add_up(results: Seq<DeviceResult>, count: int)
    requires
        0 <= count <= results.len(),
    ensures
        outcome_count(results, Outcome::Confirmed, count) + outcome_count(
            results,
            Outcome::Failed,
            count,
        ) + outcome_count(results, Outcome::Unknown, count) + outcome_count(
            results,
            Outcome::NotAttempted,
            count,
        ) == count,
    decreases count,
{
    if count > 0 {
        law_counts_add_up(results, count - 1);
    }
}

/// The word for what came of a command as a whole.
pub open spec fn overall(results: Seq<DeviceResult>) -> Seq<char> {
    let count = results.len() as int;
    if outcome_count(results, Outcome::Confirmed, count) == count {
        "confirmed"@
    } else if outcome_count(results, Outcome::Confirmed, count) > 0 {
        "partial"@
    } else if outcome_count(results, Outcome::Unknown, count) > 0 {
        "unknown"@
    } else {
        "failed"@
    }
}

/// What was asked for, as a document.
pub open spec fn requested_tree(requested: Requested) -> Tree {
    match requested {
        Requested::Relay(on) => Tree::Object(seq![("relay"@, Tree::Text(relay_name(on)))]),
        Requested::Brightness(brightness) => Tree::Object(
            seq![("brightness"@, crate::json::natural(brightness as int))],
        ),
    }
}

/// The numbers of results, as a document.
pub open spec fn counts_tree(results: Seq<DeviceResult>) -> Tree {
    let count = results.len() as int;
    Tree::Object(
        seq![
            (
                "confirmed"@,
                crate::json::natural(outcome_count(results, Outcome::Confirmed, count)),
            ),
            ("failed"@, crate::json::natural(outcome_count(results, Outcome::Failed, count))),
            (
                "not_attempted"@,
                crate::json::natural(outcome_count(results, Outcome::NotAttempted, count)),
            ),
            ("unknown"@, crate::json::natural(outcome_count(results, Outcome::Unknown, count))),
        ],
    )
}

/// The report of a command.
pub open spec fn mutation_tree(
    request_id: Seq<char>,
    kind: Seq<char>,
    id: Seq<char>,
    requested: Requested,
    results: Seq<DeviceResult>,
) -> Tree {
    Tree::Object(
        seq![
            ("counts"@, counts_tree(results)),
            ("outcome"@, Tree::Text(overall(results))),
            ("request_id"@, Tree::Text(request_id)),
            ("requested"@, requested_tree(requested)),
            ("results"@, Tree::Array(results.map_values(|result: DeviceResult| result_tree(result)))),
            (
                "target"@,
                Tree::Object(seq![("id"@, Tree::Text(id)), ("kind"@, Tree::Text(kind))]),
            ),
        ],
    )
}

fn results_json(results: &Vec<DeviceResult>) -> (document: Json)
    ensures
        document.tree() == Tree::Array(
            results@.map_values(|result: DeviceResult| result_tree(result)),
        ),
{
    let mut items: Vec<Json> = Vec::new();
    let mut index: usize = 0;
    while index < results.len()
        invariant
            index <= results@.len(),
            items@.len() == index,
            forall|i: int|
                0 <= i < index ==> (#[trigger] items@[i]).tree() == result_tree(results@[i]),
        decreases results@.len() - index,
    {
        items.push(result_json(&results[index]));
        index = index + 1;
    }
    let document = Json::Array(items);
    proof {
        assert(document.tree()->Array_0 =~= results@.map_values(
            |result: DeviceResult| result_tree(result),
        ));
    }
    document
}

/// The report of a command to a device or a group.
pub fn mutation_response(
    request_id: &str,
    kind: &str,
    id: &str,
    requested: Requested,
    results: &Vec<DeviceResult>,
) -> (document: Json)
    ensures
        document.tree() == mutation_tree(request_id@, kind@, id@, requested, results@),
{
    let confirmed: usize = count_outcomes(results, Outcome::Confirmed);
    let failed: usize = count_outcomes(results, Outcome::Failed);
    let unknown: usize = count_outcomes(results, Outcome::Unknown);
    let not_attempted: usize = count_outcomes(results, Outcome::NotAttempted);
    let outcome = if confirmed == results.len() {
        "confirmed"
    } else if confirmed > 0 {
        "partial"
    } else if unknown > 0 {
        "unknown"
    } else {
        "failed"
    };
    let counts = Json::empty().with("confirmed", Json::unsigned(confirmed as u64)).with(
        "failed",
        Json::unsigned(failed as u64),
    ).with("not_attempted", Json::unsigned(not_attempted as u64)).with(
        "unknown",
        Json::unsigned(unknown as u64),
    );
    let asked = match requested {
        Requested::Relay(on) => Json::empty().with("relay", Json::text(relay_state(on))),
        Requested::Brightness(brightness) => Json::empty().with(
            "brightness",
            Json::unsigned(brightness as u64),
        ),
    };
    let target = Json::empty().with("id", Json::text(id)).with("kind", Json::text(kind));
    let document = Json::empty().with("counts", counts).with("outcome", Json::text(outcome)).with(
        "request_id",
        Json::text(request_id),
    ).with("requested", asked).with("results", results_json(results)).with("target", target);
    proof {
        assert(counts.tree()->Object_0 =~= counts_tree(results@)->Object_0);
        assert(target.tree()->Object_0 =~= seq![("id"@, Tree::Text(id@)), ("kind"@, Tree::Text(kind@))]);
        assert(document.tree()->Object_0 =~= mutation_tree(
            request_id@,
            kind@,
            id@,
            requested,
            results@,
        )->Object_0);
    }
    document
}

/// Whether results stand in the order of the identities of their devices.
pub open spec fn results_in_order(results: Seq<DeviceResult>) -> bool {
    forall|i: int, j: int|
        0 <= i < j < results.len() ==> !crate::text::text_before(
            (#[trigger] results[j]).device_id@,
            (#[trigger] results[i]).device_id@,
        )
}

/// Sorts results by the identities of their devices.
pub fn sorted_results(results: Vec<DeviceResult>) -> (sorted: Vec<DeviceResult>)
    ensures
        results_in_order(sorted@),
        sorted@.to_multiset() == results@.to_multiset(),
{
    let mut left = results;
    let ghost all = left@;
    let ghost mut count: int = 0;
    let mut sorted: Vec<DeviceResult> = Vec::new();
    proof {
        assert(all.take(0) =~= sorted@);
    }
    while left.len() > 0
        invariant
            all == results@,
            0 <= count <= all.len(),
            left@ == all.skip(count),
            results_in_order(sorted@),
            sorted@.to_multiset() == all.take(count).to_multiset(),
        decreases left@.len(),
    {
        let result = left.remove(0);
        proof {
            assert(result == all[count]);
            assert(all.take(count + 1) =~= all.take(count).push(result));
            all.take(count).to_multiset_ensures();
        }
        insert_result(&mut sorted, result);
        proof {
            count = count + 1;
        }
    }
    proof {
        assert(all.take(count) =~= all);
    }
    sorted
}

fn insert_result(sorted: &mut Vec<DeviceResult>, result: DeviceResult)
    requires
        results_in_order(old(sorted)@),
    ensures
        results_in_order(final(sorted)@),
        final(sorted)@.to_multiset() == old(sorted)@.to_multiset().insert(result),
{
    let ghost before = sorted@;
    let mut index: usize = sorted.len();
    while index > 0 && precedes(result.device_id.as_str(), sorted[index - 1].device_id.as_str())
        invariant
            index <= sorted@.len(),
            sorted@ == before,
            forall|i: int|
                index <= i < before.len() ==> crate::text::text_before(
                    result.device_id@,
                    (#[trigger] before[i]).device_id@,
                ),
        decreases index,
    {
        index = index - 1;
    }
    let ghost id = result.device_id@;
    sorted.insert(index, result);
    proof {
        let after = sorted@;
        assert(after =~= before.insert(index as int, result));
        assert forall|i: int| 0 <= i < index implies !crate::text::text_before(
            id,
            (#[trigger] before[i]).device_id@,
        ) by {
            let nearest = before[index - 1].device_id@;
            if i < index - 1 {
                assert(!crate::text::text_before(nearest, before[i].device_id@));
                if crate::text::text_before(id, before[i].device_id@) {
                    crate::text::lemma_text_order_total(nearest, before[i].device_id@);
                    if nearest != before[i].device_id@ {
                        crate::text::lemma_text_order_transitive(
                            id,
                            before[i].device_id@,
                            nearest,
                        );
                    }
                }
            }
        }
        assert forall|i: int, j: int| 0 <= i < j < after.len() implies !crate::text::text_before(
            (#[trigger] after[j]).device_id@,
            (#[trigger] after[i]).device_id@,
        ) by {
            if j < index {
                assert(after[i] == before[i] && after[j] == before[j]);
            } else if j == index {
                assert(after[i] == before[i]);
            } else if i < index {
                assert(after[i] == before[i] && after[j] == before[j - 1]);
            } else if i == index {
                assert(after[j] == before[j - 1]);
                crate::text::lemma_text_order_asymmetric(id, before[j - 1].device_id@);
            } else {
                assert(after[i] == before[i - 1] && after[j] == before[j - 1]);
            }
        }
        vstd::seq_lib::to_multiset_insert(before, index as int, result);
    }
}

/// The remembered device of that identity; of several the last.
pub open spec fn stored_named(stored: Seq<StoredDevice>, device_id: Seq<char>) -> Option<int>
    decreases stored.len(),
{
    if stored.len() == 0 {
        None
    } else if stored.last().device.device_id@ == device_id {
        Some(stored.len() - 1)
    } else {
        stored_named(stored.drop_last(), device_id)
    }
}

/// Whether a member of a group occurs for the first time.
pub open spec fn first_occurrence(members: Seq<Seq<char>>, index: int) -> bool {
    !members.take(index).contains(members[index])
}

/// The remembered devices that the first `count` members of a group name, each once.
pub open spec fn attempts(
    members: Seq<Seq<char>>,
    stored: Seq<StoredDevice>,
    count: int,
) -> Seq<usize>
    decreases count,
{
    if count <= 0 {
        seq![]
    } else {
        let front = attempts(members, stored, count - 1);
        match stored_named(stored, members[count - 1]) {
            Some(index) if first_occurrence(members, count - 1) => front.push(index as usize),
            _ => front,
        }
    }
}

/// The members among the first `count` of a group that are not remembered, each once.
pub open spec fn missing(
    members: Seq<Seq<char>>,
    stored: Seq<StoredDevice>,
    count: int,
) -> Seq<Seq<char>>
    decreases count,
{
    if count <= 0 {
        seq![]
    } else {
        let front = missing(members, stored, count - 1);
        if first_occurrence(members, count - 1) && stored_named(stored, members[count - 1]) is None {
            front.push(members[count - 1])
        } else {
            front
        }
    }
}

/// The devices that a command to a group goes to, by their places among the remembered ones,
/// and the results for members that are not remembered.
#[derive(Debug)]
pub struct GroupPlan {
    pub attempts: Vec<usize>,
    pub missing: Vec<DeviceResult>,
}

/// Whether a result says that a device was not attempted.
pub open spec fn not_attempted(result: DeviceResult, device_id: Seq<char>) -> bool {
    &&& result.device_id@ == device_id
    &&& result.outcome == Outcome::NotAttempted
    &&& result.code == Some(FailureCode::DeviceUnreachable)
    &&& result.observed is None
}

fn find_stored(stored: &Vec<StoredDevice>, device_id: &str) -> (index: Option<usize>)
    ensures
        match index {
            Some(index) => index < stored@.len() && stored_named(stored@, device_id@) == Some(
                index as int,
            ),
            None => stored_named(stored@, device_id@) is None,
        },
{
    let mut count: usize = stored.len();
    proof {
        assert(stored@.take(stored@.len() as int) =~= stored@);
    }
    while count > 0
        invariant
            count <= stored@.len(),
            stored_named(stored@, device_id@) == stored_named(
                stored@.take(count as int),
                device_id@,
            ),
        decreases count,
    {
        proof {
            assert(stored@.take(count as int).drop_last() =~= stored@.take(count - 1));
        }
        if same_text(stored[count - 1].device.device_id.as_str(), device_id) {
            return Some(count - 1);
        }
        count = count - 1;
    }
    None
}

fn occurs_before(members: &Vec<String>, index: usize) -> (result: bool)
    requires
        index < members@.len(),
    ensures
        result == !first_occurrence(crate::text::texts(members@), index as int),
{
    let ghost names = crate::text::texts(members@);
    let mut earlier: usize = 0;
    while earlier < index
        invariant
            earlier <= index < members@.len(),
            names == crate::text::texts(members@),
            forall|i: int|
                0 <= i < earlier ==> #[trigger] names.take(index as int)[i] != names[index as int],
        decreases index - earlier,
    {
        proof {
            assert(names.take(index as int)[earlier as int] == members@[earlier as int]@);
            assert(names[index as int] == members@[index as int]@);
        }
        if same_text(members[earlier].as_str(), members[index].as_str()) {
            proof {
                assert(names.take(index as int).contains(names[index as int]));
            }
            return true;
        }
        earlier = earlier + 1;
    }
    false
}

/// Plans a command to a group: each member once; a member that is not remembered is not
/// attempted.
pub fn group_plan(group: &DeviceGroup, stored: &Vec<StoredDevice>) -> (plan: GroupPlan)
    ensures
        plan.attempts@ == attempts(
            crate::text::texts(group.device_ids@),
            stored@,
            group.device_ids@.len() as int,
        ),
        ({
            let absent = missing(
                crate::text::texts(group.device_ids@),
                stored@,
                group.device_ids@.len() as int,
            );
            &&& plan.missing@.len() == absent.len()
            &&& forall|i: int|
                0 <= i < absent.len() ==> not_attempted(#[trigger] plan.missing@[i], absent[i])
        }),
{
    let members = &group.device_ids;
    let ghost names = crate::text::texts(members@);
    let mut plan = GroupPlan { attempts: Vec::new(), missing: Vec::new() };
    let mut index: usize = 0;
    while index < members.len()
        invariant
            index <= members@.len(),
            names == crate::text::texts(members@),
            plan.attempts@ == attempts(names, stored@, index as int),
            plan.missing@.len() == missing(names, stored@, index as int).len(),
            forall|i: int|
                0 <= i < plan.missing@.len() ==> not_attempted(
                    #[trigger] plan.missing@[i],
                    missing(names, stored@, index as int)[i],
                ),
        decreases members@.len() - index,
    {
        proof {
            assert(names[index as int] == members@[index as int]@);
        }
        if !occurs_before(members, index) {
            match find_stored(stored, members[index].as_str()) {
                Some(place) => plan.attempts.push(place),
                None => plan.missing.push(
                    DeviceResult {
                        device_id: members[index].clone(),
                        outcome: Outcome::NotAttempted,
                        code: Some(FailureCode::DeviceUnreachable),
                        observed: None,
                    },
                ),
            }
        }
        index = index + 1;
    }
    plan
}

/// The first remembered device of that identity.
pub open spec fn first_stored(stored: Seq<StoredDevice>, device_id: Seq<char>, from: int) -> Option<
    int,
>
    decreases stored.len() - from,
{
    if from < 0 || from >= stored.len() {
        None
    } else if stored[from].device.device_id@ == device_id {
        Some(from)
    } else {
        first_stored(stored, device_id, from + 1)
    }
}

/// The remembered device that a request speaks of.
pub fn find_device(stored: &Vec<StoredDevice>, device_id: &str, request_id: &str) -> (result:
    Result<usize, ApiError>)
    ensures
        match first_stored(stored@, device_id@, 0) {
            Some(index) => result is Ok && result->Ok_0 == index && index < stored@.len(),
            None => result is Err && crate::api::bare(result->Err_0) && crate::api::not_started(
                result->Err_0,
                request_id@,
                404,
                "device_not_found"@,
                "The requested device was not found."@,
            ),
        },
{
    let mut index: usize = 0;
    while index < stored.len()
        invariant
            index <= stored@.len(),
            first_stored(stored@, device_id@, 0) == first_stored(
                stored@,
                device_id@,
                index as int,
            ),
        decreases stored@.len() - index,
    {
        if same_text(stored[index].device.device_id.as_str(), device_id) {
            return Ok(index);
        }
        index = index + 1;
    }
    Err(ApiError::device_not_found(request_id))
}

/// Refuses a group with more members than a command may go to.
pub fn require_group_size(group: &DeviceGroup, request_id: &str) -> (result: Result<(), ApiError>)
    ensures
        if group.device_ids@.len() > MAX_GROUP_MEMBERS {
            result is Err && crate::api::bare(result->Err_0) && crate::api::not_started(
                result->Err_0,
                request_id@,
                422,
                "invalid_request"@,
                "The group exceeds the member limit."@,
            )
        } else {
            result is Ok
        },
{
    if group.device_ids.len() > MAX_GROUP_MEMBERS {
        return Err(
            ApiError::new(
                request_id,
                422,
                "invalid_request",
                "The group exceeds the member limit.",
                false,
            ),
        );
    }
    Ok(())
}

/// The group that a path names.
pub fn requested_group(id: &str, request_id: &str) -> (result: Result<u64, ApiError>)
    ensures
        match crate::text::number_of(id@) {
            Some(number) => result is Ok && result->Ok_0 == number,
            None => result is Err && crate::api::bare(result->Err_0) && crate::api::not_started(
                result->Err_0,
                request_id@,
                404,
                "group_not_found"@,
                "The requested group was not found."@,
            ),
        },
{
    match parse_number(id) {
        Some(number) => Ok(number),
        None => Err(ApiError::group_not_found(request_id)),
    }
}

proof fn lemma_outcome_count(results: Seq<DeviceResult>, outcome: Outcome, count: int)
    requires
        0 <= count <= results.len(),
    ensures
        0 <= outcome_count(results, outcome, count) <= count,
        outcome_count(results, outcome, count) == count <==> forall|i: int|
            0 <= i < count ==> (#[trigger] results[i]).outcome == outcome,
        outcome_count(results, outcome, count) > 0 <==> exists|i: int|
            0 <= i < count && (#[trigger] results[i]).outcome == outcome,
    decreases count,
{
    if count > 0 {
        lemma_outcome_count(results, outcome, count - 1);
        if outcome_count(results, outcome, count) == count {
            assert(outcome_count(results, outcome, count - 1) == count - 1);
            assert(results[count - 1].outcome == outcome);
        }
        if outcome_count(results, outcome, count) > 0 && outcome_count(results, outcome, count - 1)
            == 0 {
            assert(results[count - 1].outcome == outcome);
        }
    }
}

/// A command as a whole is confirmed where every device confirmed it, and partly so where some
/// did and some did not. Where none did, it is unknown what came of it where that is unknown of
/// any device, and else it failed.
pub proof fn law_overall_outcome(results: Seq<DeviceResult>)
    ensures
        overall(results) == "confirmed"@ <==> forall|i: int|
            0 <= i < results.len() ==> (#[trigger] results[i]).outcome == Outcome::Confirmed,
        overall(results) == "partial"@ <==> (exists|i: int|
            0 <= i < results.len() && (#[trigger] results[i]).outcome == Outcome::Confirmed) && (
        exists|i: int|
            0 <= i < results.len() && (#[trigger] results[i]).outcome != Outcome::Confirmed),
        overall(results) == "unknown"@ <==> (forall|i: int|
            0 <= i < results.len() ==> (#[trigger] results[i]).outcome != Outcome::Confirmed) && (
        exists|i: int|
            0 <= i < results.len() && (#[trigger] results[i]).outcome == Outcome::Unknown),
        overall(results) == "failed"@ <==> results.len() > 0 && forall|i: int|
            0 <= i < results.len() ==> (#[trigger] results[i]).outcome == Outcome::Failed
                || results[i].outcome == Outcome::NotAttempted,
{
    reveal_strlit("confirmed");
    reveal_strlit("partial");
    reveal_strlit("unknown");
    reveal_strlit("failed");
    assert("confirmed"@.len() == 9 && "failed"@.len() == 6);
    assert("partial"@.len() == 7 && "unknown"@.len() == 7);
    assert("partial"@[0] == 'p' && "unknown"@[0] == 'u');
    lemma_outcome_count(results, Outcome::Confirmed, results.len() as int);
    lemma_outcome_count(results, Outcome::Unknown, results.len() as int);
}

proof fn lemma_stored_named(stored: Seq<StoredDevice>, device_id: Seq<char>)
    ensures
        match stored_named(stored, device_id) {
            Some(place) => {
                &&& 0 <= place < stored.len()
                &&& stored[place].device.device_id@ == device_id
                &&& forall|i: int|
                    place < i < stored.len() ==> (#[trigger] stored[i]).device.device_id@
                        != device_id
            },
            None => forall|i: int|
                0 <= i < stored.len() ==> (#[trigger] stored[i]).device.device_id@ != device_id,
        },
    decreases stored.len(),
{
    if stored.len() > 0 && stored.last().device.device_id@ != device_id {
        let front = stored.drop_last();
        lemma_stored_named(front, device_id);
        assert forall|i: int| 0 <= i < stored.len() - 1 implies (#[trigger] stored[i])
            == front[i] by {}
    }
}

proof fn lemma_attempts(
    members: Seq<Seq<char>>,
    stored: Seq<StoredDevice>,
    count: int,
    place: usize,
)
    requires
        0 <= count <= members.len(),
        stored.len() <= usize::MAX,
    ensures
        attempts(members, stored, count).no_duplicates(),
        attempts(members, stored, count).contains(place) <==> exists|m: int|
            0 <= m < count && stored_named(stored, #[trigger] members[m]) == Some(place as int),
    decreases count,
{
    if count > 0 {
        let front = attempts(members, stored, count - 1);
        let all = attempts(members, stored, count);
        let member = members[count - 1];
        lemma_attempts(members, stored, count - 1, place);
        lemma_stored_named(stored, member);
        match stored_named(stored, member) {
            Some(index) => {
                lemma_attempts(members, stored, count - 1, index as usize);
                let earlier = members.take(count - 1);
                if first_occurrence(members, count - 1) {
                    assert(all == front.push(index as usize));
                    assert(all[front.len() as int] == index as usize);
                    assert(!front.contains(index as usize)) by {
                        if front.contains(index as usize) {
                            let m = choose|m: int|
                                0 <= m < count - 1 && stored_named(stored, #[trigger] members[m])
                                    == Some(index);
                            lemma_stored_named(stored, members[m]);
                            assert(members[m] == member);
                            assert(earlier[m] == member);
                        }
                    }
                    if front.contains(place) {
                        let i = choose|i: int| 0 <= i < front.len() && front[i] == place;
                        assert(all[i] == place);
                    }
                    if all.contains(place) && place != index as usize {
                        let i = choose|i: int| 0 <= i < all.len() && all[i] == place;
                        assert(front[i] == place);
                    }
                } else {
                    let m = choose|m: int| 0 <= m < earlier.len() && earlier[m] == member;
                    assert(members[m] == member);
                }
            },
            None => {},
        }
    }
}

/// A command to a group goes to each remembered member once, however often the group names it, and
/// to nothing else. Of several that are remembered under one identity the last is meant.
pub proof fn law_members_are_attempted_once(
    group: DeviceGroup,
    stored: Seq<StoredDevice>,
    plan: GroupPlan,
    place: usize,
)
    requires
        plan.attempts@ == attempts(
            crate::text::texts(group.device_ids@),
            stored,
            group.device_ids@.len() as int,
        ),
        place < stored.len() <= usize::MAX,
    ensures
        plan.attempts@.no_duplicates(),
        plan.attempts@.contains(place) <==> (exists|m: int|
            0 <= m < group.device_ids@.len() && (#[trigger] group.device_ids@[m])@
                == stored[place as int].device.device_id@) && (forall|i: int|
            place < i < stored.len() ==> (#[trigger] stored[i]).device.device_id@
                != stored[place as int].device.device_id@),
{
    let members = crate::text::texts(group.device_ids@);
    let id = stored[place as int].device.device_id@;
    lemma_attempts(members, stored, members.len() as int, place);
    lemma_stored_named(stored, id);
    if plan.attempts@.contains(place) {
        let m = choose|m: int|
            0 <= m < members.len() && stored_named(stored, #[trigger] members[m]) == Some(
                place as int,
            );
        lemma_stored_named(stored, members[m]);
        assert(group.device_ids@[m]@ == members[m]);
    }
    if exists|m: int|
        0 <= m < group.device_ids@.len() && (#[trigger] group.device_ids@[m])@ == id {
        let m = choose|m: int|
            0 <= m < group.device_ids@.len() && (#[trigger] group.device_ids@[m])@ == id;
        assert(members[m] == id);
    }
}

proof fn lemma_missing(
    members: Seq<Seq<char>>,
    stored: Seq<StoredDevice>,
    count: int,
    id: Seq<char>,
)
    requires
        0 <= count <= members.len(),
    ensures
        missing(members, stored, count).contains(id) <==> stored_named(stored, id) is None
            && exists|m: int| 0 <= m < count && #[trigger] members[m] == id,
    decreases count,
{
    if count > 0 {
        let front = missing(members, stored, count - 1);
        let all = missing(members, stored, count);
        let member = members[count - 1];
        let earlier = members.take(count - 1);
        lemma_missing(members, stored, count - 1, id);
        if all != front {
            assert(all == front.push(member));
            assert(all[front.len() as int] == member);
            if front.contains(id) {
                let i = choose|i: int| 0 <= i < front.len() && front[i] == id;
                assert(all[i] == id);
            }
            if all.contains(id) && id != member {
                let i = choose|i: int| 0 <= i < all.len() && all[i] == id;
                assert(front[i] == id);
            }
        } else if id == member && stored_named(stored, id) is None {
            assert(!first_occurrence(members, count - 1)) by {
                if first_occurrence(members, count - 1) {
                    assert(all.len() == front.len() + 1);
                }
            }
            let m = choose|m: int| 0 <= m < earlier.len() && earlier[m] == member;
            assert(members[m] == id);
        }
    }
}

/// Exactly the members that are not remembered are reported as not attempted.
pub proof fn law_missing_members_are_reported(
    group: DeviceGroup,
    stored: Seq<StoredDevice>,
    plan: GroupPlan,
    id: Seq<char>,
)
    requires
        ({
            let absent = missing(
                crate::text::texts(group.device_ids@),
                stored,
                group.device_ids@.len() as int,
            );
            &&& plan.missing@.len() == absent.len()
            &&& forall|i: int|
                0 <= i < absent.len() ==> not_attempted(#[trigger] plan.missing@[i], absent[i])
        }),
    ensures
        (exists|i: int|
            0 <= i < plan.missing@.len() && (#[trigger] plan.missing@[i]).device_id@ == id
                && plan.missing@[i].outcome == Outcome::NotAttempted) <==> (exists|m: int|
            0 <= m < group.device_ids@.len() && (#[trigger] group.device_ids@[m])@ == id) && (
        forall|i: int|
            0 <= i < stored.len() ==> (#[trigger] stored[i]).device.device_id@ != id),
{
    let members = crate::text::texts(group.device_ids@);
    let absent = missing(members, stored, members.len() as int);
    lemma_missing(members, stored, members.len() as int, id);
    lemma_stored_named(stored, id);
    if exists|i: int|
        0 <= i < plan.missing@.len() && (#[trigger] plan.missing@[i]).device_id@ == id
            && plan.missing@[i].outcome == Outcome::NotAttempted {
        let i = choose|i: int|
            0 <= i < plan.missing@.len() && (#[trigger] plan.missing@[i]).device_id@ == id
                && plan.missing@[i].outcome == Outcome::NotAttempted;
        assert(not_attempted(plan.missing@[i], absent[i]));
        assert(absent.contains(id));
        let m = choose|m: int| 0 <= m < members.len() && #[trigger] members[m] == id;
        assert(group.device_ids@[m]@ == id);
    }
    if (exists|m: int| 0 <= m < group.device_ids@.len() && (#[trigger] group.device_ids@[m])@ == id)
        && (forall|i: int|
        0 <= i < stored.len() ==> (#[trigger] stored[i]).device.device_id@ != id) {
        let m = choose|m: int|
            0 <= m < group.device_ids@.len() && (#[trigger] group.device_ids@[m])@ == id;
        assert(members[m] == id);
        let i = choose|i: int| 0 <= i < absent.len() && absent[i] == id;
        assert(not_attempted(plan.missing@[i], absent[i]));
    }
}

/// A request speaks of the first remembered device of its identity, and of none where there is
/// none.
pub proof fn law_devices_are_found(
    stored: Seq<StoredDevice>,
    device_id: Seq<char>,
    from: int,
    place: int,
)
    requires
        0 <= from <= place <= stored.len(),
        forall|i: int|
            from <= i < place ==> (#[trigger] stored[i]).device.device_id@ != device_id,
        place < stored.len() ==> stored[place].device.device_id@ == device_id,
    ensures
        first_stored(stored, device_id, from) == (if place < stored.len() {
            Some(place)
        } else {
            None
        }),
    decreases place - from,
{
    if from < place {
        assert(stored[from].device.device_id@ != device_id);
        law_devices_are_found(stored, device_id, from + 1, place);
    }
}

proof fn lemma_count_words()
    ensures
        "confirmed"@ != "failed"@,
        "confirmed"@ != "not_attempted"@,
        "confirmed"@ != "unknown"@,
        "failed"@ != "not_attempted"@,
        "failed"@ != "unknown"@,
        "not_attempted"@ != "unknown"@,
{
    reveal_strlit("confirmed");
    reveal_strlit("failed");
    reveal_strlit("not_attempted");
    reveal_strlit("unknown");
    assert("confirmed"@.len() == 9 && "confirmed"@[0] == 'c' && "confirmed"@[1] == 'o' && "confirmed"@[2] == 'n');
    assert("failed"@.len() == 6 && "failed"@[0] == 'f' && "failed"@[1] == 'a' && "failed"@[2] == 'i');
    assert("not_attempted"@.len() == 13 && "not_attempted"@[0] == 'n' && "not_attempted"@[1] == 'o' && "not_attempted"@[2] == 't');
    assert("unknown"@.len() == 7 && "unknown"@[0] == 'u' && "unknown"@[1] == 'n' && "unknown"@[2] == 'k');
}

proof fn lemma_report_words()
    ensures
        "counts"@ != "outcome"@,
        "counts"@ != "request_id"@,
        "counts"@ != "requested"@,
        "counts"@ != "results"@,
        "counts"@ != "target"@,
        "outcome"@ != "request_id"@,
        "outcome"@ != "requested"@,
        "outcome"@ != "results"@,
        "outcome"@ != "target"@,
        "request_id"@ != "requested"@,
        "request_id"@ != "results"@,
        "request_id"@ != "target"@,
        "requested"@ != "results"@,
        "requested"@ != "target"@,
        "results"@ != "target"@,
{
    reveal_strlit("counts");
    reveal_strlit("outcome");
    reveal_strlit("request_id");
    reveal_strlit("requested");
    reveal_strlit("results");
    reveal_strlit("target");
    assert("counts"@.len() == 6 && "counts"@[0] == 'c' && "counts"@[1] == 'o' && "counts"@[2] == 'u');
    assert("outcome"@.len() == 7 && "outcome"@[0] == 'o' && "outcome"@[1] == 'u' && "outcome"@[2] == 't');
    assert("request_id"@.len() == 10 && "request_id"@[0] == 'r' && "request_id"@[1] == 'e' && "request_id"@[2] == 'q');
    assert("requested"@.len() == 9 && "requested"@[0] == 'r' && "requested"@[1] == 'e' && "requested"@[2] == 'q');
    assert("results"@.len() == 7 && "results"@[0] == 'r' && "results"@[1] == 'e' && "results"@[2] == 's');
    assert("target"@.len() == 6 && "target"@[0] == 't' && "target"@[1] == 'a' && "target"@[2] == 'r');
}

proof fn lemma_result_words()
    ensures
        "code"@ != "device_id"@,
        "code"@ != "observed"@,
        "code"@ != "outcome"@,
        "device_id"@ != "observed"@,
        "device_id"@ != "outcome"@,
        "observed"@ != "outcome"@,
{
    reveal_strlit("code");
    reveal_strlit("device_id");
    reveal_strlit("observed");
    reveal_strlit("outcome");
    assert("code"@.len() == 4 && "code"@[0] == 'c' && "code"@[1] == 'o' && "code"@[2] == 'd');
    assert("device_id"@.len() == 9 && "device_id"@[0] == 'd' && "device_id"@[1] == 'e' && "device_id"@[2] == 'v');
    assert("observed"@.len() == 8 && "observed"@[0] == 'o' && "observed"@[1] == 'b' && "observed"@[2] == 's');
    assert("outcome"@.len() == 7 && "outcome"@[0] == 'o' && "outcome"@[1] == 'u' && "outcome"@[2] == 't');
}

proof fn lemma_state_words()
    ensures
        "brightness"@ != "observed_at"@,
        "brightness"@ != "relay"@,
        "observed_at"@ != "relay"@,
{
    reveal_strlit("brightness");
    reveal_strlit("observed_at");
    reveal_strlit("relay");
    assert("brightness"@.len() == 10 && "brightness"@[0] == 'b' && "brightness"@[1] == 'r' && "brightness"@[2] == 'i');
    assert("observed_at"@.len() == 11 && "observed_at"@[0] == 'o' && "observed_at"@[1] == 'b' && "observed_at"@[2] == 's');
    assert("relay"@.len() == 5 && "relay"@[0] == 'r' && "relay"@[1] == 'e' && "relay"@[2] == 'l');
}

/// A report gives the number of results of each outcome under the word for it.
pub proof fn law_reports_count_outcomes(results: Seq<DeviceResult>)
    ensures
        ({
            let document = counts_tree(results);
            let count = results.len() as int;
            &&& crate::json::tree_member(document, "confirmed"@) == Some(
                crate::json::natural(outcome_count(results, Outcome::Confirmed, count)),
            )
            &&& crate::json::tree_member(document, "failed"@) == Some(
                crate::json::natural(outcome_count(results, Outcome::Failed, count)),
            )
            &&& crate::json::tree_member(document, "unknown"@) == Some(
                crate::json::natural(outcome_count(results, Outcome::Unknown, count)),
            )
            &&& crate::json::tree_member(document, "not_attempted"@) == Some(
                crate::json::natural(outcome_count(results, Outcome::NotAttempted, count)),
            )
        }),
{
    lemma_count_words();
    let members = counts_tree(results)->Object_0;
    crate::json::law_members_are_found(members, "confirmed"@, 0);
    crate::json::law_members_are_found(members, "failed"@, 1);
    crate::json::law_members_are_found(members, "not_attempted"@, 2);
    crate::json::law_members_are_found(members, "unknown"@, 3);
}

/// A report says of each device what came of it, why it failed where it did, and the state that it
/// was seen in where it was seen.
pub proof fn law_results_are_reported(result: DeviceResult)
    ensures
        ({
            let document = result_tree(result);
            let observed = crate::json::tree_member(document, "observed"@);
            &&& crate::json::tree_member(document, "device_id"@) == Some(
                Tree::Text(result.device_id@),
            )
            &&& crate::json::tree_member(document, "outcome"@) == Some(
                Tree::Text(crate::control::outcome_name(result.outcome)),
            )
            &&& result.code is Some ==> crate::json::tree_member(document, "code"@) == Some(
                Tree::Text(crate::control::failure_name(result.code->0)),
            )
            &&& result.code is None ==> crate::json::tree_member(document, "code"@) == Some(
                Tree::Null,
            )
            &&& result.observed is None ==> observed == Some(Tree::Null)
            &&& result.observed is Some ==> observed is Some && crate::json::tree_member(
                observed->0,
                "relay"@,
            ) == Some(
                Tree::Text(
                    if result.observed->0.relay_on {
                        "on"@
                    } else {
                        "off"@
                    },
                ),
            ) && crate::json::tree_member(observed->0, "observed_at"@) == Some(
                crate::json::integer(result.observed->0.observed_at as int),
            ) && (result.observed->0.brightness is None ==> crate::json::tree_member(
                observed->0,
                "brightness"@,
            ) == Some(Tree::Null)) && (result.observed->0.brightness is Some
                ==> crate::json::tree_member(observed->0, "brightness"@) == Some(
                crate::json::natural(result.observed->0.brightness->0 as int),
            ))
        }),
{
    lemma_result_words();
    let members = result_tree(result)->Object_0;
    crate::json::law_members_are_found(members, "code"@, 0);
    crate::json::law_members_are_found(members, "device_id"@, 1);
    crate::json::law_members_are_found(members, "observed"@, 2);
    crate::json::law_members_are_found(members, "outcome"@, 3);
    if result.observed is Some {
        let seen = result.observed->0;
        lemma_state_words();
        let parts = state_tree(seen.relay_on, seen.brightness, seen.observed_at)->Object_0;
        crate::json::law_members_are_found(parts, "brightness"@, 0);
        crate::json::law_members_are_found(parts, "observed_at"@, 1);
        crate::json::law_members_are_found(parts, "relay"@, 2);
    }
}

/// A report names the request, its target, and what came of it as a whole, and lists the results in
/// their order.
pub proof fn law_reports_name_their_request(
    request_id: Seq<char>,
    kind: Seq<char>,
    id: Seq<char>,
    requested: Requested,
    results: Seq<DeviceResult>,
    i: int,
)
    requires
        0 <= i < results.len(),
    ensures
        ({
            let document = mutation_tree(request_id, kind, id, requested, results);
            let target = crate::json::tree_member(document, "target"@);
            let listed = crate::json::tree_member(document, "results"@);
            &&& crate::json::tree_member(document, "request_id"@) == Some(Tree::Text(request_id))
            &&& crate::json::tree_member(document, "outcome"@) == Some(Tree::Text(overall(results)))
            &&& crate::json::tree_member(document, "counts"@) == Some(counts_tree(results))
            &&& target is Some && crate::json::tree_member(target->0, "id"@) == Some(Tree::Text(id))
                && crate::json::tree_member(target->0, "kind"@) == Some(Tree::Text(kind))
            &&& listed is Some && listed->0 is Array && listed->0->Array_0.len() == results.len()
                && listed->0->Array_0[i] == result_tree(results[i])
        }),
{
    lemma_report_words();
    let members = mutation_tree(request_id, kind, id, requested, results)->Object_0;
    crate::json::law_members_are_found(members, "counts"@, 0);
    crate::json::law_members_are_found(members, "outcome"@, 1);
    crate::json::law_members_are_found(members, "request_id"@, 2);
    crate::json::law_members_are_found(members, "requested"@, 3);
    crate::json::law_members_are_found(members, "results"@, 4);
    crate::json::law_members_are_found(members, "target"@, 5);
    reveal_strlit("id");
    reveal_strlit("kind");
    assert("id"@.len() != "kind"@.len());
    let target: Seq<(Seq<char>, Tree)> = seq![("id"@, Tree::Text(id)), ("kind"@, Tree::Text(kind))];
    crate::json::law_members_are_found(target, "id"@, 0);
    crate::json::law_members_are_found(target, "kind"@, 1);
}

/// What was asked for is reported as the state of the relay, or as the brightness.
pub proof fn law_requests_are_reported(on: bool, brightness: u8)
    ensures
        crate::json::tree_member(requested_tree(Requested::Relay(on)), "relay"@) == Some(
            Tree::Text(
                if on {
                    "on"@
                } else {
                    "off"@
                },
            ),
        ),
        crate::json::tree_member(requested_tree(Requested::Brightness(brightness)), "brightness"@)
            == Some(crate::json::natural(brightness as int)),
{
    let relay = requested_tree(Requested::Relay(on))->Object_0;
    crate::json::law_members_are_found(relay, "relay"@, 0);
    let dimmer = requested_tree(Requested::Brightness(brightness))->Object_0;
    crate::json::law_members_are_found(dimmer, "brightness"@, 0);
}

} // verus!
