//! What holds of the handling of a message from the watcher as a whole, from
//! the first step to the last.
use crate::database::DatabaseFailure;
use crate::display_name::{DisplayNameVerifier, NameEntryModel};
use crate::hex_text;
use crate::identity::{AccountType, ChainName, ContextModel, FieldValueModel};
use crate::judgement::StateModel;
use crate::text;
use crate::watcher::{
    ClientCommandModel, ClientStepModel, InsertTaskModel, NameCheckTaskModel, NameTaskModel,
    PendingNamesModel, PendingRequestsModel, RequestModel, RequestTaskModel, ValidNameTaskModel,
    ViolationsTaskModel, WatcherMessageModel, WatcherStepModel,
};
use vstd::prelude::*;

verus! {

/// What came of a step.
pub enum Outcome {
    State(Result<Option<StateModel>, DatabaseFailure>),
    Inserted(Result<bool, DatabaseFailure>),
    Compared(Result<Seq<NameEntryModel>, DatabaseFailure>, Seq<bool>),
    Noted(Result<(), DatabaseFailure>),
}

impl Outcome {
    /// Whether the call to the database did not succeed.
    pub open spec fn failed(self) -> bool {
        match self {
            Outcome::State(found) => found is Err,
            Outcome::Inserted(modified) => modified is Err,
            Outcome::Compared(current, _) => current is Err,
            Outcome::Noted(done) => done is Err,
        }
    }
}

/// Whether `next` is what a task goes on to from `step` when the given came
/// of it.
pub open spec fn follows(step: WatcherStepModel, outcome: Outcome, next: WatcherStepModel) -> bool {
    match (step, outcome) {
        (WatcherStepModel::FetchState(task), Outcome::State(found)) => task.resumes_with(
            found,
            next,
        ),
        (WatcherStepModel::AddRequest(task), Outcome::Inserted(modified)) => next == task.resumed(
            modified,
        ),
        (WatcherStepModel::FetchDisplayNames(task), Outcome::Compared(current, similar)) => next
            == task.resumed(current, similar),
        (WatcherStepModel::InsertViolations(task), Outcome::Noted(done)) => next == task.resumed(
            done,
        ),
        (WatcherStepModel::SetDisplayNameValid(task), Outcome::Noted(done)) => next
            == task.resumed(done),
        (WatcherStepModel::InsertDisplayName(task), Outcome::Noted(done)) => next == task.resumed(
            done,
        ),
        _ => false,
    }
}

/// Whether the steps are taken one after the other, each with what came of
/// the one before.
pub open spec fn is_run(steps: Seq<WatcherStepModel>, outcomes: Seq<Outcome>) -> bool {
    &&& steps.len() == outcomes.len() + 1
    &&& forall|i: int|
        0 <= i < outcomes.len() ==> follows(steps[i], #[trigger] outcomes[i], steps[i + 1])
}

/// Whether all that the step touches belongs to the network.
pub open spec fn on_network(step: WatcherStepModel, network: ChainName) -> bool {
    match step {
        WatcherStepModel::SetJudged(context) => context.chain == network,
        WatcherStepModel::FetchState(task) => task.context.chain == network && task.pending.network
            == network,
        WatcherStepModel::AddRequest(task) => task.state.context.chain == network
            && task.pending.network == network,
        WatcherStepModel::FetchDisplayNames(task) => task.state.context.chain == network
            && task.pending.network == network,
        WatcherStepModel::InsertViolations(task) => task.context.chain == network
            && task.pending.network == network,
        WatcherStepModel::SetDisplayNameValid(task) => task.state.context.chain == network
            && task.pending.network == network,
        WatcherStepModel::InsertDisplayName(task) => task.entry.context.chain == network
            && task.pending.network == network,
        _ => true,
    }
}

/// A connection touches identities of its own network only, whatever the
/// watcher sends and the database answers.
pub proof fn law_handling_stays_on_network(
    network: ChainName,
    dn_verifier: DisplayNameVerifier,
    message: WatcherMessageModel,
    steps: Seq<WatcherStepModel>,
    outcomes: Seq<Outcome>,
    k: int,
)
    requires
        is_run(steps, outcomes),
        steps[0] == crate::watcher::message_begun(network, dn_verifier, message),
        0 <= k < steps.len(),
    ensures
        on_network(steps[k], network),
    decreases k,
{
    if k > 0 {
        law_handling_stays_on_network(network, dn_verifier, message, steps, outcomes, k - 1);
        assert(follows(steps[k - 1], outcomes[k - 1], steps[k]));
    }
}

/// How many steps there can still be after the given one: a request takes at
/// most four, a display name takes one.
pub open spec fn steps_left(step: WatcherStepModel) -> nat {
    match step {
        WatcherStepModel::FetchState(task) => 4 + 4 * task.pending.rest.len(),
        WatcherStepModel::AddRequest(task) => 3 + 4 * task.pending.rest.len(),
        WatcherStepModel::FetchDisplayNames(task) => 2 + 4 * task.pending.rest.len(),
        WatcherStepModel::InsertViolations(task) => 1 + 4 * task.pending.rest.len(),
        WatcherStepModel::SetDisplayNameValid(task) => 1 + 4 * task.pending.rest.len(),
        WatcherStepModel::InsertDisplayName(task) => 1 + task.pending.rest.len(),
        _ => 0,
    }
}

/// The handling of a message comes to an end: with each step fewer are left.
pub proof fn law_handling_ends(steps: Seq<WatcherStepModel>, outcomes: Seq<Outcome>)
    requires
        is_run(steps, outcomes),
    ensures
        outcomes.len() + steps_left(steps.last()) <= steps_left(steps[0]),
    decreases outcomes.len(),
{
    if outcomes.len() > 0 {
        let last = outcomes.len() - 1;
        assert(is_run(steps.drop_last(), outcomes.drop_last())) by {
            assert forall|i: int| 0 <= i < last implies follows(
                steps.drop_last()[i],
                #[trigger] outcomes.drop_last()[i],
                steps.drop_last()[i + 1],
            ) by {
                assert(follows(steps[i], outcomes[i], steps[i + 1]));
            }
        }
        law_handling_ends(steps.drop_last(), outcomes.drop_last());
        assert(follows(steps[last], outcomes[last], steps[last + 1]));
    }
}

/// A call to the database that does not succeed ends the handling of the
/// message: no later request or name is looked at.
pub proof fn law_failure_ends_handling(
    step: WatcherStepModel,
    outcome: Outcome,
    next: WatcherStepModel,
)
    requires
        follows(step, outcome, next),
    ensures
        outcome.failed() <==> next is Failed,
        outcome.failed() ==> forall|later: Outcome, reached: WatcherStepModel|
            !follows(next, later, reached),
{
}

/// Whether the step belongs to the handling of requests under the settings of
/// the connection.
pub open spec fn handles_requests(
    step: WatcherStepModel,
    network: ChainName,
    dn_verifier: DisplayNameVerifier,
) -> bool {
    match step {
        WatcherStepModel::Finished => true,
        WatcherStepModel::Failed => true,
        WatcherStepModel::FetchState(task) => task.pending.network == network
            && task.pending.dn_verifier == dn_verifier,
        WatcherStepModel::AddRequest(task) => task.pending.network == network
            && task.pending.dn_verifier == dn_verifier,
        WatcherStepModel::FetchDisplayNames(task) => task.pending.network == network
            && task.pending.dn_verifier == dn_verifier,
        WatcherStepModel::InsertViolations(task) => task.pending.network == network
            && task.pending.dn_verifier == dn_verifier,
        WatcherStepModel::SetDisplayNameValid(task) => task.pending.network == network
            && task.pending.dn_verifier == dn_verifier,
        _ => false,
    }
}

/// The requests that are pending, with later ones behind them.
pub open spec fn pending_before(
    pending: PendingRequestsModel,
    later: Seq<RequestModel>,
) -> PendingRequestsModel {
    PendingRequestsModel { rest: pending.rest + later, ..pending }
}

/// The step with later requests behind it: where it would be the last one,
/// the first of the later requests is next; where a call failed, none is.
pub open spec fn step_before(
    step: WatcherStepModel,
    network: ChainName,
    dn_verifier: DisplayNameVerifier,
    later: Seq<RequestModel>,
) -> WatcherStepModel {
    match step {
        WatcherStepModel::Finished => (PendingRequestsModel {
            network,
            dn_verifier,
            rest: later,
        }).next(),
        WatcherStepModel::FetchState(task) => WatcherStepModel::FetchState(
            RequestTaskModel { pending: pending_before(task.pending, later), ..task },
        ),
        WatcherStepModel::AddRequest(task) => WatcherStepModel::AddRequest(
            InsertTaskModel { pending: pending_before(task.pending, later), ..task },
        ),
        WatcherStepModel::FetchDisplayNames(task) => WatcherStepModel::FetchDisplayNames(
            NameCheckTaskModel { pending: pending_before(task.pending, later), ..task },
        ),
        WatcherStepModel::InsertViolations(task) => WatcherStepModel::InsertViolations(
            ViolationsTaskModel { pending: pending_before(task.pending, later), ..task },
        ),
        WatcherStepModel::SetDisplayNameValid(task) => WatcherStepModel::SetDisplayNameValid(
            ValidNameTaskModel { pending: pending_before(task.pending, later), ..task },
        ),
        other => other,
    }
}

proof fn lemma_next_before(pending: PendingRequestsModel, later: Seq<RequestModel>)
    ensures
        pending_before(pending, later).next() == step_before(
            pending.next(),
            pending.network,
            pending.dn_verifier,
            later,
        ),
        handles_requests(pending.next(), pending.network, pending.dn_verifier),
{
    let both = pending.rest + later;
    if pending.rest.len() == 0 {
        assert(both =~= later);
    } else {
        assert(both[0] == pending.rest[0]);
        assert(both.drop_first() =~= pending.rest.drop_first() + later);
    }
}

/// With later requests behind it, a request goes on exactly as it would
/// without them.
pub proof fn law_later_requests_change_no_step(
    network: ChainName,
    dn_verifier: DisplayNameVerifier,
    later: Seq<RequestModel>,
    step: WatcherStepModel,
    outcome: Outcome,
    reached: WatcherStepModel,
)
    requires
        handles_requests(step, network, dn_verifier),
        !(step is Finished),
    ensures
        follows(step_before(step, network, dn_verifier, later), outcome, reached) <==> exists|
            next: WatcherStepModel,
        | #[trigger]
            follows(step, outcome, next) && reached == step_before(
                next,
                network,
                dn_verifier,
                later,
            ) && handles_requests(next, network, dn_verifier),
{
    let before = step_before(step, network, dn_verifier, later);
    match step {
        WatcherStepModel::FetchState(task) => {
            lemma_next_before(task.pending, later);
            if follows(before, outcome, reached) {
                let next = match outcome {
                    Outcome::State(Ok(found)) => if task.is_known(found) {
                        task.pending.next()
                    } else {
                        WatcherStepModel::AddRequest(
                            InsertTaskModel {
                                state: reached->AddRequest_0.state,
                                pending: task.pending,
                            },
                        )
                    },
                    _ => WatcherStepModel::Failed,
                };
                assert(follows(step, outcome, next));
                assert(reached == step_before(next, network, dn_verifier, later));
            }
        },
        WatcherStepModel::AddRequest(task) => {
            lemma_next_before(task.pending, later);
            if let Outcome::Inserted(modified) = outcome {
                assert(follows(step, outcome, task.resumed(modified)));
            }
        },
        WatcherStepModel::FetchDisplayNames(task) => {
            lemma_next_before(task.pending, later);
            if let Outcome::Compared(current, similar) = outcome {
                assert(follows(step, outcome, task.resumed(current, similar)));
            }
        },
        WatcherStepModel::InsertViolations(task) => {
            lemma_next_before(task.pending, later);
            if let Outcome::Noted(done) = outcome {
                assert(follows(step, outcome, task.resumed(done)));
            }
        },
        WatcherStepModel::SetDisplayNameValid(task) => {
            lemma_next_before(task.pending, later);
            if let Outcome::Noted(done) = outcome {
                assert(follows(step, outcome, task.resumed(done)));
            }
        },
        _ => {},
    }
}

/// The first request of a list takes the steps that it would take alone, and
/// with the same outcomes. Where it finishes, the handling stands where that
/// of the list of the later requests begins; where it fails, no later request
/// is looked at.
pub proof fn law_listed_request_is_handled_as_if_alone(
    network: ChainName,
    dn_verifier: DisplayNameVerifier,
    request: RequestModel,
    later: Seq<RequestModel>,
    alone: Seq<WatcherStepModel>,
    outcomes: Seq<Outcome>,
)
    requires
        is_run(alone, outcomes),
        alone[0] == crate::watcher::message_begun(
            network,
            dn_verifier,
            WatcherMessageModel::NewJudgementRequest(request),
        ),
    ensures
        ({
            let listed = alone.map_values(
                |step: WatcherStepModel| step_before(step, network, dn_verifier, later),
            );
            &&& is_run(listed, outcomes)
            &&& listed[0] == crate::watcher::message_begun(
                network,
                dn_verifier,
                WatcherMessageModel::PendingJudgementsRequests(seq![request] + later),
            )
            &&& alone.last() is Finished ==> listed.last() == crate::watcher::message_begun(
                network,
                dn_verifier,
                WatcherMessageModel::PendingJudgementsRequests(later),
            )
            &&& alone.last() is Failed ==> listed.last() is Failed
        }),
        handles_requests(alone.last(), network, dn_verifier),
    decreases outcomes.len(),
{
    let place = |step: WatcherStepModel| step_before(step, network, dn_verifier, later);
    let listed = alone.map_values(place);
    let single = PendingRequestsModel { network, dn_verifier, rest: seq![request] };
    lemma_next_before(single, later);
    if outcomes.len() > 0 {
        let last = outcomes.len() - 1;
        let front = alone.drop_last();
        assert(is_run(front, outcomes.drop_last())) by {
            assert forall|i: int| 0 <= i < last implies follows(
                front[i],
                #[trigger] outcomes.drop_last()[i],
                front[i + 1],
            ) by {
                assert(follows(alone[i], outcomes[i], alone[i + 1]));
            }
        }
        law_listed_request_is_handled_as_if_alone(
            network,
            dn_verifier,
            request,
            later,
            front,
            outcomes.drop_last(),
        );
        assert(follows(alone[last], outcomes[last], alone[last + 1]));
        assert(front.last() == alone[last]);
        lemma_requests_stay_requests(
            network,
            dn_verifier,
            alone[last],
            outcomes[last],
            alone[last + 1],
        );
        law_later_requests_change_no_step(
            network,
            dn_verifier,
            later,
            alone[last],
            outcomes[last],
            place(alone[last + 1]),
        );
        assert(is_run(listed, outcomes)) by {
            assert forall|i: int| 0 <= i < outcomes.len() implies follows(
                listed[i],
                #[trigger] outcomes[i],
                listed[i + 1],
            ) by {
                if i < last {
                    let listed_front = front.map_values(place);
                    assert(follows(
                        listed_front[i],
                        outcomes.drop_last()[i],
                        listed_front[i + 1],
                    ));
                    assert(listed_front[i] == listed[i]);
                    assert(listed_front[i + 1] == listed[i + 1]);
                }
            }
        }
    }
}

/// Whether the steps are a run of the request alone that the run of the list
/// begins with, up to where the request finishes or the run of the list ends.
pub open spec fn begins_as_alone(
    network: ChainName,
    dn_verifier: DisplayNameVerifier,
    request: RequestModel,
    later: Seq<RequestModel>,
    listed: Seq<WatcherStepModel>,
    outcomes: Seq<Outcome>,
    alone: Seq<WatcherStepModel>,
) -> bool {
    let n = alone.len() - 1;
    &&& 0 <= n <= outcomes.len()
    &&& n < outcomes.len() ==> alone.last() is Finished
    &&& is_run(alone, outcomes.take(n))
    &&& alone[0] == crate::watcher::message_begun(
        network,
        dn_verifier,
        WatcherMessageModel::NewJudgementRequest(request),
    )
    &&& forall|i: int|
        0 <= i <= n ==> #[trigger] listed[i] == step_before(alone[i], network, dn_verifier, later)
}

/// Whatever comes of it, the handling of a list begins with the steps that
/// its first request would take alone, up to where that request finishes.
pub proof fn law_list_begins_with_its_first_request(
    network: ChainName,
    dn_verifier: DisplayNameVerifier,
    request: RequestModel,
    later: Seq<RequestModel>,
    listed: Seq<WatcherStepModel>,
    outcomes: Seq<Outcome>,
)
    requires
        is_run(listed, outcomes),
        listed[0] == crate::watcher::message_begun(
            network,
            dn_verifier,
            WatcherMessageModel::PendingJudgementsRequests(seq![request] + later),
        ),
    ensures
        exists|alone: Seq<WatcherStepModel>| #[trigger]
            begins_as_alone(network, dn_verifier, request, later, listed, outcomes, alone)
                && handles_requests(alone.last(), network, dn_verifier),
    decreases outcomes.len(),
{
    let single = PendingRequestsModel { network, dn_verifier, rest: seq![request] };
    lemma_next_before(single, later);
    if outcomes.len() == 0 {
        let alone = seq![single.next()];
        assert(begins_as_alone(network, dn_verifier, request, later, listed, outcomes, alone));
    } else {
        let last = outcomes.len() - 1;
        let front = listed.drop_last();
        let fewer = outcomes.drop_last();
        assert(is_run(front, fewer)) by {
            assert forall|i: int| 0 <= i < last implies follows(
                front[i],
                #[trigger] fewer[i],
                front[i + 1],
            ) by {
                assert(follows(listed[i], outcomes[i], listed[i + 1]));
            }
        }
        law_list_begins_with_its_first_request(
            network,
            dn_verifier,
            request,
            later,
            front,
            fewer,
        );
        let alone = choose|alone: Seq<WatcherStepModel>| #[trigger]
            begins_as_alone(network, dn_verifier, request, later, front, fewer, alone)
                && handles_requests(alone.last(), network, dn_verifier);
        let n = alone.len() - 1;
        assert(fewer.take(n) =~= outcomes.take(n));
        assert forall|i: int| 0 <= i <= n implies #[trigger] listed[i] == step_before(
            alone[i],
            network,
            dn_verifier,
            later,
        ) by {
            assert(front[i] == listed[i]);
        }
        if alone.last() is Finished {
            assert(begins_as_alone(network, dn_verifier, request, later, listed, outcomes, alone));
        } else {
            assert(follows(listed[last], outcomes[last], listed[last + 1]));
            law_later_requests_change_no_step(
                network,
                dn_verifier,
                later,
                alone[n],
                outcomes[last],
                listed[last + 1],
            );
            let next = choose|next: WatcherStepModel| #[trigger]
                follows(alone[n], outcomes[last], next) && listed[last + 1] == step_before(
                    next,
                    network,
                    dn_verifier,
                    later,
                ) && handles_requests(next, network, dn_verifier);
            let further = alone.push(next);
            assert(is_run(further, outcomes)) by {
                assert forall|i: int| 0 <= i < outcomes.len() implies follows(
                    further[i],
                    #[trigger] outcomes[i],
                    further[i + 1],
                ) by {
                    if i < last {
                        assert(follows(alone[i], outcomes.take(n)[i], alone[i + 1]));
                    }
                }
            }
            assert(outcomes.take(n + 1) =~= outcomes);
            assert(further.last() == next);
            assert(begins_as_alone(
                network,
                dn_verifier,
                request,
                later,
                listed,
                outcomes,
                further,
            ));
        }
    }
}

proof fn lemma_requests_stay_requests(
    network: ChainName,
    dn_verifier: DisplayNameVerifier,
    step: WatcherStepModel,
    outcome: Outcome,
    next: WatcherStepModel,
)
    requires
        handles_requests(step, network, dn_verifier),
        follows(step, outcome, next),
    ensures
        handles_requests(next, network, dn_verifier),
{
}

/// Whether the step is at the request with the given place in the list, or at
/// its end.
pub open spec fn at_request(
    step: WatcherStepModel,
    network: ChainName,
    dn_verifier: DisplayNameVerifier,
    requests: Seq<RequestModel>,
    place: int,
) -> bool {
    step == (PendingRequestsModel { network, dn_verifier, rest: requests.skip(place) }).next()
}

/// Each request of a list, wherever it stands, is handled as it would be
/// alone. Where it finishes, the handling is at the request behind it, or at
/// the end of the list; where it fails, the handling has failed.
pub proof fn law_each_listed_request_is_handled_as_if_alone(
    network: ChainName,
    dn_verifier: DisplayNameVerifier,
    requests: Seq<RequestModel>,
    listed: Seq<WatcherStepModel>,
    outcomes: Seq<Outcome>,
    place: int,
    from: int,
)
    requires
        is_run(listed, outcomes),
        0 <= place < requests.len(),
        0 <= from < listed.len(),
        at_request(listed[from], network, dn_verifier, requests, place),
    ensures
        exists|alone: Seq<WatcherStepModel>|
            {
                &&& #[trigger] begins_as_alone(
                    network,
                    dn_verifier,
                    requests[place],
                    requests.skip(place + 1),
                    listed.skip(from),
                    outcomes.skip(from),
                    alone,
                )
                &&& alone.last() is Finished ==> at_request(
                    listed[from + alone.len() - 1],
                    network,
                    dn_verifier,
                    requests,
                    place + 1,
                )
                &&& alone.last() is Failed ==> listed[from + alone.len() - 1] is Failed
            },
{
    let later = requests.skip(place + 1);
    let steps = listed.skip(from);
    let ends = outcomes.skip(from);
    assert(requests.skip(place) =~= seq![requests[place]] + later);
    assert(is_run(steps, ends)) by {
        assert forall|i: int| 0 <= i < ends.len() implies follows(
            steps[i],
            #[trigger] ends[i],
            steps[i + 1],
        ) by {
            assert(follows(listed[from + i], outcomes[from + i], listed[from + i + 1]));
        }
    }
    law_list_begins_with_its_first_request(
        network,
        dn_verifier,
        requests[place],
        later,
        steps,
        ends,
    );
    let alone = choose|alone: Seq<WatcherStepModel>| #[trigger]
        begins_as_alone(network, dn_verifier, requests[place], later, steps, ends, alone)
            && handles_requests(alone.last(), network, dn_verifier);
    let n = alone.len() - 1;
    assert(steps[n] == step_before(alone[n], network, dn_verifier, later));
    assert(listed[from + n] == steps[n]);
}

/// Requests that say nothing new are looked up one after the other, in their
/// order, and change nothing.
pub proof fn law_known_requests_change_nothing(
    network: ChainName,
    dn_verifier: DisplayNameVerifier,
    requests: Seq<RequestModel>,
    states: Seq<StateModel>,
    steps: Seq<WatcherStepModel>,
    outcomes: Seq<Outcome>,
    k: int,
)
    requires
        states.len() == requests.len(),
        forall|i: int|
            0 <= i < requests.len() ==> crate::judgement::same_fields(
                (#[trigger] states[i]).fields,
                crate::identity::accounts_decoded(requests[i].accounts),
            ),
        is_run(steps, outcomes),
        steps[0] == crate::watcher::message_begun(
            network,
            dn_verifier,
            WatcherMessageModel::PendingJudgementsRequests(requests),
        ),
        forall|i: int|
            0 <= i < outcomes.len() && i < states.len() ==> #[trigger] outcomes[i]
                == Outcome::State(Ok(Some(states[i]))),
        0 <= k < steps.len(),
    ensures
        k <= requests.len(),
        k < requests.len() ==> steps[k] is FetchState,
        k == requests.len() ==> steps[k] is Finished,
        at_request(steps[k], network, dn_verifier, requests, k),
    decreases k,
{
    if k == 0 {
        assert(requests.skip(0) =~= requests);
    } else {
        law_known_requests_change_nothing(
            network,
            dn_verifier,
            requests,
            states,
            steps,
            outcomes,
            k - 1,
        );
        assert(follows(steps[k - 1], outcomes[k - 1], steps[k]));
        assert(k - 1 < requests.len());
        assert(crate::judgement::same_fields(
            states[k - 1].fields,
            crate::identity::accounts_decoded(requests[k - 1].accounts),
        ));
        assert(requests.skip(k - 1)[0] == requests[k - 1]);
        assert(requests.skip(k - 1).drop_first() =~= requests.skip(k));
    }
}

/// A request that is made again is recognized by the state that it opened
/// the first time, however much of that is verified by now, unless a Twitter
/// handle has capitals, which the state keeps in lower case.
pub proof fn law_repeated_request_is_known(task: RequestTaskModel, state: StateModel)
    requires
        crate::judgement::is_state_of(state, task.accounts),
        forall|a: int|
            0 <= a < task.accounts.len() && (#[trigger] task.accounts[a]).0 is Twitter
                ==> text::lowercase(task.accounts[a].1) == task.accounts[a].1,
    ensures
        task.is_known(Some(state)),
        forall|step: WatcherStepModel|
            task.resumes_with(Ok(Some(state)), step) <==> step == task.pending.next(),
{
    crate::judgement::law_state_matches_its_request(state, task.accounts);
}

/// The state that is inserted for a request belongs to the identity of the
/// request, is made of its accounts with the display name decoded, and has
/// nothing verified.
pub proof fn law_inserted_state_is_of_its_request(
    pending: PendingRequestsModel,
    found: Option<StateModel>,
    fetch: WatcherStepModel,
    insert: WatcherStepModel,
)
    requires
        pending.rest.len() > 0,
        fetch == pending.next(),
        follows(fetch, Outcome::State(Ok(found)), insert),
        insert is AddRequest,
    ensures
        ({
            let request = pending.rest[0];
            let state = insert->AddRequest_0.state;
            &&& state.context == (ContextModel {
                address: request.address,
                chain: pending.network,
            })
            &&& crate::judgement::is_state_of(
                state,
                crate::identity::accounts_decoded(request.accounts),
            )
            &&& forall|i: int|
                0 <= i < state.fields.len() ==> !(
                #[trigger] state.fields[i]).challenge.verified()
        }),
        !fetch->FetchState_0.is_known(found),
{
    let task = fetch->FetchState_0;
    let state = insert->AddRequest_0.state;
    let values = crate::identity::accounts_fields(task.accounts);
    crate::judgement::law_fresh_state_is_of_its_request(state, task.context, task.accounts);
    crate::judgement::law_fresh_state_is_unverified(state, task.context, values);
}

/// The display names that the watcher reports are inserted one after the
/// other, in their order, each decoded where it is a hexadecimal name.
pub proof fn law_names_are_inserted_in_order(
    network: ChainName,
    dn_verifier: DisplayNameVerifier,
    names: Seq<crate::display_name::RawNameModel>,
    steps: Seq<WatcherStepModel>,
    outcomes: Seq<Outcome>,
    k: int,
)
    requires
        is_run(steps, outcomes),
        steps[0] == crate::watcher::message_begun(
            network,
            dn_verifier,
            WatcherMessageModel::ActiveDisplayNames(names),
        ),
        forall|i: int|
            0 <= i < outcomes.len() ==> #[trigger] outcomes[i] == Outcome::Noted(Ok(())),
        0 <= k < steps.len(),
    ensures
        k <= names.len(),
        k < names.len() ==> steps[k] == WatcherStepModel::InsertDisplayName(
            NameTaskModel {
                entry: NameEntryModel {
                    context: ContextModel { address: names[k].address, chain: network },
                    display_name: hex_text::display_text(names[k].display_name),
                },
                pending: PendingNamesModel { network, rest: names.skip(k + 1) },
            },
        ),
        k == names.len() ==> steps[k] is Finished,
    decreases k,
{
    if k == 0 {
        assert(names.len() > 0 ==> names.drop_first() =~= names.skip(1));
    } else {
        law_names_are_inserted_in_order(network, dn_verifier, names, steps, outcomes, k - 1);
        assert(follows(steps[k - 1], outcomes[k - 1], steps[k]));
        if k < names.len() {
            assert(names.skip(k)[0] == names[k]);
            assert(names.skip(k).drop_first() =~= names.skip(k + 1));
        }
    }
}

/// The acknowledgement of a judgement is read without regard to the case of
/// its letters: texts that are the same in lower case are handled alike.
pub proof fn law_acknowledgement_ignores_case(
    network: ChainName,
    dn_verifier: DisplayNameVerifier,
    one: Seq<char>,
    other: Seq<char>,
    address: Option<Seq<char>>,
)
    requires
        text::lowercase(one) == text::lowercase(other),
    ensures
        crate::watcher::message_begun(network, dn_verifier, WatcherMessageModel::Ack(one, address))
            == crate::watcher::message_begun(
            network,
            dn_verifier,
            WatcherMessageModel::Ack(other, address),
        ),
{
}

/// The judgement that is sent on an identity vouches for the accounts of the
/// request in their order: with the values that the fields keep, so that a
/// Twitter handle is in lower case and the types that keep no value have
/// none.
pub proof fn law_judgement_vouches_for_the_request(
    state: StateModel,
    accounts: Seq<(AccountType, Seq<char>)>,
)
    requires
        crate::judgement::is_state_of(state, accounts),
    ensures
        crate::watcher::outgoing(ClientCommandModel::ProvideJudgement(state)) matches
            ClientStepModel::ProvideJudgement { address, verified, .. } && {
            &&& address == state.context.address
            &&& verified == accounts.map_values(
                |account: (AccountType, Seq<char>)|
                    (account.0, FieldValueModel::of(account.0, account.1).value()),
            )
        },
{
    let sent = accounts.map_values(
        |account: (AccountType, Seq<char>)|
            (account.0, FieldValueModel::of(account.0, account.1).value()),
    );
    assert forall|i: int| 0 <= i < sent.len() implies #[trigger] state.accounts()[i] == sent[i] by {
        assert(state.fields[i].value == FieldValueModel::of(accounts[i].0, accounts[i].1));
    }
    assert(state.accounts() =~= sent);
}

} // verus!
