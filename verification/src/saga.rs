//! Saga compensation: walks completed nodes in reverse topological order and
//! plans compensation tasks when a workflow fails.
//!
//! Each step changes the instance and returns what is to be done about it, in
//! order. An event that cannot be appended and a task that cannot be dispatched
//! are logged and passed over; an instance that cannot be saved ends the step.

use crate::error::OrbflowError;
use crate::execution::{Instance, InstanceId, InstanceStatus, NodeState, NodeStatus, SagaState};
use crate::execution::{InstanceModel, SagaModel};
use crate::json;
use crate::json::JsonMember;
use crate::lists;
use crate::subjects;
use crate::text;
use crate::time::Timestamp;
use crate::wire;
use crate::wire::{ResultMessage, TaskMessage, WIRE_VERSION};
use crate::wire_json;
use crate::workflow;
use crate::workflow::{CompensateConfig, Node, Workflow};
use vstd::prelude::*;

verus! {

/// What stands before the node id in the node id of a compensation task.
pub const COMPENSATION_PREFIX: &'static str = "_compensate_";

/// A domain event that compensation emits.
#[derive(Debug)]
pub enum SagaEvent {
    CompensationStarted { instance_id: InstanceId, version: i64, failed_node: String },
    CompensationCompleted { instance_id: InstanceId, version: i64 },
    InstanceFailed { instance_id: InstanceId, version: i64, error: String },
}

/// One thing to be done.
#[derive(Debug)]
pub enum SagaAction {
    /// Append the event to the event store.
    Append(SagaEvent),
    /// Save the instance.
    Save,
    /// Dispatch the compensation task of the node.
    Dispatch { node_id: String },
}

/// The model of [`SagaEvent`].
pub enum EventModel {
    CompensationStarted { instance_id: Seq<char>, version: i64, failed_node: Seq<char> },
    CompensationCompleted { instance_id: Seq<char>, version: i64 },
    InstanceFailed { instance_id: Seq<char>, version: i64, error: Seq<char> },
}

/// The model of [`SagaAction`].
pub enum ActionModel {
    Append(EventModel),
    Save,
    Dispatch(Seq<char>),
}

impl View for SagaEvent {
    type V = EventModel;

    open spec fn view(&self) -> EventModel {
        match self {
            SagaEvent::CompensationStarted { instance_id, version, failed_node } =>
                EventModel::CompensationStarted {
                instance_id: instance_id.0@,
                version: *version,
                failed_node: failed_node@,
            },
            SagaEvent::CompensationCompleted { instance_id, version } =>
                EventModel::CompensationCompleted {
                instance_id: instance_id.0@,
                version: *version,
            },
            SagaEvent::InstanceFailed { instance_id, version, error } =>
                EventModel::InstanceFailed {
                instance_id: instance_id.0@,
                version: *version,
                error: error@,
            },
        }
    }
}

impl View for SagaAction {
    type V = ActionModel;

    open spec fn view(&self) -> ActionModel {
        match self {
            SagaAction::Append(event) => ActionModel::Append(event@),
            SagaAction::Save => ActionModel::Save,
            SagaAction::Dispatch { node_id } => ActionModel::Dispatch(node_id@),
        }
    }
}

/// The models of a list of actions.
pub open spec fn actions(v: Seq<SagaAction>) -> Seq<ActionModel> {
    v.map_values(|a: SagaAction| a@)
}

/// The status of the node, where the instance has a state of it.
pub open spec fn status_of(states: Seq<(Seq<char>, NodeStatus)>, node_id: Seq<char>) -> Option<
    NodeStatus,
>
    decreases states.len(),
{
    if states.len() == 0 {
        None
    } else if states[0].0 == node_id {
        Some(states[0].1)
    } else {
        status_of(states.drop_first(), node_id)
    }
}

/// The node completed, and the workflow says how to compensate it.
pub open spec fn needs_compensation(inst: InstanceModel, nodes: Seq<Node>, node_id: Seq<char>) -> bool {
    &&& status_of(inst.node_states, node_id) == Some(NodeStatus::Completed)
    &&& workflow::node_with_id(nodes, node_id) is Some
    &&& workflow::node_with_id(nodes, node_id)->0.compensate is Some
}

/// The nodes of the execution order that need compensation, last first.
pub open spec fn compensation_plan(
    inst: InstanceModel,
    nodes: Seq<Node>,
    execution_order: Seq<Seq<char>>,
) -> Seq<Seq<char>> {
    execution_order.filter(|n: Seq<char>| needs_compensation(inst, nodes, n)).reverse()
}

/// The planned nodes whose compensation has not succeeded yet.
pub open spec fn pending_nodes(saga: SagaModel) -> Seq<Seq<char>> {
    saga.completed_nodes.filter(|n: Seq<char>| !saga.compensated_nodes.contains(n))
}

/// The instance at the end of its rollback: failed, and no longer compensating.
pub open spec fn rolled_back(inst: InstanceModel, now: Timestamp) -> InstanceModel {
    InstanceModel {
        status: InstanceStatus::Failed,
        updated_at: now,
        saga: match inst.saga {
            Some(saga) => Some(SagaModel { compensating: false, ..saga }),
            None => None,
        },
        ..inst
    }
}

/// The node whose failure started the rollback, `unknown` where none is recorded.
pub open spec fn failed_node(inst: InstanceModel) -> Seq<char> {
    match inst.saga {
        Some(saga) => match saga.failed_node {
            Some(node) => node,
            None => "unknown"@,
        },
        None => "unknown"@,
    }
}

/// The events of a rollback that went through.
pub open spec fn completion_events(inst: InstanceModel) -> Seq<ActionModel> {
    seq![
        ActionModel::Append(
            EventModel::CompensationCompleted { instance_id: inst.id, version: inst.version },
        ),
        ActionModel::Append(
            EventModel::InstanceFailed {
                instance_id: inst.id,
                version: inst.version,
                error: "node "@ + failed_node(inst) + " failed; compensation completed"@,
            },
        ),
    ]
}

/// The event of a rollback that failed at a node.
pub open spec fn failure_event(
    inst: InstanceModel,
    node_id: Seq<char>,
    error: Seq<char>,
) -> ActionModel {
    ActionModel::Append(
        EventModel::InstanceFailed {
            instance_id: inst.id,
            version: inst.version,
            error: "node "@ + failed_node(inst) + " failed; compensation for node "@ + node_id
                + " failed: "@ + error,
        },
    )
}

/// One dispatch for each node.
pub open spec fn dispatches(nodes: Seq<Seq<char>>) -> Seq<ActionModel> {
    nodes.map_values(|n: Seq<char>| ActionModel::Dispatch(n))
}

/// The instance with its rollback planned and nothing compensated yet.
pub open spec fn with_plan(
    inst: InstanceModel,
    failed: Seq<char>,
    plan: Seq<Seq<char>>,
) -> InstanceModel {
    InstanceModel {
        status: InstanceStatus::Running,
        saga: Some(
            SagaModel {
                compensating: true,
                failed_node: Some(failed),
                completed_nodes: plan,
                compensated_nodes: Seq::empty(),
            },
        ),
        ..inst
    }
}

/// The start of a rollback: the instance after it, and what is to be done. With
/// nothing to compensate the rollback ends at once; else the plan is saved
/// before the first task is dispatched.
pub open spec fn compensation_start(
    inst: InstanceModel,
    plan: Seq<Seq<char>>,
    failed: Seq<char>,
    now: Timestamp,
) -> (InstanceModel, Seq<ActionModel>) {
    let planned = with_plan(inst, failed, plan);
    let started = ActionModel::Append(
        EventModel::CompensationStarted {
            instance_id: inst.id,
            version: inst.version,
            failed_node: failed,
        },
    );
    if plan.len() == 0 {
        (
            rolled_back(planned, now),
            seq![started] + completion_events(planned) + seq![ActionModel::Save],
        )
    } else {
        (planned, seq![started, ActionModel::Save] + dispatches(plan))
    }
}

/// Driving the outstanding tasks: one dispatch for each pending node; with none
/// pending the rollback ends.
pub open spec fn pending_dispatch(inst: InstanceModel, now: Timestamp) -> (
    InstanceModel,
    Seq<ActionModel>,
) {
    match inst.saga {
        Some(saga) if saga.compensating => if pending_nodes(saga).len() == 0 {
            (rolled_back(inst, now), completion_events(inst))
        } else {
            (inst, dispatches(pending_nodes(saga)))
        },
        _ => (inst, Seq::empty()),
    }
}

/// Each planned node has been compensated.
pub open spec fn all_compensated(saga: SagaModel) -> bool {
    &&& saga.completed_nodes.len() > 0
    &&& saga.compensated_nodes.len() == saga.completed_nodes.len()
    &&& forall|i: int|
        0 <= i < saga.compensated_nodes.len() ==> saga.completed_nodes.contains(
            #[trigger] saga.compensated_nodes[i],
        )
}

/// The node that a compensation task is about.
pub open spec fn compensated_node(task_node_id: Seq<char>) -> Seq<char> {
    if text::has_prefix(task_node_id, COMPENSATION_PREFIX@) {
        task_node_id.skip(COMPENSATION_PREFIX@.len() as int)
    } else {
        task_node_id
    }
}

/// The instance with the node noted as compensated.
pub open spec fn with_compensated(inst: InstanceModel, node: Seq<char>, now: Timestamp) -> InstanceModel {
    InstanceModel {
        saga: match inst.saga {
            Some(saga) => Some(
                SagaModel { compensated_nodes: saga.compensated_nodes.push(node), ..saga },
            ),
            None => None,
        },
        updated_at: now,
        ..inst
    }
}

/// What a compensation result does: the instance after it and what is to be
/// done, or the text of the refusal. A failed task ends the rollback; a success
/// counts once, for a planned node, while the rollback runs.
pub open spec fn compensation_result(
    inst: InstanceModel,
    task_node_id: Seq<char>,
    error: Option<Seq<char>>,
    now: Timestamp,
) -> Result<(InstanceModel, Seq<ActionModel>), Seq<char>> {
    let node = compensated_node(task_node_id);
    match error {
        Some(message) => Ok(
            (
                rolled_back(inst, now),
                seq![failure_event(inst, node, message), ActionModel::Save],
            ),
        ),
        None => match inst.saga {
            Some(saga) if saga.compensating => if !saga.completed_nodes.contains(node) {
                Err("compensation result for node "@ + task_node_id + " was not dispatched"@)
            } else if saga.compensated_nodes.contains(node) {
                Err("duplicate compensation result for node "@ + task_node_id)
            } else {
                let next = with_compensated(inst, node, now);
                if all_compensated(next.saga->0) {
                    Ok(
                        (
                            rolled_back(next, now),
                            completion_events(next) + seq![ActionModel::Save],
                        ),
                    )
                } else {
                    Ok((next, seq![ActionModel::Save]))
                }
            },
            _ => Err(
                "compensation result for node "@ + task_node_id + " received without active saga"@,
            ),
        },
    }
}

/// The node id of a node's compensation task.
pub fn compensation_task_node_id(node_id: &str) -> (r: String)
    ensures
        r@ == COMPENSATION_PREFIX@ + node_id@,
{
    let mut out = COMPENSATION_PREFIX.to_owned();
    out.append(node_id);
    out
}

fn find_status(states: &Vec<NodeState>, node_id: &str) -> (r: Option<NodeStatus>)
    ensures
        r == status_of(
            Seq::new(states@.len(), |i: int| (states@[i].node_id@, states@[i].status)),
            node_id@,
        ),
{
    let ghost all = Seq::new(states@.len(), |i: int| (states@[i].node_id@, states@[i].status));
    let mut i: usize = 0;
    assert(all.skip(0) =~= all);
    while i < states.len()
        invariant
            i <= states.len(),
            all == Seq::new(states@.len(), |i: int| (states@[i].node_id@, states@[i].status)),
            status_of(all, node_id@) == status_of(all.skip(i as int), node_id@),
        decreases states.len() - i,
    {
        assert(all.skip(i as int)[0] == all[i as int]);
        assert(all.skip(i as int).drop_first() =~= all.skip(i + 1));
        if text::same_text(states[i].node_id.as_str(), node_id) {
            return Some(states[i].status);
        }
        i += 1;
    }
    None
}

fn node_needs_compensation(inst: &Instance, wf: &Workflow, node_id: &str) -> (r: bool)
    ensures
        r == needs_compensation(inst@, wf.nodes@, node_id@),
{
    match find_status(&inst.node_states, node_id) {
        Some(NodeStatus::Completed) => match wf.node_by_id(node_id) {
            Some(node) => node.compensate.is_some(),
            None => false,
        },
        _ => false,
    }
}

/// The nodes to compensate, in the order in which their tasks are dispatched.
pub fn plan_compensation(inst: &Instance, wf: &Workflow, execution_order: &Vec<String>) -> (r: Vec<
    String,
>)
    ensures
        text::texts(r@) == compensation_plan(inst@, wf.nodes@, text::texts(execution_order@)),
{
    let ghost order = text::texts(execution_order@);
    let ghost keep = |n: Seq<char>| needs_compensation(inst@, wf.nodes@, n);
    let mut out: Vec<String> = Vec::new();
    let mut i: usize = 0;
    proof {
        lists::lemma_filter_start(order, keep);
        assert(text::texts(out@) =~= order.take(0).filter(keep));
    }
    while i < execution_order.len()
        invariant
            i <= execution_order.len(),
            order == text::texts(execution_order@),
            keep == (|n: Seq<char>| needs_compensation(inst@, wf.nodes@, n)),
            text::texts(out@) == order.take(i as int).filter(keep),
        decreases execution_order.len() - i,
    {
        let ghost before = out@;
        proof {
            lists::lemma_filter_step(order, keep, i as int);
            assert(order[i as int] == execution_order@[i as int]@);
        }
        if node_needs_compensation(inst, wf, execution_order[i].as_str()) {
            out.push(execution_order[i].clone());
            assert(text::texts(out@) =~= text::texts(before).push(order[i as int]));
        }
        i += 1;
    }
    assert(order.take(order.len() as int) =~= order);
    let mut reversed: Vec<String> = Vec::new();
    let mut k: usize = out.len();
    while k > 0
        invariant
            k <= out.len(),
            reversed.len() == out.len() - k,
            forall|j: int|
                0 <= j < reversed.len() ==> (#[trigger] reversed@[j])@ == out@[out.len() - 1 - j]@,
        decreases k,
    {
        k -= 1;
        reversed.push(out[k].clone());
    }
    assert(text::texts(reversed@) =~= text::texts(out@).reverse());
    reversed
}

fn failed_node_text(inst: &Instance) -> (r: String)
    ensures
        r@ == failed_node(inst@),
{
    match &inst.saga {
        Some(saga) => match &saga.failed_node {
            Some(node) => node.clone(),
            None => "unknown".to_owned(),
        },
        None => "unknown".to_owned(),
    }
}

fn end_rollback(inst: &mut Instance, now: Timestamp)
    ensures
        final(inst)@ == rolled_back(old(inst)@, now),
{
    match inst.saga.take() {
        Some(mut saga) => {
            saga.compensating = false;
            inst.saga = Some(saga);
        },
        None => {},
    }
    inst.status = InstanceStatus::Failed;
    inst.updated_at = now;
    assert(inst@.node_states =~= old(inst)@.node_states);
}

/// Ends a rollback in which each planned node was compensated.
pub fn finalize_compensation(inst: &mut Instance, now: Timestamp) -> (r: Vec<SagaAction>)
    ensures
        final(inst)@ == rolled_back(old(inst)@, now),
        actions(r@) == completion_events(old(inst)@),
{
    let mut error = "node ".to_owned();
    error.append(failed_node_text(inst).as_str());
    error.append(" failed; compensation completed");
    let completed = SagaEvent::CompensationCompleted {
        instance_id: inst.id.copy(),
        version: inst.version,
    };
    let failed = SagaEvent::InstanceFailed {
        instance_id: inst.id.copy(),
        version: inst.version,
        error,
    };
    end_rollback(inst, now);
    let mut out: Vec<SagaAction> = Vec::new();
    out.push(SagaAction::Append(completed));
    out.push(SagaAction::Append(failed));
    assert(actions(out@) =~= completion_events(old(inst)@));
    out
}

/// Ends a rollback because the compensation of a node failed.
pub fn fail_compensation(
    inst: &mut Instance,
    original_node_id: &str,
    error_msg: &str,
    now: Timestamp,
) -> (r: SagaAction)
    ensures
        final(inst)@ == rolled_back(old(inst)@, now),
        r@ == failure_event(old(inst)@, original_node_id@, error_msg@),
{
    let mut error = "node ".to_owned();
    error.append(failed_node_text(inst).as_str());
    error.append(" failed; compensation for node ");
    error.append(original_node_id);
    error.append(" failed: ");
    error.append(error_msg);
    let failed = SagaEvent::InstanceFailed {
        instance_id: inst.id.copy(),
        version: inst.version,
        error,
    };
    end_rollback(inst, now);
    SagaAction::Append(failed)
}

fn push_dispatches(out: &mut Vec<SagaAction>, nodes: &Vec<String>)
    ensures
        actions(final(out)@) == actions(old(out)@) + dispatches(text::texts(nodes@)),
{
    let ghost before = out@;
    let mut i: usize = 0;
    while i < nodes.len()
        invariant
            i <= nodes.len(),
            before == old(out)@,
            out@.len() == before.len() + i,
            forall|k: int| 0 <= k < before.len() ==> #[trigger] out@[k] == before[k],
            forall|k: int|
                0 <= k < i ==> (#[trigger] out@[before.len() + k])@ == ActionModel::Dispatch(
                    nodes@[k]@,
                ),
        decreases nodes.len() - i,
    {
        out.push(SagaAction::Dispatch { node_id: nodes[i].clone() });
        i += 1;
    }
    assert(actions(out@) =~= actions(before) + dispatches(text::texts(nodes@))) by {
        assert forall|k: int| 0 <= k < out@.len() implies #[trigger] actions(out@)[k] == (actions(
            before,
        ) + dispatches(text::texts(nodes@)))[k] by {
            if k >= before.len() {
                let j = k - before.len();
                assert(out@[before.len() + j]@ == ActionModel::Dispatch(nodes@[j]@));
            }
        }
    }
}

/// Initiates saga rollback by walking completed nodes in reverse topological
/// order and dispatching their compensation actions.
///
/// `execution_order` is the workflow's topological order. The plan is saved
/// before dispatching, so that crash recovery can re-drive any compensation task
/// that was not observed as successful.
pub fn start_compensation(
    inst: &mut Instance,
    wf: &Workflow,
    execution_order: &Vec<String>,
    failed_node_id: &str,
    now: Timestamp,
) -> (r: Vec<SagaAction>)
    ensures
        (final(inst)@, actions(r@)) == compensation_start(
            old(inst)@,
            compensation_plan(old(inst)@, wf.nodes@, text::texts(execution_order@)),
            failed_node_id@,
            now,
        ),
        forall|k: int|
            0 <= k < r@.len() && (#[trigger] r@[k]) is Dispatch ==> has_completed(
                old(inst).node_states@,
                r@[k]->node_id@,
            ) && can_be_undone(wf.nodes@, r@[k]->node_id@),
        forall|o: int|
            0 <= o < execution_order@.len() && has_completed(
                old(inst).node_states@,
                (#[trigger] execution_order@[o])@,
            ) && can_be_undone(wf.nodes@, execution_order@[o]@) ==> exists|k: int|
                0 <= k < r@.len() && (#[trigger] r@[k]) is Dispatch && r@[k]->node_id@
                    == execution_order@[o]@,
{
    let ghost before_all = *inst;
    let to_compensate = plan_compensation(inst, wf, execution_order);
    let ghost plan = text::texts(to_compensate@);
    let nothing_to_do = to_compensate.is_empty();
    let ghost before = inst@;
    inst.status = InstanceStatus::Running;
    let nodes = text::copy_texts(&to_compensate);
    inst.saga = Some(
        SagaState {
            compensating: true,
            failed_node: Some(failed_node_id.to_owned()),
            completed_nodes: to_compensate,
            compensated_nodes: Vec::new(),
        },
    );
    proof {
        assert(inst@.saga->0.compensated_nodes =~= Seq::<Seq<char>>::empty());
        assert(inst@.node_states =~= before.node_states);
        assert(inst@ == with_plan(before, failed_node_id@, plan));
    }
    let started = SagaEvent::CompensationStarted {
        instance_id: inst.id.copy(),
        version: inst.version,
        failed_node: failed_node_id.to_owned(),
    };
    let mut out: Vec<SagaAction> = Vec::new();
    out.push(SagaAction::Append(started));
    let ghost first = out@[0]@;
    if nothing_to_do {
        let mut rest = finalize_compensation(inst, now);
        let ghost events = rest@;
        out.append(&mut rest);
        out.push(SagaAction::Save);
        assert(actions(out@) =~= seq![first] + actions(events) + seq![ActionModel::Save]);
    } else {
        out.push(SagaAction::Save);
        assert(actions(out@) =~= seq![first, ActionModel::Save]);
        push_dispatches(&mut out, &nodes);
    }
    proof {
        let order = text::texts(execution_order@);
        assert forall|k: int| 0 <= k < out@.len() && (#[trigger] out@[k]) is Dispatch implies
            has_completed(before_all.node_states@, out@[k]->node_id@) && can_be_undone(
            wf.nodes@,
            out@[k]->node_id@,
        ) by {
            let id = out@[k]->node_id@;
            assert(actions(out@)[k] == out@[k]@);
            if plan.len() == 0 {
                assert(plan =~= Seq::<Seq<char>>::empty());
                law_start_with_nothing_to_undo_fails_the_instance(before, failed_node_id@, now);
            } else {
                law_start_dispatches_the_whole_plan(before, plan, failed_node_id@, now);
            }
            assert(k >= 2);
            assert(plan[k - 2] == id);
            assert(plan.contains(id));
            law_plan_undoes_what_completed(before_all, wf.nodes@, order, id);
        }
        assert forall|o: int|
            0 <= o < execution_order@.len() && has_completed(
                before_all.node_states@,
                (#[trigger] execution_order@[o])@,
            ) && can_be_undone(wf.nodes@, execution_order@[o]@) implies exists|k: int|
            0 <= k < out@.len() && (#[trigger] out@[k]) is Dispatch && out@[k]->node_id@
                == execution_order@[o]@ by {
            let id = execution_order@[o]@;
            assert(order[o] == id);
            law_plan_undoes_what_completed(before_all, wf.nodes@, order, id);
            let p = choose|p: int| 0 <= p < plan.len() && plan[p] == id;
            law_start_dispatches_the_whole_plan(before, plan, failed_node_id@, now);
            assert(actions(out@)[2 + p] == ActionModel::Dispatch(plan[p]));
            assert(out@[2 + p]@ == ActionModel::Dispatch(id));
        }
    }
    out
}

fn find_pending(saga: &SagaState) -> (r: Vec<String>)
    ensures
        text::texts(r@) == pending_nodes(saga@),
{
    let ghost planned = saga@.completed_nodes;
    let ghost keep = |n: Seq<char>| !saga@.compensated_nodes.contains(n);
    let mut out: Vec<String> = Vec::new();
    let mut i: usize = 0;
    proof {
        lists::lemma_filter_start(planned, keep);
        assert(text::texts(out@) =~= planned.take(0).filter(keep));
    }
    while i < saga.completed_nodes.len()
        invariant
            i <= saga.completed_nodes.len(),
            planned == saga@.completed_nodes,
            keep == (|n: Seq<char>| !saga@.compensated_nodes.contains(n)),
            text::texts(out@) == planned.take(i as int).filter(keep),
        decreases saga.completed_nodes.len() - i,
    {
        let ghost before = out@;
        proof {
            lists::lemma_filter_step(planned, keep, i as int);
            assert(planned[i as int] == saga.completed_nodes@[i as int]@);
        }
        if !text::contains_among(&saga.compensated_nodes, saga.completed_nodes[i].as_str()) {
            out.push(saga.completed_nodes[i].clone());
            assert(text::texts(out@) =~= text::texts(before).push(planned[i as int]));
        }
        i += 1;
    }
    assert(planned.take(planned.len() as int) =~= planned);
    out
}

/// Drives the compensation tasks that are not yet observed as successful.
pub fn dispatch_pending_compensations(inst: &mut Instance, now: Timestamp) -> (r: Vec<SagaAction>)
    ensures
        (final(inst)@, actions(r@)) == pending_dispatch(old(inst)@, now),
{
    let mut out: Vec<SagaAction> = Vec::new();
    assert(actions(out@) =~= Seq::<ActionModel>::empty());
    let pending = match &inst.saga {
        Some(saga) => if saga.compensating {
            find_pending(saga)
        } else {
            return out;
        },
        None => return out,
    };
    if pending.is_empty() {
        return finalize_compensation(inst, now);
    }
    push_dispatches(&mut out, &pending);
    assert(actions(out@) =~= dispatches(text::texts(pending@)));
    out
}

/// Re-drives compensation tasks that are still incomplete after restart, then
/// saves the instance.
pub fn resume_compensation(inst: &mut Instance, now: Timestamp) -> (r: Vec<SagaAction>)
    ensures
        final(inst)@ == pending_dispatch(old(inst)@, now).0,
        actions(r@) == pending_dispatch(old(inst)@, now).1.push(ActionModel::Save),
{
    let mut out = dispatch_pending_compensations(inst, now);
    let ghost before = out@;
    out.push(SagaAction::Save);
    assert(actions(out@) =~= actions(before).push(ActionModel::Save));
    out
}

/// How the node's compensation task is to be dispatched; nothing where the
/// workflow has no such node or does not compensate it.
pub fn dispatch_compensation<'a>(wf: &'a Workflow, node_id: &str) -> (r: Option<
    &'a CompensateConfig,
>)
    ensures
        match workflow::node_with_id(wf.nodes@, node_id@) {
            Some(node) => match node.compensate {
                Some(config) => r == Some(&config),
                None => r is None,
            },
            None => r is None,
        },
{
    match wf.node_by_id(node_id) {
        Some(node) => match &node.compensate {
            Some(config) => Some(config),
            None => None,
        },
        None => None,
    }
}

/// The compensation task for a completed node, under its one attempt.
pub fn compensation_task(
    instance_id: &InstanceId,
    node_id: &str,
    plugin_ref: &str,
    input: Vec<JsonMember>,
) -> (r: TaskMessage)
    ensures
        r.instance_id.0@ == instance_id.0@,
        r.node_id@ == COMPENSATION_PREFIX@ + node_id@,
        text::opt_text(r.dispatch_id) == Some(
            wire::dispatch_identity_text(instance_id.0@, COMPENSATION_PREFIX@ + node_id@, 1),
        ),
        r.plugin_ref@ == plugin_ref@,
        r.config is None,
        r.input == Some(input),
        r.parameters is None,
        r.capabilities is None,
        r.attempt == 1,
        r.trace_context is None,
        r.v == WIRE_VERSION,
{
    let task_node_id = compensation_task_node_id(node_id);
    let dispatch_id = wire::dispatch_identity(instance_id, task_node_id.as_str(), 1);
    TaskMessage {
        instance_id: instance_id.copy(),
        node_id: task_node_id,
        dispatch_id: Some(dispatch_id),
        plugin_ref: plugin_ref.to_owned(),
        config: None,
        input: Some(input),
        parameters: None,
        capabilities: None,
        attempt: 1,
        trace_context: None,
        v: WIRE_VERSION,
    }
}

/// What a compensation task is published as, given what it is written as.
pub open spec fn is_task_data(
    r: Result<Vec<u8>, OrbflowError>,
    written: Result<Seq<u8>, Seq<char>>,
) -> bool {
    match written {
        Ok(bytes) => r matches Ok(data) && data@ == bytes,
        Err(cause) => r matches Err(OrbflowError::Internal(e)) && e@
            == "marshal compensation task: "@ + cause,
    }
}

/// What a compensation task is published as, given what it is written as.
pub fn written_task(written: Result<Vec<u8>, String>) -> (r: Result<Vec<u8>, OrbflowError>)
    ensures
        is_task_data(
            r,
            match written {
                Ok(bytes) => Ok(bytes@),
                Err(e) => Err(e@),
            },
        ),
{
    match written {
        Ok(bytes) => Ok(bytes),
        Err(cause) => {
            let mut e = "marshal compensation task: ".to_owned();
            e.append(cause.as_str());
            Err(OrbflowError::Internal(e))
        },
    }
}

/// The bytes are read as the task, where its maps are plain.
pub open spec fn is_read_as_task(data: Seq<u8>, task: wire_json::TaskModel) -> bool {
    wire_json::task_is_plain(task) ==> wire_json::task_reads_back(data, task)
}

/// What a compensation task is published as. It is read as the task.
pub fn compensation_task_data(task: &TaskMessage) -> (r: Result<Vec<u8>, OrbflowError>)
    ensures
        is_task_data(r, wire_json::task_written(task@)),
        r matches Ok(data) ==> is_read_as_task(data@, task@),
{
    written_task(task.write())
}

/// Where a compensation task is published, on behalf of a worker pool, and what is
/// published: the task on the pool's task subject.
pub fn compensation_publication(pool: &str, task: &TaskMessage) -> (r: Result<
    (String, Vec<u8>),
    OrbflowError,
>)
    ensures
        r matches Ok(p) ==> p.0@ == subjects::task_subject_text(pool@),
        r matches Ok(p) ==> is_read_as_task(p.1@, task@),
        is_task_data(
            match r {
                Ok(p) => Ok(p.1),
                Err(e) => Err(e),
            },
            wire_json::task_written(task@),
        ),
{
    match compensation_task_data(task) {
        Ok(data) => Ok((subjects::task_subject(pool), data)),
        Err(e) => Err(e),
    }
}

fn all_done(saga: &SagaState) -> (r: bool)
    ensures
        r == all_compensated(saga@),
{
    if saga.completed_nodes.is_empty() || saga.compensated_nodes.len()
        != saga.completed_nodes.len() {
        return false;
    }
    let mut i: usize = 0;
    while i < saga.compensated_nodes.len()
        invariant
            i <= saga.compensated_nodes.len(),
            forall|k: int|
                0 <= k < i ==> saga@.completed_nodes.contains(
                    #[trigger] saga@.compensated_nodes[k],
                ),
        decreases saga.compensated_nodes.len() - i,
    {
        if !text::contains_among(&saga.completed_nodes, saga.compensated_nodes[i].as_str()) {
            assert(!saga@.completed_nodes.contains(saga@.compensated_nodes[i as int]));
            return false;
        }
        assert(saga@.compensated_nodes[i as int] == saga.compensated_nodes@[i as int]@);
        i += 1;
    }
    true
}

fn refusal(before: &str, node_id: &str, after: &str) -> (r: OrbflowError)
    ensures
        r matches OrbflowError::Bus(m) && m@ == before@ + node_id@ + after@,
{
    let mut out = before.to_owned();
    out.append(node_id);
    out.append(after);
    OrbflowError::Bus(out)
}

/// Processes a compensation task result. Tracks which nodes have been
/// compensated and emits a completion event when all are done. A result that is
/// refused leaves the instance as it was.
pub fn handle_compensation_result(
    inst: &mut Instance,
    result: &ResultMessage,
    now: Timestamp,
) -> (r: Result<Vec<SagaAction>, OrbflowError>)
    ensures
        match compensation_result(old(inst)@, result.node_id@, text::opt_text(result.error), now) {
            Ok((after, todo)) => r is Ok && final(inst)@ == after && actions(r->Ok_0@) == todo,
            Err(refusal) => {
                &&& r matches Err(OrbflowError::Bus(m)) && m@ == refusal
                &&& final(inst)@ == old(inst)@
            },
        },
{
    let orig_node_id = match text::strip_prefix(result.node_id.as_str(), COMPENSATION_PREFIX) {
        Some(rest) => rest,
        None => result.node_id.clone(),
    };
    assert(orig_node_id@ == compensated_node(result.node_id@));
    if let Some(error_msg) = &result.error {
        let failed = fail_compensation(inst, orig_node_id.as_str(), error_msg.as_str(), now);
        let mut out: Vec<SagaAction> = Vec::new();
        out.push(failed);
        out.push(SagaAction::Save);
        assert(actions(out@) =~= seq![failed@, ActionModel::Save]);
        return Ok(out);
    }
    let ghost before = inst@;
    let ghost node = orig_node_id@;
    let done: bool;
    match inst.saga.take() {
        Some(mut saga) => {
            if !saga.compensating {
                inst.saga = Some(saga);
                assert(inst@ =~= before);
                return Err(
                    refusal(
                        "compensation result for node ",
                        result.node_id.as_str(),
                        " received without active saga",
                    ),
                );
            }
            if !text::contains_among(&saga.completed_nodes, orig_node_id.as_str()) {
                inst.saga = Some(saga);
                assert(inst@ =~= before);
                return Err(
                    refusal(
                        "compensation result for node ",
                        result.node_id.as_str(),
                        " was not dispatched",
                    ),
                );
            }
            if text::contains_among(&saga.compensated_nodes, orig_node_id.as_str()) {
                inst.saga = Some(saga);
                assert(inst@ =~= before);
                proof {
                    reveal_strlit("");
                    assert("duplicate compensation result for node "@ + result.node_id@ + ""@
                        =~= "duplicate compensation result for node "@ + result.node_id@);
                }
                return Err(
                    refusal(
                        "duplicate compensation result for node ",
                        result.node_id.as_str(),
                        "",
                    ),
                );
            }
            let ghost marked = saga.compensated_nodes@;
            saga.compensated_nodes.push(orig_node_id);
            assert(text::texts(saga.compensated_nodes@) =~= text::texts(marked).push(node));
            done = all_done(&saga);
            inst.saga = Some(saga);
            inst.updated_at = now;
        },
        None => {
            assert(inst@ =~= before);
            return Err(
                refusal(
                    "compensation result for node ",
                    result.node_id.as_str(),
                    " received without active saga",
                ),
            );
        },
    }
    assert(inst@.node_states =~= before.node_states);
    assert(inst@ == with_compensated(before, node, now));
    let mut out: Vec<SagaAction> = Vec::new();
    if done {
        out = finalize_compensation(inst, now);
    }
    let ghost events = out@;
    out.push(SagaAction::Save);
    assert(actions(out@) =~= actions(events) + seq![ActionModel::Save]);
    assert(actions(Seq::<SagaAction>::empty()) + seq![ActionModel::Save] =~= seq![
        ActionModel::Save,
    ]);
    Ok(out)
}

/// The plan names no node twice, a node counts as compensated at most once, and
/// only where it is planned.
pub open spec fn saga_is_consistent(saga: SagaModel) -> bool {
    &&& saga.completed_nodes.no_duplicates()
    &&& saga.compensated_nodes.no_duplicates()
    &&& forall|i: int|
        0 <= i < saga.compensated_nodes.len() ==> saga.completed_nodes.contains(
            #[trigger] saga.compensated_nodes[i],
        )
}

/// The rollback of the instance is under way.
pub open spec fn is_compensating(inst: InstanceModel) -> bool {
    inst.saga is Some && inst.saga->0.compensating
}

/// The node id of a node's compensation task leads back to the node.
pub proof fn law_compensation_task_names_its_node(node_id: Seq<char>)
    ensures
        compensated_node(COMPENSATION_PREFIX@ + node_id) == node_id,
{
    let task = COMPENSATION_PREFIX@ + node_id;
    assert(task.take(COMPENSATION_PREFIX@.len() as int) =~= COMPENSATION_PREFIX@);
    assert(task.skip(COMPENSATION_PREFIX@.len() as int) =~= node_id);
}

/// What comes last in the execution order is compensated first.
pub proof fn law_plan_runs_backwards(
    inst: InstanceModel,
    nodes: Seq<Node>,
    execution_order: Seq<Seq<char>>,
    last: Seq<char>,
)
    ensures
        compensation_plan(inst, nodes, execution_order.push(last)) == if needs_compensation(
            inst,
            nodes,
            last,
        ) {
            seq![last] + compensation_plan(inst, nodes, execution_order)
        } else {
            compensation_plan(inst, nodes, execution_order)
        },
{
    let keep = |n: Seq<char>| needs_compensation(inst, nodes, n);
    let longer = execution_order.push(last);
    lists::lemma_filter_step(longer, keep, execution_order.len() as int);
    assert(longer.take(execution_order.len() as int) =~= execution_order);
    assert(longer.take(longer.len() as int) =~= longer);
    let kept = execution_order.filter(keep);
    assert(kept.push(last).reverse() =~= seq![last] + kept.reverse());
}

proof fn lemma_filter_contains<A>(s: Seq<A>, keep: spec_fn(A) -> bool, a: A)
    ensures
        s.filter(keep).contains(a) <==> s.contains(a) && keep(a),
    decreases s.len(),
{
    reveal(Seq::filter);
    if s.len() > 0 {
        lemma_filter_contains(s.drop_last(), keep, a);
        let shorter = s.drop_last().filter(keep);
        assert(s =~= s.drop_last().push(s.last()));
        assert(s.contains(a) <==> s.drop_last().contains(a) || s.last() == a) by {
            if s.drop_last().contains(a) {
                let i = choose|i: int| 0 <= i < s.drop_last().len() && s.drop_last()[i] == a;
                assert(s[i] == a);
            }
            if s.contains(a) && s.last() != a {
                let i = choose|i: int| 0 <= i < s.len() && s[i] == a;
                assert(s.drop_last()[i] == a);
            }
            if s.last() == a {
                assert(s[s.len() - 1] == a);
            }
        }
        if keep(s.last()) {
            assert(s.filter(keep) == shorter.push(s.last()));
            if shorter.contains(a) {
                let i = choose|i: int| 0 <= i < shorter.len() && shorter[i] == a;
                assert(s.filter(keep)[i] == a);
            }
            if s.last() == a {
                assert(s.filter(keep)[shorter.len() as int] == a);
            }
            if s.filter(keep).contains(a) && s.last() != a {
                let i = choose|i: int| 0 <= i < s.filter(keep).len() && s.filter(keep)[i] == a;
                assert(shorter[i] == a);
            }
        }
    }
}

proof fn lemma_filter_no_duplicates<A>(s: Seq<A>, keep: spec_fn(A) -> bool)
    requires
        s.no_duplicates(),
    ensures
        s.filter(keep).no_duplicates(),
    decreases s.len(),
{
    reveal(Seq::filter);
    if s.len() > 0 {
        assert(s.drop_last().no_duplicates());
        lemma_filter_no_duplicates(s.drop_last(), keep);
        lemma_filter_contains(s.drop_last(), keep, s.last());
        assert(!s.drop_last().contains(s.last()));
    }
}

proof fn lemma_plan_has_no_duplicates(
    inst: InstanceModel,
    nodes: Seq<Node>,
    execution_order: Seq<Seq<char>>,
)
    requires
        execution_order.no_duplicates(),
    ensures
        compensation_plan(inst, nodes, execution_order).no_duplicates(),
{
    let keep = |n: Seq<char>| needs_compensation(inst, nodes, n);
    lemma_filter_no_duplicates(execution_order, keep);
    let kept = execution_order.filter(keep);
    let plan = kept.reverse();
    assert forall|i: int, j: int|
        0 <= i < plan.len() && 0 <= j < plan.len() && i != j implies plan[i] != plan[j] by {
        assert(plan[i] == kept[kept.len() - 1 - i]);
        assert(plan[j] == kept[kept.len() - 1 - j]);
    }
}

/// The plan holds exactly the nodes of the execution order that completed and
/// have a compensation.
pub proof fn law_plan_holds_what_needs_compensation(
    inst: InstanceModel,
    nodes: Seq<Node>,
    execution_order: Seq<Seq<char>>,
    node: Seq<char>,
)
    ensures
        compensation_plan(inst, nodes, execution_order).contains(node) <==> execution_order.contains(
            node,
        ) && needs_compensation(inst, nodes, node),
{
    let keep = |n: Seq<char>| needs_compensation(inst, nodes, n);
    lemma_filter_contains(execution_order, keep, node);
    let kept = execution_order.filter(keep);
    let plan = kept.reverse();
    if kept.contains(node) {
        let i = choose|i: int| 0 <= i < kept.len() && kept[i] == node;
        assert(plan[kept.len() - 1 - i] == node);
    }
    if plan.contains(node) {
        let i = choose|i: int| 0 <= i < plan.len() && plan[i] == node;
        assert(kept[kept.len() - 1 - i] == node);
    }
}

/// The state at this place is the first that the instance holds for the node.
pub open spec fn is_first_state(states: Seq<NodeState>, i: int, node_id: Seq<char>) -> bool {
    &&& 0 <= i < states.len()
    &&& states[i].node_id@ == node_id
    &&& forall|j: int| 0 <= j < i ==> (#[trigger] states[j]).node_id@ != node_id
}

/// The definition at this place is the first that the workflow holds for the node.
pub open spec fn is_first_definition(nodes: Seq<Node>, i: int, node_id: Seq<char>) -> bool {
    &&& 0 <= i < nodes.len()
    &&& nodes[i].id@ == node_id
    &&& forall|j: int| 0 <= j < i ==> (#[trigger] nodes[j]).id@ != node_id
}

/// The instance says of the node that it completed: that is what its first state
/// for the node says.
pub open spec fn has_completed(states: Seq<NodeState>, node_id: Seq<char>) -> bool {
    exists|i: int|
        #[trigger] is_first_state(states, i, node_id) && states[i].status == NodeStatus::Completed
}

/// The workflow says how to undo the node: its first definition for the node does.
pub open spec fn can_be_undone(nodes: Seq<Node>, node_id: Seq<char>) -> bool {
    exists|i: int|
        #[trigger] is_first_definition(nodes, i, node_id) && nodes[i].compensate is Some
}

proof fn lemma_first_status(states: Seq<(Seq<char>, NodeStatus)>, node_id: Seq<char>, i: int)
    requires
        0 <= i < states.len(),
        states[i].0 == node_id,
        forall|j: int| 0 <= j < i ==> (#[trigger] states[j]).0 != node_id,
    ensures
        status_of(states, node_id) == Some(states[i].1),
    decreases states.len(),
{
    if i > 0 {
        assert(states[0].0 != node_id);
        let rest = states.drop_first();
        assert(rest[i - 1] == states[i]);
        assert forall|j: int| 0 <= j < i - 1 implies (#[trigger] rest[j]).0 != node_id by {
            assert(states[j + 1].0 != node_id);
        }
        lemma_first_status(rest, node_id, i - 1);
    }
}

proof fn lemma_status_stands(states: Seq<(Seq<char>, NodeStatus)>, node_id: Seq<char>) -> (i: int)
    requires
        status_of(states, node_id) is Some,
    ensures
        0 <= i < states.len(),
        states[i].0 == node_id,
        status_of(states, node_id) == Some(states[i].1),
        forall|j: int| 0 <= j < i ==> (#[trigger] states[j]).0 != node_id,
    decreases states.len(),
{
    if states[0].0 == node_id {
        0
    } else {
        let rest = states.drop_first();
        let k = lemma_status_stands(rest, node_id);
        assert(rest[k] == states[k + 1]);
        assert forall|j: int| 0 <= j < k + 1 implies (#[trigger] states[j]).0 != node_id by {
            if j > 0 {
                assert(rest[j - 1].0 != node_id);
            }
        }
        k + 1
    }
}

proof fn lemma_definition_stands(nodes: Seq<Node>, node_id: Seq<char>) -> (i: int)
    requires
        workflow::node_with_id(nodes, node_id) is Some,
    ensures
        is_first_definition(nodes, i, node_id),
        workflow::node_with_id(nodes, node_id) == Some(nodes[i]),
    decreases nodes.len(),
{
    if nodes[0].id@ == node_id {
        0
    } else {
        let rest = nodes.drop_first();
        let k = lemma_definition_stands(rest, node_id);
        assert(rest[k] == nodes[k + 1]);
        assert forall|j: int| 0 <= j < k + 1 implies (#[trigger] nodes[j]).id@ != node_id by {
            if j > 0 {
                assert(rest[j - 1].id@ != node_id);
            }
        }
        k + 1
    }
}

/// A node needs compensation exactly when the first state that the instance holds
/// for it is that it completed, and the first definition that the workflow holds
/// for it says how to undo it.
pub proof fn law_only_completed_nodes_need_compensation(
    inst: Instance,
    nodes: Seq<Node>,
    node_id: Seq<char>,
)
    ensures
        needs_compensation(inst@, nodes, node_id) <==> has_completed(
            inst.node_states@,
            node_id,
        ) && can_be_undone(nodes, node_id),
{
    let states = inst.node_states@;
    let models = inst@.node_states;
    assert forall|i: int| 0 <= i < states.len() implies (#[trigger] models[i]) == (
        states[i].node_id@,
        states[i].status,
    ) by {}
    if needs_compensation(inst@, nodes, node_id) {
        let s = lemma_status_stands(models, node_id);
        assert(is_first_state(states, s, node_id)) by {
            assert forall|j: int| 0 <= j < s implies (#[trigger] states[j]).node_id@
                != node_id by {
                assert(models[j].0 != node_id);
            }
        }
        let d = lemma_definition_stands(nodes, node_id);
    }
    if has_completed(states, node_id) && can_be_undone(nodes, node_id) {
        let s = choose|i: int|
            #[trigger] is_first_state(states, i, node_id) && states[i].status
                == NodeStatus::Completed;
        let d = choose|i: int|
            #[trigger] is_first_definition(nodes, i, node_id) && nodes[i].compensate is Some;
        assert forall|j: int| 0 <= j < s implies (#[trigger] models[j]).0 != node_id by {
            assert(states[j].node_id@ != node_id);
        }
        lemma_first_status(models, node_id, s);
        workflow::law_first_node_is_found(nodes, node_id, d);
    }
}

/// The plan holds exactly the nodes of the execution order that completed and that
/// can be undone. A node that did not complete, the failed one among them, is never
/// compensated.
pub proof fn law_plan_undoes_what_completed(
    inst: Instance,
    nodes: Seq<Node>,
    execution_order: Seq<Seq<char>>,
    node_id: Seq<char>,
)
    ensures
        compensation_plan(inst@, nodes, execution_order).contains(node_id) <==> (
        execution_order.contains(node_id) && has_completed(inst.node_states@, node_id)
            && can_be_undone(nodes, node_id)),
{
    law_plan_holds_what_needs_compensation(inst@, nodes, execution_order, node_id);
    law_only_completed_nodes_need_compensation(inst, nodes, node_id);
}

/// Of two planned nodes, the one that comes later in the execution order is
/// compensated first.
pub proof fn law_later_nodes_are_compensated_first(
    inst: InstanceModel,
    nodes: Seq<Node>,
    execution_order: Seq<Seq<char>>,
    i: int,
    j: int,
    k: int,
    l: int,
)
    requires
        execution_order.no_duplicates(),
        0 <= i < j < execution_order.len(),
        0 <= k < compensation_plan(inst, nodes, execution_order).len(),
        0 <= l < compensation_plan(inst, nodes, execution_order).len(),
        compensation_plan(inst, nodes, execution_order)[k] == execution_order[i],
        compensation_plan(inst, nodes, execution_order)[l] == execution_order[j],
    ensures
        l < k,
    decreases execution_order.len(),
{
    let shorter = execution_order.drop_last();
    let last = execution_order.last();
    assert(execution_order =~= shorter.push(last));
    law_plan_runs_backwards(inst, nodes, shorter, last);
    lemma_plan_has_no_duplicates(inst, nodes, execution_order);
    let plan = compensation_plan(inst, nodes, execution_order);
    let rest = compensation_plan(inst, nodes, shorter);
    if j == shorter.len() {
        assert(needs_compensation(inst, nodes, last)) by {
            law_plan_holds_what_needs_compensation(inst, nodes, execution_order, last);
            assert(plan.contains(plan[l]));
        }
        assert(plan[0] == last);
        assert(l == 0);
        assert(execution_order[i] != execution_order[j]);
    } else {
        assert(execution_order[i] != last);
        assert(execution_order[j] != last);
        if needs_compensation(inst, nodes, last) {
            assert(plan[0] == last);
            assert(rest[k - 1] == plan[k]);
            assert(rest[l - 1] == plan[l]);
            law_later_nodes_are_compensated_first(inst, nodes, shorter, i, j, k - 1, l - 1);
        } else {
            law_later_nodes_are_compensated_first(inst, nodes, shorter, i, j, k, l);
        }
    }
}

/// A rollback with something to undo notes the plan in the instance, says that it
/// started, saves, and then dispatches each planned node once, in the order of the
/// plan. Nothing else of the instance changes but that it runs again.
pub proof fn law_start_dispatches_the_whole_plan(
    inst: InstanceModel,
    plan: Seq<Seq<char>>,
    failed: Seq<char>,
    now: Timestamp,
)
    requires
        plan.len() > 0,
    ensures
        ({
            let (after, todo) = compensation_start(inst, plan, failed, now);
            &&& todo.len() == plan.len() + 2
            &&& todo[0] == ActionModel::Append(
                EventModel::CompensationStarted {
                    instance_id: inst.id,
                    version: inst.version,
                    failed_node: failed,
                },
            )
            &&& todo[1] == ActionModel::Save
            &&& forall|k: int|
                0 <= k < plan.len() ==> todo[2 + k] == ActionModel::Dispatch(#[trigger] plan[k])
            &&& after.status == InstanceStatus::Running
            &&& after.saga is Some
            &&& after.saga->0.compensating
            &&& after.saga->0.failed_node == Some(failed)
            &&& after.saga->0.completed_nodes == plan
            &&& after.saga->0.compensated_nodes.len() == 0
            &&& after.id == inst.id
            &&& after.version == inst.version
            &&& after.node_states == inst.node_states
            &&& after.updated_at == inst.updated_at
        }),
{
}

/// A rollback with nothing to undo ends at once: the instance has failed, and the
/// events say that the rollback started, went through, and why the instance failed.
pub proof fn law_start_with_nothing_to_undo_fails_the_instance(
    inst: InstanceModel,
    failed: Seq<char>,
    now: Timestamp,
)
    ensures
        ({
            let (after, todo) = compensation_start(inst, Seq::empty(), failed, now);
            &&& todo.len() == 4
            &&& todo[0] == ActionModel::Append(
                EventModel::CompensationStarted {
                    instance_id: inst.id,
                    version: inst.version,
                    failed_node: failed,
                },
            )
            &&& todo[1] == ActionModel::Append(
                EventModel::CompensationCompleted { instance_id: inst.id, version: inst.version },
            )
            &&& todo[2] == ActionModel::Append(
                EventModel::InstanceFailed {
                    instance_id: inst.id,
                    version: inst.version,
                    error: "node "@ + failed + " failed; compensation completed"@,
                },
            )
            &&& todo[3] == ActionModel::Save
            &&& after.status == InstanceStatus::Failed
            &&& after.updated_at == now
            &&& after.saga is Some
            &&& !after.saga->0.compensating
            &&& after.saga->0.failed_node == Some(failed)
            &&& after.saga->0.completed_nodes.len() == 0
            &&& after.saga->0.compensated_nodes.len() == 0
            &&& after.id == inst.id
            &&& after.version == inst.version
            &&& after.node_states == inst.node_states
        }),
{
}

/// What the instance keeps when a result of its rollback comes in: who it is, its
/// version, the states of its nodes, the failed node and the plan.
pub open spec fn same_rollback(after: InstanceModel, before: InstanceModel) -> bool {
    &&& after.id == before.id
    &&& after.version == before.version
    &&& after.node_states == before.node_states
    &&& after.saga is Some <==> before.saga is Some
    &&& before.saga is Some ==> after.saga->0.failed_node == before.saga->0.failed_node
        && after.saga->0.completed_nodes == before.saga->0.completed_nodes
}

/// A compensation that failed ends the rollback: the instance has failed, no node
/// is compensated any more, and the error says which node failed first, which
/// compensation failed, and why.
pub proof fn law_failed_compensation_fails_the_instance(
    inst: InstanceModel,
    node: Seq<char>,
    error: Seq<char>,
    now: Timestamp,
)
    ensures
        compensation_result(inst, "_compensate_"@ + node, Some(error), now) is Ok,
        ({
            let (after, todo) = compensation_result(
                inst,
                "_compensate_"@ + node,
                Some(error),
                now,
            )->Ok_0;
            &&& same_rollback(after, inst)
            &&& after.status == InstanceStatus::Failed
            &&& after.updated_at == now
            &&& after.saga is Some ==> !after.saga->0.compensating
            &&& after.saga is Some ==> after.saga->0.compensated_nodes
                == inst.saga->0.compensated_nodes
            &&& todo.len() == 2
            &&& todo[1] == ActionModel::Save
            &&& todo[0] matches ActionModel::Append(
                EventModel::InstanceFailed { instance_id, version, error: text },
            ) && instance_id == inst.id && version == inst.version && (inst.saga is Some
                && inst.saga->0.failed_node is Some ==> text == "node "@
                + inst.saga->0.failed_node->0 + " failed; compensation for node "@ + node
                + " failed: "@ + error)
        }),
{
    law_compensation_task_names_its_node(node);
}

/// A compensation that succeeded is taken exactly when the rollback runs, the node
/// is planned, and it was not compensated before. It is then the last of the
/// compensated nodes; the rollback ends with it, the instance failed, exactly when
/// it completes the plan.
pub proof fn law_successful_compensation_is_noted(
    inst: InstanceModel,
    node: Seq<char>,
    now: Timestamp,
)
    requires
        inst.saga is Some ==> saga_is_consistent(inst.saga->0),
    ensures
        ({
            let r = compensation_result(inst, "_compensate_"@ + node, None, now);
            &&& r is Ok <==> inst.saga is Some && inst.saga->0.compensating
                && inst.saga->0.completed_nodes.contains(node)
                && !inst.saga->0.compensated_nodes.contains(node)
            &&& r is Ok ==> {
                let (after, todo) = r->Ok_0;
                let saga = inst.saga->0;
                let done = forall|i: int|
                    0 <= i < saga.completed_nodes.len() ==> (#[trigger] saga.completed_nodes[i])
                        == node || saga.compensated_nodes.contains(saga.completed_nodes[i]);
                &&& same_rollback(after, inst)
                &&& after.updated_at == now
                &&& after.saga->0.compensated_nodes == saga.compensated_nodes.push(node)
                &&& after.saga->0.compensating <==> !done
                &&& after.status == if done {
                    InstanceStatus::Failed
                } else {
                    inst.status
                }
                &&& todo.len() == if done {
                    3int
                } else {
                    1int
                }
                &&& todo.last() == ActionModel::Save
                &&& done ==> todo[0] == ActionModel::Append(
                    EventModel::CompensationCompleted {
                        instance_id: inst.id,
                        version: inst.version,
                    },
                )
                &&& done && saga.failed_node is Some ==> todo[1] == ActionModel::Append(
                    EventModel::InstanceFailed {
                        instance_id: inst.id,
                        version: inst.version,
                        error: "node "@ + saga.failed_node->0 + " failed; compensation completed"@,
                    },
                )
            }
        }),
{
    law_compensation_task_names_its_node(node);
    let task = "_compensate_"@ + node;
    let r = compensation_result(inst, task, None, now);
    if r is Ok {
        let saga = inst.saga->0;
        law_results_keep_rollback_consistent(inst, task, None, now);
        let next = with_compensated(inst, node, now).saga->0;
        assert(saga_is_consistent(next));
        assert(saga.completed_nodes.len() > 0);
        law_done_means_every_planned_node(next);
        let marked = saga.compensated_nodes.push(node);
        assert(next.compensated_nodes == marked);
        assert forall|n: Seq<char>| #[trigger] marked.contains(n) <==> n == node
            || saga.compensated_nodes.contains(n) by {
            if saga.compensated_nodes.contains(n) {
                let i = choose|i: int|
                    0 <= i < saga.compensated_nodes.len() && saga.compensated_nodes[i] == n;
                assert(marked[i] == n);
            }
            assert(marked[saga.compensated_nodes.len() as int] == node);
            if marked.contains(n) && n != node {
                let i = choose|i: int| 0 <= i < marked.len() && marked[i] == n;
                assert(saga.compensated_nodes[i] == n);
            }
        }
    }
}

/// Driving a rollback on dispatches the planned nodes in the order of the plan; with
/// nothing left it ends the rollback as a last success does.
pub proof fn law_driving_on_ends_or_dispatches(inst: InstanceModel, now: Timestamp)
    requires
        is_compensating(inst),
    ensures
        ({
            let (after, todo) = pending_dispatch(inst, now);
            let saga = inst.saga->0;
            &&& saga.compensated_nodes.len() == 0 && saga.completed_nodes.len() > 0 ==> todo.len()
                == saga.completed_nodes.len() && forall|k: int|
                0 <= k < todo.len() ==> todo[k] == ActionModel::Dispatch(
                    #[trigger] saga.completed_nodes[k],
                )
            &&& saga.completed_nodes.len() == 0 ==> {
                &&& same_rollback(after, inst)
                &&& after.status == InstanceStatus::Failed
                &&& after.updated_at == now
                &&& !after.saga->0.compensating
                &&& todo.len() == 2
                &&& todo[0] == ActionModel::Append(
                    EventModel::CompensationCompleted {
                        instance_id: inst.id,
                        version: inst.version,
                    },
                )
                &&& todo[1] matches ActionModel::Append(EventModel::InstanceFailed { .. })
            }
        }),
{
    let saga = inst.saga->0;
    let keep = |n: Seq<char>| !saga.compensated_nodes.contains(n);
    if saga.completed_nodes.len() == 0 {
        reveal(Seq::filter);
        assert(pending_nodes(saga).len() == 0);
    } else if saga.compensated_nodes.len() == 0 {
        lemma_filter_keeps_all(saga.completed_nodes, keep);
    }
}

proof fn lemma_filter_keeps_all<A>(s: Seq<A>, keep: spec_fn(A) -> bool)
    requires
        forall|i: int| 0 <= i < s.len() ==> keep(#[trigger] s[i]),
    ensures
        s.filter(keep) == s,
    decreases s.len(),
{
    reveal(Seq::filter);
    if s.len() > 0 {
        let shorter = s.drop_last();
        assert forall|i: int| 0 <= i < shorter.len() implies keep(#[trigger] shorter[i]) by {
            assert(shorter[i] == s[i]);
        }
        lemma_filter_keeps_all(shorter, keep);
        assert(keep(s[s.len() - 1]));
        assert(s =~= shorter.push(s.last()));
    }
}

/// No task is dispatched at the start of a rollback before the plan is saved.
pub proof fn law_plan_is_saved_before_dispatch(
    inst: InstanceModel,
    plan: Seq<Seq<char>>,
    failed: Seq<char>,
    now: Timestamp,
    k: int,
)
    requires
        0 <= k < compensation_start(inst, plan, failed, now).1.len(),
        compensation_start(inst, plan, failed, now).1[k] is Dispatch,
    ensures
        exists|j: int|
            0 <= j < k && #[trigger] compensation_start(inst, plan, failed, now).1[j]
                == ActionModel::Save,
{
    let todo = compensation_start(inst, plan, failed, now).1;
    if plan.len() == 0 {
        assert(todo.len() == 4);
        assert(todo[0] is Append && todo[1] is Append && todo[2] is Append && todo[3] is Save);
    } else {
        assert(todo[0] is Append);
        assert(todo[1] == ActionModel::Save);
    }
}

/// A rollback starts consistent, whatever the instance held before, as no
/// execution order names a node twice.
pub proof fn law_rollback_starts_consistent(
    inst: InstanceModel,
    nodes: Seq<Node>,
    execution_order: Seq<Seq<char>>,
    failed: Seq<char>,
    now: Timestamp,
)
    requires
        execution_order.no_duplicates(),
    ensures
        ({
            let plan = compensation_plan(inst, nodes, execution_order);
            let after = compensation_start(inst, plan, failed, now).0;
            &&& after.saga is Some
            &&& saga_is_consistent(after.saga->0)
            &&& after.saga->0.failed_node == Some(failed)
            &&& is_compensating(after) <==> plan.len() > 0
        }),
{
    lemma_plan_has_no_duplicates(inst, nodes, execution_order);
}

/// Every result that is taken keeps the rollback consistent.
pub proof fn law_results_keep_rollback_consistent(
    inst: InstanceModel,
    task_node_id: Seq<char>,
    error: Option<Seq<char>>,
    now: Timestamp,
)
    requires
        inst.saga is Some,
        saga_is_consistent(inst.saga->0),
        compensation_result(inst, task_node_id, error, now) is Ok,
    ensures
        ({
            let after = compensation_result(inst, task_node_id, error, now)->Ok_0.0;
            after.saga is Some && saga_is_consistent(after.saga->0)
        }),
{
    let saga = inst.saga->0;
    let node = compensated_node(task_node_id);
    if error is None {
        let next = saga.compensated_nodes.push(node);
        assert forall|i: int| 0 <= i < next.len() implies saga.completed_nodes.contains(
            #[trigger] next[i],
        ) by {
            if i < saga.compensated_nodes.len() {
                assert(next[i] == saga.compensated_nodes[i]);
            }
        }
        assert(next.no_duplicates()) by {
            assert forall|i: int, j: int| 0 <= i < j < next.len() implies next[i] != next[j] by {
                if j == next.len() - 1 {
                    assert(saga.compensated_nodes[i] == next[i]);
                }
            }
        }
    }
}

proof fn lemma_covers<A>(part: Seq<A>, whole: Seq<A>)
    requires
        part.no_duplicates(),
        whole.no_duplicates(),
        part.len() == whole.len(),
        forall|i: int| 0 <= i < part.len() ==> whole.contains(#[trigger] part[i]),
    ensures
        forall|i: int| 0 <= i < whole.len() ==> part.contains(#[trigger] whole[i]),
{
    part.unique_seq_to_set();
    whole.unique_seq_to_set();
    assert(part.to_set().subset_of(whole.to_set()));
    vstd::set_lib::lemma_subset_equality(part.to_set(), whole.to_set());
    assert forall|i: int| 0 <= i < whole.len() implies part.contains(#[trigger] whole[i]) by {
        assert(whole.to_set().contains(whole[i]));
        assert(part.to_set().contains(whole[i]));
    }
}

proof fn lemma_covered_length<A>(part: Seq<A>, whole: Seq<A>)
    requires
        part.no_duplicates(),
        whole.no_duplicates(),
        forall|i: int| 0 <= i < part.len() ==> whole.contains(#[trigger] part[i]),
        forall|i: int| 0 <= i < whole.len() ==> part.contains(#[trigger] whole[i]),
    ensures
        part.len() == whole.len(),
{
    part.unique_seq_to_set();
    whole.unique_seq_to_set();
    assert(part.to_set() =~= whole.to_set()) by {
        assert forall|a: A| part.to_set().contains(a) <==> whole.to_set().contains(a) by {
            if part.contains(a) {
                let i = choose|i: int| 0 <= i < part.len() && part[i] == a;
                assert(whole.contains(part[i]));
            }
            if whole.contains(a) {
                let i = choose|i: int| 0 <= i < whole.len() && whole[i] == a;
                assert(part.contains(whole[i]));
            }
        }
    }
}

/// The rollback counts as done exactly when each planned node was compensated.
pub proof fn law_done_means_every_planned_node(saga: SagaModel)
    requires
        saga_is_consistent(saga),
        saga.completed_nodes.len() > 0,
    ensures
        all_compensated(saga) <==> forall|i: int|
            0 <= i < saga.completed_nodes.len() ==> saga.compensated_nodes.contains(
                #[trigger] saga.completed_nodes[i],
            ),
        all_compensated(saga) <==> pending_nodes(saga).len() == 0,
{
    let every = forall|i: int|
        0 <= i < saga.completed_nodes.len() ==> saga.compensated_nodes.contains(
            #[trigger] saga.completed_nodes[i],
        );
    if all_compensated(saga) {
        lemma_covers(saga.compensated_nodes, saga.completed_nodes);
    }
    if every {
        lemma_covered_length(saga.compensated_nodes, saga.completed_nodes);
    }
    let keep = |n: Seq<char>| !saga.compensated_nodes.contains(n);
    let pending = pending_nodes(saga);
    if pending.len() == 0 {
        assert forall|i: int|
            0 <= i < saga.completed_nodes.len() implies saga.compensated_nodes.contains(
            #[trigger] saga.completed_nodes[i],
        ) by {
            lemma_filter_contains(saga.completed_nodes, keep, saga.completed_nodes[i]);
        }
    }
    if every && pending.len() > 0 {
        lemma_filter_contains(saga.completed_nodes, keep, pending[0]);
        let i = choose|i: int|
            0 <= i < saga.completed_nodes.len() && saga.completed_nodes[i] == pending[0];
        assert(saga.compensated_nodes.contains(saga.completed_nodes[i]));
    }
}

/// A node's success counts once: the same result a second time is refused.
pub proof fn law_duplicate_result_is_refused(
    inst: InstanceModel,
    task_node_id: Seq<char>,
    now: Timestamp,
    later: Timestamp,
)
    requires
        compensation_result(inst, task_node_id, None, now) is Ok,
    ensures
        compensation_result(
            compensation_result(inst, task_node_id, None, now)->Ok_0.0,
            task_node_id,
            None,
            later,
        ) is Err,
{
    let node = compensated_node(task_node_id);
    let saga = inst.saga->0;
    let next = saga.compensated_nodes.push(node);
    assert(next[saga.compensated_nodes.len() as int] == node);
    assert(next.contains(node));
}

/// Once a rollback has ended, no success is taken any more and no task is driven.
pub proof fn law_ended_rollback_stays_ended(
    inst: InstanceModel,
    now: Timestamp,
    task_node_id: Seq<char>,
    later: Timestamp,
)
    ensures
        !is_compensating(rolled_back(inst, now)),
        compensation_result(rolled_back(inst, now), task_node_id, None, later) is Err,
        pending_dispatch(rolled_back(inst, now), later) == (
            rolled_back(inst, now),
            Seq::<ActionModel>::empty(),
        ),
{
}

/// After a restart, exactly the planned nodes that are not yet compensated are
/// dispatched, each once, and the instance is left as it is.
pub proof fn law_restart_drives_exactly_the_pending_nodes(
    inst: InstanceModel,
    now: Timestamp,
    node: Seq<char>,
)
    requires
        is_compensating(inst),
        saga_is_consistent(inst.saga->0),
        pending_nodes(inst.saga->0).len() > 0,
    ensures
        pending_dispatch(inst, now).0 == inst,
        pending_dispatch(inst, now).1.no_duplicates(),
        pending_dispatch(inst, now).1.contains(ActionModel::Dispatch(node)) <==> (
        inst.saga->0.completed_nodes.contains(node)
            && !inst.saga->0.compensated_nodes.contains(node)),
{
    let saga = inst.saga->0;
    let keep = |n: Seq<char>| !saga.compensated_nodes.contains(n);
    let pending = pending_nodes(saga);
    let todo = dispatches(pending);
    lemma_filter_contains(saga.completed_nodes, keep, node);
    lemma_filter_no_duplicates(saga.completed_nodes, keep);
    if pending.contains(node) {
        let i = choose|i: int| 0 <= i < pending.len() && pending[i] == node;
        assert(todo[i] == ActionModel::Dispatch(node));
    }
    if todo.contains(ActionModel::Dispatch(node)) {
        let i = choose|i: int| 0 <= i < todo.len() && todo[i] == ActionModel::Dispatch(node);
        assert(pending[i] == node);
    }
    assert forall|i: int, j: int| 0 <= i < j < todo.len() implies todo[i] != todo[j] by {
        assert(pending[i] != pending[j]);
        assert(todo[i] == ActionModel::Dispatch(pending[i]));
        assert(todo[j] == ActionModel::Dispatch(pending[j]));
    }
}

/// The instance after the successes of the nodes, one after another; nothing
/// where one of them is refused.
pub open spec fn after_successes(
    inst: InstanceModel,
    nodes: Seq<Seq<char>>,
    now: Timestamp,
) -> Option<InstanceModel>
    decreases nodes.len(),
{
    if nodes.len() == 0 {
        Some(inst)
    } else {
        match after_successes(inst, nodes.drop_last(), now) {
            Some(before) => match compensation_result(
                before,
                COMPENSATION_PREFIX@ + nodes.last(),
                None,
                now,
            ) {
                Ok((after, todo)) => Some(after),
                Err(refusal) => None,
            },
            None => None,
        }
    }
}

/// Once each planned node has reported success, in whatever order, the rollback
/// has ended and the instance is failed; with one success missing it still runs.
pub proof fn law_rollback_ends_when_all_report(
    inst: InstanceModel,
    results: Seq<Seq<char>>,
    now: Timestamp,
)
    requires
        is_compensating(inst),
        saga_is_consistent(inst.saga->0),
        inst.saga->0.compensated_nodes.len() == 0,
        0 < inst.saga->0.completed_nodes.len(),
        results.no_duplicates(),
        results.len() <= inst.saga->0.completed_nodes.len(),
        forall|i: int|
            0 <= i < results.len() ==> inst.saga->0.completed_nodes.contains(
                #[trigger] results[i],
            ),
    ensures
        after_successes(inst, results, now) is Some,
        ({
            let after = after_successes(inst, results, now)->0;
            &&& after.saga is Some
            &&& after.saga->0.compensated_nodes == results
            &&& after.saga->0.completed_nodes == inst.saga->0.completed_nodes
            &&& results.len() < inst.saga->0.completed_nodes.len() ==> is_compensating(after)
                && after.status == inst.status
            &&& results.len() == inst.saga->0.completed_nodes.len() ==> !is_compensating(after)
                && after.status == InstanceStatus::Failed
        }),
    decreases results.len(),
{
    let planned = inst.saga->0.completed_nodes;
    if results.len() == 0 {
        assert(inst.saga->0.compensated_nodes =~= results);
    } else {
        let earlier = results.drop_last();
        assert forall|i: int| 0 <= i < earlier.len() implies planned.contains(
            #[trigger] earlier[i],
        ) by {
            assert(earlier[i] == results[i]);
        }
        law_rollback_ends_when_all_report(inst, earlier, now);
        let before = after_successes(inst, earlier, now)->0;
        let node = results.last();
        law_compensation_task_names_its_node(node);
        assert(planned.contains(results[results.len() - 1]));
        assert(!earlier.contains(node));
        let next = with_compensated(before, node, now);
        assert(next.saga->0.compensated_nodes =~= results);
    }
}

/// A task that was written is published as those bytes, and one that was not is an
/// error with the cause.
pub proof fn law_tasks_are_published_as_written(
    r: Result<Vec<u8>, OrbflowError>,
    written: Result<Seq<u8>, Seq<char>>,
)
    requires
        is_task_data(r, written),
    ensures
        r is Ok <==> written is Ok,
        r is Ok ==> r->Ok_0@ == written->Ok_0,
        r is Err ==> r->Err_0 is Internal && r->Err_0->Internal_0@ == "marshal compensation task: "@
            + written->Err_0,
{
}

/// Where no failed node is recorded, the errors of a rollback call it unknown.
pub proof fn law_unrecorded_node_is_unknown(
    inst: InstanceModel,
    node: Seq<char>,
    error: Seq<char>,
    now: Timestamp,
)
    requires
        inst.saga is None || inst.saga->0.failed_node is None,
    ensures
        ({
            let (after, todo) = compensation_result(
                inst,
                "_compensate_"@ + node,
                Some(error),
                now,
            )->Ok_0;
            todo[0] == ActionModel::Append(
                EventModel::InstanceFailed {
                    instance_id: inst.id,
                    version: inst.version,
                    error: "node "@ + "unknown"@ + " failed; compensation for node "@ + node
                        + " failed: "@ + error,
                },
            )
        }),
{
    law_compensation_task_names_its_node(node);
}

/// A result of a task whose id does not name a compensation is one of the node with
/// that id.
pub proof fn law_other_task_ids_are_nodes(task_node_id: Seq<char>)
    ensures
        !text::has_prefix(task_node_id, "_compensate_"@) ==> compensated_node(task_node_id)
            == task_node_id,
        text::has_prefix(task_node_id, "_compensate_"@) ==> task_node_id == "_compensate_"@
            + compensated_node(task_node_id),
{
    text::law_prefix_is_what_comes_first(task_node_id, "_compensate_"@, Seq::empty());
}

/// A result that is refused is refused for the first of these: that no rollback
/// runs, that the node is not planned, that it was compensated already.
pub proof fn law_refused_results_say_why(
    inst: InstanceModel,
    task_node_id: Seq<char>,
    now: Timestamp,
)
    requires
        compensation_result(inst, task_node_id, None, now) is Err,
    ensures
        ({
            let why = compensation_result(inst, task_node_id, None, now)->Err_0;
            let runs = inst.saga is Some && inst.saga->0.compensating;
            let node = compensated_node(task_node_id);
            &&& !runs ==> why == "compensation result for node "@ + task_node_id
                + " received without active saga"@
            &&& runs && !inst.saga->0.completed_nodes.contains(node) ==> why
                == "compensation result for node "@ + task_node_id + " was not dispatched"@
            &&& runs && inst.saga->0.completed_nodes.contains(node) ==> why
                == "duplicate compensation result for node "@ + task_node_id
        }),
{
}

/// One more planned node is outstanding exactly where it was not compensated, and
/// comes behind those that were planned before it.
pub proof fn law_outstanding_nodes_keep_their_order(saga: SagaModel, node: Seq<char>)
    ensures
        ({
            let longer = SagaModel { completed_nodes: saga.completed_nodes.push(node), ..saga };
            &&& saga.compensated_nodes.contains(node) ==> pending_nodes(longer) == pending_nodes(
                saga,
            )
            &&& !saga.compensated_nodes.contains(node) ==> pending_nodes(longer) == pending_nodes(
                saga,
            ).push(node)
        }),
        saga.completed_nodes.len() == 0 ==> pending_nodes(saga).len() == 0,
{
    let keep = |n: Seq<char>| !saga.compensated_nodes.contains(n);
    let planned = saga.completed_nodes;
    let longer = planned.push(node);
    lists::lemma_filter_step(longer, keep, planned.len() as int);
    assert(longer.take(planned.len() as int) =~= planned);
    assert(longer.take(longer.len() as int) =~= longer);
    if planned.len() == 0 {
        reveal(Seq::filter);
    }
}

/// The models of actions are theirs, one by one.
pub proof fn law_actions_are_modelled(v: Seq<SagaAction>, i: int)
    requires
        0 <= i < v.len(),
    ensures
        actions(v).len() == v.len(),
        v[i] is Save ==> actions(v)[i] is Save,
        v[i] matches SagaAction::Dispatch { node_id } ==> actions(v)[i] == ActionModel::Dispatch(
            node_id@,
        ),
        v[i] matches SagaAction::Append(
            SagaEvent::CompensationStarted { instance_id, version, failed_node },
        ) ==> actions(v)[i] == ActionModel::Append(
            EventModel::CompensationStarted {
                instance_id: instance_id.0@,
                version,
                failed_node: failed_node@,
            },
        ),
        v[i] matches SagaAction::Append(
            SagaEvent::CompensationCompleted { instance_id, version },
        ) ==> actions(v)[i] == ActionModel::Append(
            EventModel::CompensationCompleted { instance_id: instance_id.0@, version },
        ),
        v[i] matches SagaAction::Append(
            SagaEvent::InstanceFailed { instance_id, version, error },
        ) ==> actions(v)[i] == ActionModel::Append(
            EventModel::InstanceFailed { instance_id: instance_id.0@, version, error: error@ },
        ),
{
}

/// A rollback of which nothing is planned never counts as done, nor does one of which
/// more or fewer results came in than nodes are planned, or one for another node.
pub proof fn law_done_needs_a_plan(saga: SagaModel, i: int)
    ensures
        saga.completed_nodes.len() == 0 ==> !all_compensated(saga),
        saga.completed_nodes.len() != saga.compensated_nodes.len() ==> !all_compensated(saga),
        0 <= i < saga.compensated_nodes.len() && !saga.completed_nodes.contains(
            saga.compensated_nodes[i],
        ) ==> !all_compensated(saga),
{
}

} // verus!
