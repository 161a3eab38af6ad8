//! Workflow instances: identity, status and saga state.

use crate::text;
use crate::time::Timestamp;
use vstd::prelude::*;

verus! {

/// Identity of a workflow instance.
#[derive(Debug)]
pub struct InstanceId(pub String);

impl InstanceId {
    /// The id with the given text.
    pub fn new(id: &str) -> (r: InstanceId)
        ensures
            r.0@ == id@,
    {
        InstanceId(id.to_owned())
    }

    /// The same id once more.
    pub fn copy(&self) -> (r: InstanceId)
        ensures
            r.0@ == self.0@,
    {
        InstanceId(self.0.clone())
    }

    /// Whether both ids have the same text.
    pub fn same(&self, other: &InstanceId) -> (r: bool)
        ensures
            r == (self.0@ == other.0@),
    {
        text::same_text(self.0.as_str(), other.0.as_str())
    }
}

/// Where an instance stands.
#[derive(Debug, Clone, Copy, PartialEq, Eq, Structural)]
pub enum InstanceStatus {
    Running,
    Completed,
    Failed,
    Cancelled,
}

/// Where a node of an instance stands. Compensation asks only whether it completed.
#[derive(Debug, Clone, Copy, PartialEq, Eq, Structural)]
pub enum NodeStatus {
    Queued,
    Completed,
    Other,
}

/// The state of one node of an instance.
#[derive(Debug)]
pub struct NodeState {
    pub node_id: String,
    pub status: NodeStatus,
}

/// Progress of a saga rollback.
#[derive(Debug)]
pub struct SagaState {
    /// Compensation tasks are outstanding.
    pub compensating: bool,
    /// The node whose failure started the rollback.
    pub failed_node: Option<String>,
    /// The nodes to compensate, in the order in which their tasks are dispatched.
    pub completed_nodes: Vec<String>,
    /// The nodes whose compensation succeeded, in the order of their results.
    pub compensated_nodes: Vec<String>,
}

/// What compensation reads and writes of a workflow instance.
#[derive(Debug)]
pub struct Instance {
    pub id: InstanceId,
    pub status: InstanceStatus,
    pub node_states: Vec<NodeState>,
    pub saga: Option<SagaState>,
    pub version: i64,
    pub updated_at: Timestamp,
}

/// The model of [`SagaState`].
pub struct SagaModel {
    pub compensating: bool,
    pub failed_node: Option<Seq<char>>,
    pub completed_nodes: Seq<Seq<char>>,
    pub compensated_nodes: Seq<Seq<char>>,
}

/// The model of [`Instance`].
pub struct InstanceModel {
    pub id: Seq<char>,
    pub status: InstanceStatus,
    pub node_states: Seq<(Seq<char>, NodeStatus)>,
    pub saga: Option<SagaModel>,
    pub version: i64,
    pub updated_at: Timestamp,
}

impl View for SagaState {
    type V = SagaModel;

    open spec fn view(&self) -> SagaModel {
        SagaModel {
            compensating: self.compensating,
            failed_node: text::opt_text(self.failed_node),
            completed_nodes: text::texts(self.completed_nodes@),
            compensated_nodes: text::texts(self.compensated_nodes@),
        }
    }
}

impl View for Instance {
    type V = InstanceModel;

    open spec fn view(&self) -> InstanceModel {
        InstanceModel {
            id: self.id.0@,
            status: self.status,
            node_states: Seq::new(
                self.node_states@.len(),
                |i: int| (self.node_states@[i].node_id@, self.node_states@[i].status),
            ),
            saga: match self.saga {
                Some(s) => Some(s@),
                None => None,
            },
            version: self.version,
            updated_at: self.updated_at,
        }
    }
}

/// The model of an instance holds each of its parts, its node states one by one.
pub proof fn law_instances_are_modelled(inst: Instance, saga: SagaState)
    ensures
        inst@.id == inst.id.0@,
        inst@.status == inst.status,
        inst@.version == inst.version,
        inst@.updated_at == inst.updated_at,
        inst@.node_states.len() == inst.node_states@.len(),
        forall|i: int|
            0 <= i < inst.node_states@.len() ==> (#[trigger] inst@.node_states[i]).0
                == inst.node_states@[i].node_id@ && inst@.node_states[i].1
                == inst.node_states@[i].status,
        inst.saga is Some ==> inst@.saga == Some(inst.saga->0@),
        inst.saga is None ==> inst@.saga is None,
        saga@.compensating == saga.compensating,
        saga@.failed_node == text::opt_text(saga.failed_node),
        saga@.completed_nodes == text::texts(saga.completed_nodes@),
        saga@.compensated_nodes == text::texts(saga.compensated_nodes@),
{
}

} // verus!
