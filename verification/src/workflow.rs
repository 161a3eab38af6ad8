//! Workflow definitions, as far as triggers and compensation read them.

use crate::json::{JsonMember, JsonValue};
use crate::text;
use crate::trigger::{Trigger, TriggerType};
use vstd::prelude::*;

verus! {

/// Identity of a workflow.
#[derive(Debug)]
pub struct WorkflowId(pub String);

impl WorkflowId {
    /// The id with the given text.
    pub fn new(id: &str) -> (r: WorkflowId)
        ensures
            r.0@ == id@,
    {
        WorkflowId(id.to_owned())
    }
}

/// Whether a definition is in service.
#[derive(Debug, Clone, Copy, PartialEq, Eq, Structural)]
pub enum DefinitionStatus {
    Draft,
    Active,
    Other,
}

/// What a node is for.
#[derive(Debug, Clone, Copy, PartialEq, Eq, Structural)]
pub enum NodeKind {
    Trigger,
    Action,
    Other,
}

/// How a parameter gets its value.
#[derive(Debug, Clone, Copy, PartialEq, Eq, Structural)]
pub enum ParameterMode {
    Static,
    Expression,
}

/// A parameter of a node.
#[derive(Debug)]
pub struct Parameter {
    pub key: String,
    pub mode: ParameterMode,
    pub value: Option<JsonValue>,
    pub expression: Option<String>,
}

/// How a node is compensated in a rollback.
#[derive(Debug)]
pub struct CompensateConfig {
    pub plugin_ref: String,
    pub input_mapping: Option<Vec<JsonMember>>,
}

/// The trigger settings of a trigger-kind node.
#[derive(Debug)]
pub struct NodeTriggerConfig {
    pub trigger_type: TriggerType,
    pub cron: Option<String>,
    pub event_name: Option<String>,
    pub path: Option<String>,
}

/// A node of a workflow.
#[derive(Debug)]
pub struct Node {
    pub id: String,
    pub kind: NodeKind,
    pub config: Option<Vec<JsonMember>>,
    pub parameters: Vec<Parameter>,
    pub compensate: Option<CompensateConfig>,
    pub trigger_config: Option<NodeTriggerConfig>,
}

/// A workflow definition.
#[derive(Debug)]
pub struct Workflow {
    pub id: WorkflowId,
    pub status: DefinitionStatus,
    pub nodes: Vec<Node>,
    /// Deprecated trigger definitions.
    pub triggers: Vec<Trigger>,
}

/// The first node with the id.
pub open spec fn node_with_id(nodes: Seq<Node>, id: Seq<char>) -> Option<Node>
    decreases nodes.len(),
{
    if nodes.len() == 0 {
        None
    } else if nodes[0].id@ == id {
        Some(nodes[0])
    } else {
        node_with_id(nodes.drop_first(), id)
    }
}

/// The node that is found by an id is the one that no node with that id stands
/// before.
pub proof fn law_first_node_is_found(nodes: Seq<Node>, id: Seq<char>, i: int)
    requires
        0 <= i < nodes.len(),
        nodes[i].id@ == id,
        forall|j: int| 0 <= j < i ==> (#[trigger] nodes[j]).id@ != id,
    ensures
        node_with_id(nodes, id) == Some(nodes[i]),
    decreases nodes.len(),
{
    if i > 0 {
        assert(nodes[0].id@ != id);
        let rest = nodes.drop_first();
        assert(rest[i - 1] == nodes[i]);
        assert forall|j: int| 0 <= j < i - 1 implies (#[trigger] rest[j]).id@ != id by {
            assert(nodes[j + 1].id@ != id);
        }
        law_first_node_is_found(rest, id, i - 1);
    }
}

/// No node is found by an id that none has.
pub proof fn law_unknown_node_is_not_found(nodes: Seq<Node>, id: Seq<char>)
    requires
        forall|j: int| 0 <= j < nodes.len() ==> (#[trigger] nodes[j]).id@ != id,
    ensures
        node_with_id(nodes, id) is None,
    decreases nodes.len(),
{
    if nodes.len() > 0 {
        assert(nodes[0].id@ != id);
        let rest = nodes.drop_first();
        assert forall|j: int| 0 <= j < rest.len() implies (#[trigger] rest[j]).id@ != id by {
            assert(nodes[j + 1].id@ != id);
        }
        law_unknown_node_is_not_found(rest, id);
    }
}

impl Workflow {
    /// The first node with the id.
    pub fn node_by_id(&self, id: &str) -> (r: Option<&Node>)
        ensures
            match r {
                Some(node) => node_with_id(self.nodes@, id@) == Some(*node),
                None => node_with_id(self.nodes@, id@) is None,
            },
    {
        let ghost all = self.nodes@;
        let mut i: usize = 0;
        assert(all.skip(0) =~= all);
        while i < self.nodes.len()
            invariant
                i <= self.nodes.len(),
                all == self.nodes@,
                node_with_id(all, id@) == node_with_id(all.skip(i as int), id@),
            decreases self.nodes.len() - i,
        {
            assert(all.skip(i as int)[0] == all[i as int]);
            assert(all.skip(i as int).drop_first() =~= all.skip(i + 1));
            if text::same_text(self.nodes[i].id.as_str(), id) {
                return Some(&self.nodes[i]);
            }
            i += 1;
        }
        None
    }
}

} // verus!
