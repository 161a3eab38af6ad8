use orbflow::error::OrbflowError;
use orbflow::execution::{Instance, InstanceId, InstanceStatus, NodeState, NodeStatus};
use orbflow::json::parse_json;
use orbflow::saga::{
    compensation_publication, compensation_task, compensation_task_data,
    compensation_task_node_id, dispatch_compensation,
    handle_compensation_result, resume_compensation, start_compensation, written_task, SagaAction,
    SagaEvent,
};
use orbflow::time::Timestamp;
use orbflow::wire::{ResultMessage, TaskMessage};
use orbflow::workflow::{
    CompensateConfig, DefinitionStatus, Node, NodeKind, Workflow, WorkflowId,
};

const NOW: Timestamp = Timestamp { secs: 7, nanos: 0 };

fn node(id: &str, compensated: bool) -> Node {
    Node {
        id: id.to_owned(),
        kind: NodeKind::Action,
        config: None,
        parameters: vec![],
        compensate: if compensated {
            Some(CompensateConfig {
                plugin_ref: format!("builtin:undo-{id}"),
                input_mapping: None,
            })
        } else {
            None
        },
        trigger_config: None,
    }
}

fn workflow() -> Workflow {
    Workflow {
        id: WorkflowId::new("wf"),
        status: DefinitionStatus::Active,
        nodes: vec![node("a", true), node("b", false), node("c", true), node("d", true)],
        triggers: vec![],
    }
}

fn order() -> Vec<String> {
    ["a", "b", "c", "d"].iter().map(|s| s.to_string()).collect()
}

fn instance(completed: &[&str]) -> Instance {
    Instance {
        id: InstanceId::new("inst-1"),
        status: InstanceStatus::Running,
        node_states: completed
            .iter()
            .map(|id| NodeState {
                node_id: id.to_string(),
                status: NodeStatus::Completed,
            })
            .collect(),
        saga: None,
        version: 3,
        updated_at: Timestamp { secs: 0, nanos: 0 },
    }
}

fn result(node_id: &str, error: Option<&str>) -> ResultMessage {
    ResultMessage {
        result_id: None,
        instance_id: InstanceId::new("inst-1"),
        node_id: node_id.to_owned(),
        attempt: 1,
        dispatch_id: None,
        output: None,
        error: error.map(str::to_owned),
        trace_context: None,
        v: 1,
    }
}

fn dispatched(actions: &[SagaAction]) -> Vec<String> {
    actions
        .iter()
        .filter_map(|a| match a {
            SagaAction::Dispatch { node_id } => Some(node_id.clone()),
            _ => None,
        })
        .collect()
}

fn refusal(r: Result<Vec<SagaAction>, OrbflowError>) -> String {
    match r {
        Err(OrbflowError::Bus(e)) => e,
        other => panic!("expected a refusal, got {other:?}"),
    }
}

#[test]
fn rollback_runs_backwards_over_completed_nodes() {
    let mut inst = instance(&["a", "b", "c"]);
    let actions = start_compensation(&mut inst, &workflow(), &order(), "d", NOW);
    assert!(matches!(
        &actions[0],
        SagaAction::Append(SagaEvent::CompensationStarted { failed_node, version: 3, .. }) if failed_node == "d"
    ));
    // The plan is saved before the first task goes out.
    assert!(matches!(&actions[1], SagaAction::Save));
    assert_eq!(dispatched(&actions), ["c", "a"]);
    let saga = inst.saga.as_ref().unwrap();
    assert!(saga.compensating && saga.compensated_nodes.is_empty());
    assert_eq!(saga.completed_nodes, ["c", "a"]);
}

#[test]
fn rollback_ends_when_all_report() {
    let mut inst = instance(&["a", "b", "c"]);
    start_compensation(&mut inst, &workflow(), &order(), "d", NOW);
    let actions = handle_compensation_result(&mut inst, &result("_compensate_c", None), NOW).unwrap();
    assert!(matches!(&actions[..], [SagaAction::Save]));
    assert_eq!(inst.status, InstanceStatus::Running);
    assert_eq!(
        refusal(handle_compensation_result(&mut inst, &result("_compensate_c", None), NOW)),
        "duplicate compensation result for node _compensate_c"
    );
    assert_eq!(
        refusal(handle_compensation_result(&mut inst, &result("_compensate_b", None), NOW)),
        "compensation result for node _compensate_b was not dispatched"
    );
    assert_eq!(dispatched(&resume_compensation(&mut inst, NOW)), ["a"]);
    let actions = handle_compensation_result(&mut inst, &result("_compensate_a", None), NOW).unwrap();
    assert_eq!(actions.len(), 3);
    assert!(matches!(
        &actions[1],
        SagaAction::Append(SagaEvent::InstanceFailed { error, .. }) if error == "node d failed; compensation completed"
    ));
    assert_eq!(inst.status, InstanceStatus::Failed);
    assert!(!inst.saga.as_ref().unwrap().compensating);
    assert_eq!(
        refusal(handle_compensation_result(&mut inst, &result("_compensate_a", None), NOW)),
        "compensation result for node _compensate_a received without active saga"
    );
}

#[test]
fn a_failed_compensation_ends_the_rollback() {
    let mut inst = instance(&["a", "c"]);
    start_compensation(&mut inst, &workflow(), &order(), "d", NOW);
    let actions =
        handle_compensation_result(&mut inst, &result("_compensate_c", Some("boom")), NOW).unwrap();
    assert!(matches!(
        &actions[..],
        [SagaAction::Append(SagaEvent::InstanceFailed { error, .. }), SagaAction::Save]
            if error == "node d failed; compensation for node c failed: boom"
    ));
    assert_eq!(inst.status, InstanceStatus::Failed);
    assert_eq!(inst.updated_at, NOW);
}

#[test]
fn nothing_to_compensate_ends_at_once() {
    let mut inst = instance(&["b"]);
    let actions = start_compensation(&mut inst, &workflow(), &order(), "c", NOW);
    assert_eq!(actions.len(), 4);
    assert!(matches!(&actions[3], SagaAction::Save));
    assert_eq!(inst.status, InstanceStatus::Failed);
}

#[test]
fn compensation_tasks_name_their_node() {
    assert_eq!(compensation_task_node_id("a"), "_compensate_a");
    let wf = workflow();
    let config = dispatch_compensation(&wf, "a").unwrap();
    assert_eq!(config.plugin_ref, "builtin:undo-a");
    assert!(dispatch_compensation(&wf, "b").is_none());
    assert!(dispatch_compensation(&wf, "zz").is_none());
    let task = compensation_task(&InstanceId::new("inst-1"), "a", &config.plugin_ref, vec![]);
    assert_eq!(task.node_id, "_compensate_a");
    assert_eq!(task.dispatch_id.as_deref(), Some("inst-1:_compensate_a:1"));
    assert_eq!((task.attempt, task.v), (1, 1));
    let data = compensation_task_data(&task).unwrap();
    assert_eq!(
        String::from_utf8(data.clone()).unwrap(),
        [
            r#"{"instance_id":"inst-1","node_id":"_compensate_a","#,
            r#""dispatch_id":"inst-1:_compensate_a:1","plugin_ref":"builtin:undo-a","#,
            r#""input":{},"attempt":1,"v":1}"#,
        ]
        .concat()
    );
    let (subject, published) = compensation_publication("default", &task).unwrap();
    assert_eq!((subject.as_str(), &published), ("orbflow.tasks.default", &data));
    let read = TaskMessage::from_json(&parse_json(&data).unwrap()).unwrap();
    assert_eq!(read.node_id, "_compensate_a");
    assert!(matches!(
        written_task(Err("e".into())),
        Err(OrbflowError::Internal(e)) if e == "marshal compensation task: e"
    ));
}
