use orbflow::error::OrbflowError;
use orbflow::json::{JsonMember, JsonValue};
use orbflow::manager::{
    fire_trigger, node_uses_credentials, non_empty_string, scheduler_error, webhook_secret_from_node,
    workflow_uses_credentials, FireStep, Registration, TriggerManager,
};
use orbflow::trigger::{Trigger, TriggerConfig, TriggerType};
use orbflow::workflow::{
    DefinitionStatus, Node, NodeKind, NodeTriggerConfig, Parameter, ParameterMode, Workflow,
    WorkflowId,
};

fn test_node(id: &str) -> Node {
    Node {
        id: id.to_owned(),
        kind: NodeKind::Action,
        config: None,
        parameters: vec![],
        compensate: None,
        trigger_config: None,
    }
}

fn test_workflow(nodes: Vec<Node>) -> Workflow {
    Workflow {
        id: WorkflowId::new("wf-1"),
        status: DefinitionStatus::Active,
        nodes,
        triggers: vec![],
    }
}

fn text_member(key: &str, value: &str) -> JsonMember {
    JsonMember {
        key: key.to_owned(),
        value: JsonValue::Text(value.to_owned()),
    }
}

fn trigger_node(id: &str, trigger_type: TriggerType) -> Node {
    Node {
        kind: NodeKind::Trigger,
        trigger_config: Some(NodeTriggerConfig {
            trigger_type,
            cron: Some("0 * * * *".to_owned()),
            event_name: Some("order.created".to_owned()),
            path: None,
        }),
        ..test_node(id)
    }
}

#[test]
fn workflow_uses_credentials_detects_config_credential_id() {
    let mut node = test_node("n1");
    node.config = Some(vec![text_member("credential_id", "cred-1")]);

    assert!(workflow_uses_credentials(&test_workflow(vec![node])));
}

#[test]
fn workflow_uses_credentials_detects_parameter_credential_id() {
    let mut node = test_node("n1");
    node.parameters = vec![Parameter {
        key: "credential_id".to_owned(),
        mode: ParameterMode::Expression,
        value: None,
        expression: Some("secrets.current".to_owned()),
    }];

    assert!(workflow_uses_credentials(&test_workflow(vec![node])));
}

#[test]
fn workflow_uses_credentials_ignores_secret_fields_without_credential_ref() {
    let mut node = test_node("n1");
    node.config = Some(vec![text_member("webhook_secret", "route-secret")]);

    assert!(!workflow_uses_credentials(&test_workflow(vec![node])));
}

#[test]
fn blank_credential_references_do_not_count() {
    let mut node = test_node("n1");
    node.config = Some(vec![text_member("credential_id", "  ")]);
    node.parameters = vec![Parameter {
        key: "credential_id".to_owned(),
        mode: ParameterMode::Static,
        value: Some(JsonValue::Unsigned(5)),
        expression: Some(" \t".to_owned()),
    }];
    assert!(!node_uses_credentials(&node));
    assert_eq!(
        non_empty_string(&JsonValue::Text("\u{2003}x ".to_owned())).as_deref(),
        Some("x")
    );
}

#[test]
fn webhook_secrets_come_from_config_then_static_parameters() {
    let parameter = |key: &str, mode: ParameterMode, value: &str| Parameter {
        key: key.to_owned(),
        mode,
        value: Some(JsonValue::Text(value.to_owned())),
        expression: None,
    };
    let mut node = test_node("n1");
    node.parameters = vec![
        parameter("secret", ParameterMode::Expression, "dynamic"),
        parameter("other", ParameterMode::Static, "no"),
        parameter("webhook_secret", ParameterMode::Static, " ps "),
    ];
    assert_eq!(webhook_secret_from_node(&node).as_deref(), Some("ps"));
    node.config = Some(vec![
        text_member("signature_secret", "third"),
        text_member("webhook_secret", " second "),
        text_member("secret", ""),
    ]);
    assert_eq!(webhook_secret_from_node(&node).as_deref(), Some("second"));
    assert!(webhook_secret_from_node(&test_node("n")).is_none());
}

#[test]
fn trigger_nodes_are_authoritative() {
    let legacy = || Trigger {
        trigger_type: TriggerType::Schedule,
        config: TriggerConfig {
            cron: Some("@daily".to_owned()),
            event_name: None,
            path: None,
        },
    };
    let mut wf = test_workflow(vec![
        trigger_node("t1", TriggerType::Webhook),
        test_node("n1"),
        trigger_node("t2", TriggerType::Event),
        trigger_node("t3", TriggerType::Manual),
    ]);
    wf.triggers = vec![legacy()];
    let mut manager = TriggerManager::new();
    let made = manager.register_workflow_from_def(&wf);
    assert_eq!(made.len(), 2);
    assert!(matches!(
        &made[0],
        Registration::Webhook { node_id: Some(n), path, secret: None } if n == "t1" && path.is_empty()
    ));
    assert!(matches!(
        &made[1],
        Registration::Event { node_id: Some(n), event_name } if n == "t2" && event_name == "order.created"
    ));
    let mut old = test_workflow(vec![test_node("n1")]);
    old.triggers = vec![legacy()];
    let made = manager.refresh_workflow_from_def(&old);
    assert!(matches!(
        &made[..],
        [Registration::Schedule { node_id: None, cron }] if cron == "@daily"
    ));
    assert_eq!(manager.registered.len(), 1);
}

#[test]
fn empty_expressions_register_nothing() {
    let mut manager = TriggerManager::new();
    let triggers = vec![
        Trigger {
            trigger_type: TriggerType::Schedule,
            config: TriggerConfig {
                cron: Some(String::new()),
                event_name: None,
                path: None,
            },
        },
        Trigger {
            trigger_type: TriggerType::Event,
            config: TriggerConfig::default(),
        },
        Trigger {
            trigger_type: TriggerType::Webhook,
            config: TriggerConfig::default(),
        },
    ];
    let made = manager.register_workflow(&WorkflowId::new("wf-2"), &triggers);
    assert!(matches!(&made[..], [Registration::Webhook { node_id: None, .. }]));
    let id = WorkflowId::new("wf-3");
    assert!(manager.register_trigger(&id, &triggers[0]).is_none());
    assert!(manager
        .register_trigger_node(&id, &trigger_node("t", TriggerType::Schedule))
        .is_some());
    assert_eq!(manager.registered.len(), 2);
}

#[test]
fn refreshing_replaces_and_unregistering_removes() {
    let mut manager = TriggerManager::new();
    let wf = test_workflow(vec![trigger_node("t1", TriggerType::Schedule)]);
    let mut other = test_workflow(vec![trigger_node("t1", TriggerType::Event)]);
    other.id = WorkflowId::new("wf-other");
    manager.start(0, &vec![other]);
    manager.refresh_workflow_from_def(&wf);
    manager.refresh_workflow_from_def(&wf);
    assert_eq!(manager.registered.len(), 2);
    let paused = Workflow {
        status: DefinitionStatus::Draft,
        ..wf
    };
    assert!(manager.refresh_workflow_from_def(&paused).is_empty());
    assert_eq!(manager.registered.len(), 1);
    assert_eq!(manager.registered[0].workflow_id, "wf-other");
    manager.unregister_workflow(&WorkflowId::new("wf-other"));
    assert!(manager.registered.is_empty());
}

#[test]
fn pages_follow_until_one_is_not_full() {
    let workflow = |n: usize| {
        let mut wf = test_workflow(vec![trigger_node("t1", TriggerType::Event)]);
        wf.id = WorkflowId::new(&format!("wf-{n}"));
        if n % 2 == 1 {
            wf.status = DefinitionStatus::Draft;
        }
        wf
    };
    let mut manager = TriggerManager::new();
    let full: Vec<Workflow> = (0..100).map(workflow).collect();
    let step = manager.start(0, &full);
    assert_eq!(step.next_offset, Some(100));
    assert_eq!(step.made.len(), 50);
    assert_eq!(step.made[1].workflow_id, "wf-2");
    let rest: Vec<Workflow> = (100..199).map(workflow).collect();
    assert_eq!(manager.start(100, &rest).next_offset, None);
    assert_eq!(manager.registered.len(), 100);
    assert_eq!(manager.start(0, &vec![]).next_offset, None);
}

#[test]
fn a_scheduler_that_does_not_start_is_named() {
    assert!(matches!(
        scheduler_error("e"),
        OrbflowError::Internal(m) if m == "cron scheduler start: e"
    ));
}

#[test]
fn a_fired_trigger_names_its_type() {
    let wf = test_workflow(vec![]);
    let payload = vec![
        text_member("_trigger_type", "forged"),
        text_member("order", "o-1"),
    ];
    match fire_trigger(Some(&wf), TriggerType::Webhook, &payload) {
        FireStep::Start {
            input,
            credentials_unowned,
        } => {
            assert!(!credentials_unowned);
            assert_eq!(input.len(), 2);
            let get = |key: &str| {
                input
                    .iter()
                    .find(|m| m.key == key)
                    .and_then(|m| m.value.as_str())
                    .unwrap()
            };
            assert_eq!(get("_trigger_type"), "webhook");
            assert_eq!(get("order"), "o-1");
        }
        other => panic!("expected a start, got {other:?}"),
    }
    assert!(matches!(
        fire_trigger(None, TriggerType::Event, &payload),
        FireStep::Abort
    ));
}
