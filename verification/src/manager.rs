//! Trigger manager: what the cron, event and webhook triggers of a workflow
//! register, and what a fired trigger starts.

use crate::error::OrbflowError;
use crate::json;
use crate::json::{JsonMember, JsonValue};
use crate::lists;
use crate::named;
use crate::text;
use crate::trigger::{Trigger, TriggerType};
use crate::workflow::{
    DefinitionStatus, Node, NodeKind, Parameter, ParameterMode, Workflow, WorkflowId,
};
use vstd::prelude::*;

verus! {

/// What is registered for a workflow. A registration made by a trigger node
/// carries the node's id.
#[derive(Debug)]
pub enum Registration {
    /// A schedule with this cron expression.
    Schedule { node_id: Option<String>, cron: String },
    /// A subscription to the event with this name.
    Event { node_id: Option<String>, event_name: String },
    /// A webhook route, with the secret that its calls are signed with.
    Webhook { node_id: Option<String>, path: String, secret: Option<String> },
}

/// The model of a registration.
#[allow(inconsistent_fields)]
pub enum RegistrationModel {
    Schedule { node_id: Option<Seq<char>>, cron: Seq<char> },
    Event { node_id: Option<Seq<char>>, event_name: Seq<char> },
    Webhook { node_id: Option<Seq<char>>, path: Seq<char>, secret: Option<Seq<char>> },
}

impl View for Registration {
    type V = RegistrationModel;

    open spec fn view(&self) -> RegistrationModel {
        match *self {
            Registration::Schedule { node_id, cron } => RegistrationModel::Schedule {
                node_id: text::opt_text(node_id),
                cron: cron@,
            },
            Registration::Event { node_id, event_name } => RegistrationModel::Event {
                node_id: text::opt_text(node_id),
                event_name: event_name@,
            },
            Registration::Webhook { node_id, path, secret } => RegistrationModel::Webhook {
                node_id: text::opt_text(node_id),
                path: path@,
                secret: text::opt_text(secret),
            },
        }
    }
}

/// The models of a list of registrations.
pub open spec fn registrations(v: Seq<Registration>) -> Seq<RegistrationModel> {
    v.map_values(|r: Registration| r@)
}

/// `r` models the registration that is expected, if any is.
pub open spec fn is_registration(
    r: Option<Registration>,
    expected: Option<RegistrationModel>,
) -> bool {
    match r {
        Some(given) => expected == Some(given@),
        None => expected is None,
    }
}

/// The trimmed text of a JSON string; nothing where that is blank or no string.
pub open spec fn non_empty_text(value: json::Json) -> Option<Seq<char>> {
    match value {
        json::Json::Text(s) => if text::trimmed(s).len() > 0 {
            Some(text::trimmed(s))
        } else {
            None
        },
        _ => None,
    }
}

/// The trimmed text of a JSON string; nothing where that is blank or no string.
pub fn non_empty_string(value: &JsonValue) -> (r: Option<String>)
    ensures
        text::opt_text(r) == non_empty_text(value@),
{
    match value.as_str() {
        Some(s) => {
            let s = text::trim(s);
            if s.as_str().is_empty() {
                None
            } else {
                Some(s)
            }
        },
        None => None,
    }
}

/// The non-blank text that a configuration holds under the key.
pub open spec fn config_text(config: Option<Vec<JsonMember>>, key: Seq<char>) -> Option<
    Seq<char>,
> {
    match config {
        Some(members) => match json::member(json::members_view(members@), key) {
            Some(value) => non_empty_text(value),
            None => None,
        },
        None => None,
    }
}

fn config_string(config: &Option<Vec<JsonMember>>, key: &str) -> (r: Option<String>)
    ensures
        text::opt_text(r) == config_text(*config, key@),
{
    match config {
        Some(members) => match json::find_member(members, key) {
            Some(value) => non_empty_string(value),
            None => None,
        },
        None => None,
    }
}

/// The non-blank text of a parameter's value.
pub open spec fn parameter_text(param: Parameter) -> Option<Seq<char>> {
    match param.value {
        Some(value) => non_empty_text(value@),
        None => None,
    }
}

fn parameter_string(param: &Parameter) -> (r: Option<String>)
    ensures
        text::opt_text(r) == parameter_text(*param),
{
    match &param.value {
        Some(value) => non_empty_string(value),
        None => None,
    }
}

/// A key under which a webhook node may hold its secret.
pub open spec fn is_secret_key(key: Seq<char>) -> bool {
    key == "secret"@ || key == "webhook_secret"@ || key == "signature_secret"@
}

/// The secret in a node's configuration: that under the first of the secret keys
/// that has one.
pub open spec fn config_secret(node: Node) -> Option<Seq<char>> {
    if config_text(node.config, "secret"@) is Some {
        config_text(node.config, "secret"@)
    } else if config_text(node.config, "webhook_secret"@) is Some {
        config_text(node.config, "webhook_secret"@)
    } else {
        config_text(node.config, "signature_secret"@)
    }
}

/// The secret among a node's parameters: that of the first static parameter under
/// a secret key that has one.
pub open spec fn parameter_secret(params: Seq<Parameter>) -> Option<Seq<char>>
    decreases params.len(),
{
    if params.len() == 0 {
        None
    } else if params[0].mode == ParameterMode::Static && is_secret_key(params[0].key@)
        && parameter_text(params[0]) is Some {
        parameter_text(params[0])
    } else {
        parameter_secret(params.drop_first())
    }
}

/// The secret of a webhook node: that of its configuration, else that of its
/// parameters.
pub open spec fn webhook_secret(node: Node) -> Option<Seq<char>> {
    match config_secret(node) {
        Some(secret) => Some(secret),
        None => parameter_secret(node.parameters@),
    }
}

fn secret_key(key: &str) -> (r: bool)
    ensures
        r == is_secret_key(key@),
{
    text::same_text(key, "secret") || text::same_text(key, "webhook_secret") || text::same_text(
        key,
        "signature_secret",
    )
}

/// The secret of a webhook node.
pub fn webhook_secret_from_node(node: &Node) -> (r: Option<String>)
    ensures
        text::opt_text(r) == webhook_secret(*node),
{
    if let Some(secret) = config_string(&node.config, "secret") {
        return Some(secret);
    }
    if let Some(secret) = config_string(&node.config, "webhook_secret") {
        return Some(secret);
    }
    if let Some(secret) = config_string(&node.config, "signature_secret") {
        return Some(secret);
    }
    let ghost all = node.parameters@;
    let mut i: usize = 0;
    assert(all.skip(0) =~= all);
    while i < node.parameters.len()
        invariant
            i <= node.parameters.len(),
            all == node.parameters@,
            config_secret(*node) is None,
            parameter_secret(all) == parameter_secret(all.skip(i as int)),
        decreases node.parameters.len() - i,
    {
        assert(all.skip(i as int)[0] == all[i as int]);
        assert(all.skip(i as int).drop_first() =~= all.skip(i + 1));
        let param = &node.parameters[i];
        if param.mode == ParameterMode::Static && secret_key(param.key.as_str()) {
            if let Some(secret) = parameter_string(param) {
                return Some(secret);
            }
        }
        i += 1;
    }
    None
}

/// The parameter refers to a credential.
pub open spec fn is_credential_parameter(param: Parameter) -> bool {
    &&& param.key@ == "credential_id"@
    &&& parameter_text(param) is Some || (param.expression matches Some(expr) && text::trimmed(
        expr@,
    ).len() > 0)
}

/// The node refers to a credential, in its configuration or in a parameter.
pub open spec fn refers_to_credential(node: Node) -> bool {
    ||| config_text(node.config, "credential_id"@) is Some
    ||| exists|i: int|
        0 <= i < node.parameters@.len() && is_credential_parameter(#[trigger] node.parameters@[i])
}

fn credential_parameter(param: &Parameter) -> (r: bool)
    ensures
        r == is_credential_parameter(*param),
{
    if !text::same_text(param.key.as_str(), "credential_id") {
        return false;
    }
    if parameter_string(param).is_some() {
        return true;
    }
    match &param.expression {
        Some(expr) => !text::trim(expr.as_str()).as_str().is_empty(),
        None => false,
    }
}

/// Whether the node refers to a credential.
pub fn node_uses_credentials(node: &Node) -> (r: bool)
    ensures
        r == refers_to_credential(*node),
{
    if config_string(&node.config, "credential_id").is_some() {
        return true;
    }
    let mut i: usize = 0;
    while i < node.parameters.len()
        invariant
            i <= node.parameters.len(),
            forall|j: int| 0 <= j < i ==> !is_credential_parameter(#[trigger] node.parameters@[j]),
        decreases node.parameters.len() - i,
    {
        if credential_parameter(&node.parameters[i]) {
            assert(is_credential_parameter(node.parameters@[i as int]));
            return true;
        }
        i += 1;
    }
    false
}

/// Whether a node of the workflow refers to a credential.
pub fn workflow_uses_credentials(wf: &Workflow) -> (r: bool)
    ensures
        r == (exists|i: int|
            0 <= i < wf.nodes@.len() && refers_to_credential(#[trigger] wf.nodes@[i])),
{
    let mut i: usize = 0;
    while i < wf.nodes.len()
        invariant
            i <= wf.nodes.len(),
            forall|j: int| 0 <= j < i ==> !refers_to_credential(#[trigger] wf.nodes@[j]),
        decreases wf.nodes.len() - i,
    {
        if node_uses_credentials(&wf.nodes[i]) {
            assert(refers_to_credential(wf.nodes@[i as int]));
            return true;
        }
        i += 1;
    }
    false
}

/// What a trigger with these settings registers: a schedule or a subscription
/// where its cron expression or event name is not empty; a webhook in any case,
/// at an empty path where none is set; a manual trigger nothing, for those are
/// started via the API.
pub open spec fn registration_of(
    trigger_type: TriggerType,
    node_id: Option<Seq<char>>,
    cron: Option<Seq<char>>,
    event_name: Option<Seq<char>>,
    path: Option<Seq<char>>,
    secret: Option<Seq<char>>,
) -> Option<RegistrationModel> {
    match trigger_type {
        TriggerType::Schedule => match cron {
            Some(expr) => if expr.len() > 0 {
                Some(RegistrationModel::Schedule { node_id, cron: expr })
            } else {
                None
            },
            None => None,
        },
        TriggerType::Event => match event_name {
            Some(name) => if name.len() > 0 {
                Some(RegistrationModel::Event { node_id, event_name: name })
            } else {
                None
            },
            None => None,
        },
        TriggerType::Webhook => Some(
            RegistrationModel::Webhook {
                node_id,
                path: match path {
                    Some(p) => p,
                    None => Seq::empty(),
                },
                secret,
            },
        ),
        TriggerType::Manual => None,
    }
}

fn registration(
    trigger_type: TriggerType,
    node_id: Option<String>,
    cron: &Option<String>,
    event_name: &Option<String>,
    path: &Option<String>,
    secret: Option<String>,
) -> (r: Option<Registration>)
    ensures
        is_registration(
            r,
            registration_of(
                trigger_type,
                text::opt_text(node_id),
                text::opt_text(*cron),
                text::opt_text(*event_name),
                text::opt_text(*path),
                text::opt_text(secret),
            ),
        ),
{
    match trigger_type {
        TriggerType::Schedule => match cron {
            Some(expr) => if !expr.as_str().is_empty() {
                Some(Registration::Schedule { node_id, cron: expr.clone() })
            } else {
                None
            },
            None => None,
        },
        TriggerType::Event => match event_name {
            Some(name) => if !name.as_str().is_empty() {
                Some(Registration::Event { node_id, event_name: name.clone() })
            } else {
                None
            },
            None => None,
        },
        TriggerType::Webhook => {
            let path = match path {
                Some(p) => p.clone(),
                None => String::new(),
            };
            Some(Registration::Webhook { node_id, path, secret })
        },
        TriggerType::Manual => None,
    }
}

/// What a node registers.
pub open spec fn node_registration(node: Node) -> Option<RegistrationModel> {
    match node.trigger_config {
        Some(tc) => registration_of(
            tc.trigger_type,
            Some(node.id@),
            text::opt_text(tc.cron),
            text::opt_text(tc.event_name),
            text::opt_text(tc.path),
            webhook_secret(node),
        ),
        None => None,
    }
}

/// What a trigger node registers: nothing without trigger settings; else what its
/// settings say, under the node's id and with the node's secret.
fn node_registers(node: &Node) -> (r: Option<Registration>)
    ensures
        is_registration(r, node_registration(*node)),
{
    match &node.trigger_config {
        Some(tc) => {
            let secret = webhook_secret_from_node(node);
            registration(
                tc.trigger_type,
                Some(node.id.clone()),
                &tc.cron,
                &tc.event_name,
                &tc.path,
                secret,
            )
        },
        None => None,
    }
}

/// What a trigger definition registers.
pub open spec fn trigger_registration(t: Trigger) -> Option<RegistrationModel> {
    registration_of(
        t.trigger_type,
        None,
        text::opt_text(t.config.cron),
        text::opt_text(t.config.event_name),
        text::opt_text(t.config.path),
        None,
    )
}

/// What a single trigger definition registers: what its settings say, for no node
/// and without a secret.
fn trigger_registers(trigger: &Trigger) -> (r: Option<Registration>)
    ensures
        is_registration(r, trigger_registration(*trigger)),
{
    registration(
        trigger.trigger_type,
        None,
        &trigger.config.cron,
        &trigger.config.event_name,
        &trigger.config.path,
        None,
    )
}

/// What the trigger definitions register, in their order.
pub open spec fn trigger_registrations(triggers: Seq<Trigger>) -> Seq<RegistrationModel>
    decreases triggers.len(),
{
    if triggers.len() == 0 {
        Seq::empty()
    } else {
        let before = trigger_registrations(triggers.drop_last());
        match trigger_registration(triggers.last()) {
            Some(r) => before.push(r),
            None => before,
        }
    }
}

/// What the trigger nodes among the nodes register, in their order.
pub open spec fn node_registrations(nodes: Seq<Node>) -> Seq<RegistrationModel>
    decreases nodes.len(),
{
    if nodes.len() == 0 {
        Seq::empty()
    } else {
        let before = node_registrations(nodes.drop_last());
        match node_registration(nodes.last()) {
            Some(r) => if nodes.last().kind == NodeKind::Trigger {
                before.push(r)
            } else {
                before
            },
            None => before,
        }
    }
}

/// A node of the workflow is a trigger node.
pub open spec fn has_trigger_node(nodes: Seq<Node>) -> bool {
    exists|i: int| 0 <= i < nodes.len() && (#[trigger] nodes[i]).kind == NodeKind::Trigger
}

/// What a workflow registers: what its trigger nodes say, or, where it has no
/// trigger node, what its deprecated trigger definitions say.
pub open spec fn workflow_registrations(wf: Workflow) -> Seq<RegistrationModel> {
    if has_trigger_node(wf.nodes@) {
        node_registrations(wf.nodes@)
    } else {
        trigger_registrations(wf.triggers@)
    }
}

/// What explicit trigger definitions register.
fn triggers_register(triggers: &Vec<Trigger>) -> (r: Vec<Registration>)
    ensures
        registrations(r@) == trigger_registrations(triggers@),
{
    let mut out: Vec<Registration> = Vec::new();
    let ghost all = triggers@;
    let mut i: usize = 0;
    assert(registrations(out@) =~= trigger_registrations(all.take(0)));
    while i < triggers.len()
        invariant
            i <= triggers.len(),
            all == triggers@,
            registrations(out@) == trigger_registrations(all.take(i as int)),
        decreases triggers.len() - i,
    {
        assert(all.take(i + 1).drop_last() =~= all.take(i as int));
        let ghost before = out@;
        if let Some(r) = trigger_registers(&triggers[i]) {
            out.push(r);
            assert(registrations(out@) =~= registrations(before).push(r@));
        }
        i += 1;
    }
    assert(all.take(all.len() as int) =~= all);
    out
}

/// What a workflow registers.
fn workflow_registers(wf: &Workflow) -> (r: Vec<Registration>)
    ensures
        registrations(r@) == workflow_registrations(*wf),
{
    let mut out: Vec<Registration> = Vec::new();
    let mut found = false;
    let ghost all = wf.nodes@;
    let mut i: usize = 0;
    assert(registrations(out@) =~= node_registrations(all.take(0)));
    while i < wf.nodes.len()
        invariant
            i <= wf.nodes.len(),
            all == wf.nodes@,
            registrations(out@) == node_registrations(all.take(i as int)),
            found ==> has_trigger_node(all),
            !found ==> forall|j: int| 0 <= j < i ==> (#[trigger] all[j]).kind != NodeKind::Trigger,
        decreases wf.nodes.len() - i,
    {
        assert(all.take(i + 1).drop_last() =~= all.take(i as int));
        let ghost before = out@;
        let node = &wf.nodes[i];
        if node.kind == NodeKind::Trigger {
            assert(all[i as int].kind == NodeKind::Trigger);
            found = true;
            if let Some(r) = node_registers(node) {
                out.push(r);
                assert(registrations(out@) =~= registrations(before).push(r@));
            }
        }
        i += 1;
    }
    assert(all.take(all.len() as int) =~= all);
    if found {
        return out;
    }
    triggers_register(&wf.triggers)
}

/// What a workflow registers while it is active; nothing while it is not.
pub open spec fn active_registrations(wf: Workflow) -> Seq<RegistrationModel> {
    if wf.status == DefinitionStatus::Active {
        workflow_registrations(wf)
    } else {
        Seq::empty()
    }
}

impl Registration {
    /// A registration of the same.
    pub fn copy(&self) -> (r: Registration)
        ensures
            r@ == self@,
    {
        match self {
            Registration::Schedule { node_id, cron } => Registration::Schedule {
                node_id: text::copy_opt(node_id),
                cron: cron.clone(),
            },
            Registration::Event { node_id, event_name } => Registration::Event {
                node_id: text::copy_opt(node_id),
                event_name: event_name.clone(),
            },
            Registration::Webhook { node_id, path, secret } => Registration::Webhook {
                node_id: text::copy_opt(node_id),
                path: path.clone(),
                secret: text::copy_opt(secret),
            },
        }
    }
}

/// A registration that was made, and the workflow that it starts.
#[derive(Debug)]
pub struct Registered {
    pub workflow_id: String,
    pub registration: Registration,
}

/// Coordinates all trigger types: the registrations that were made and not
/// removed, in their order.
#[derive(Debug)]
pub struct TriggerManager {
    pub registered: Vec<Registered>,
}

impl View for TriggerManager {
    type V = Seq<(Seq<char>, RegistrationModel)>;

    open spec fn view(&self) -> Seq<(Seq<char>, RegistrationModel)> {
        registered_models(self.registered@)
    }
}

/// The models of registrations that were made, each with its workflow.
pub open spec fn registered_models(v: Seq<Registered>) -> Seq<(Seq<char>, RegistrationModel)> {
    v.map_values(|r: Registered| (r.workflow_id@, r.registration@))
}

/// Registrations, each with the workflow that it starts.
pub open spec fn made_for(workflow_id: Seq<char>, made: Seq<RegistrationModel>) -> Seq<
    (Seq<char>, RegistrationModel),
> {
    made.map_values(|r: RegistrationModel| (workflow_id, r))
}

/// The registrations but for those of a workflow.
pub open spec fn without(
    registered: Seq<(Seq<char>, RegistrationModel)>,
    workflow_id: Seq<char>,
) -> Seq<(Seq<char>, RegistrationModel)> {
    registered.filter(|r: (Seq<char>, RegistrationModel)| r.0 != workflow_id)
}

/// Workflows per page that is loaded at startup.
pub const PAGE_SIZE: i64 = 100;

/// What a page of workflows leads to.
#[derive(Debug)]
pub struct PageStep {
    /// What was registered.
    pub made: Vec<Registered>,
    /// The offset of the page to be loaded next; none after the last.
    pub next_offset: Option<i64>,
}

/// The offset of the page after one of `count` workflows at `offset`; none after
/// a page that is not full, which is the last.
pub open spec fn next_offset(offset: i64, count: nat) -> Option<i64> {
    if count < PAGE_SIZE {
        None
    } else {
        Some((offset + PAGE_SIZE) as i64)
    }
}

/// What the active ones among the workflows register, in their order.
pub open spec fn page_registrations(page: Seq<Workflow>) -> Seq<(Seq<char>, RegistrationModel)>
    decreases page.len(),
{
    if page.len() == 0 {
        Seq::empty()
    } else {
        page_registrations(page.drop_last()) + made_for(
            page.last().id.0@,
            active_registrations(page.last()),
        )
    }
}

fn record_made(out: &mut Vec<Registered>, workflow_id: &str, made: &Vec<Registration>)
    ensures
        registered_models(final(out)@) == registered_models(old(out)@) + made_for(
            workflow_id@,
            registrations(made@),
        ),
{
    let ghost before = registered_models(out@);
    let ghost all = made_for(workflow_id@, registrations(made@));
    let mut i: usize = 0;
    assert(before =~= before + all.take(0));
    while i < made.len()
        invariant
            i <= made.len(),
            all == made_for(workflow_id@, registrations(made@)),
            registered_models(out@) == before + all.take(i as int),
        decreases made.len() - i,
    {
        let ghost then = registered_models(out@);
        out.push(Registered { workflow_id: workflow_id.to_owned(), registration: made[i].copy() });
        assert(registered_models(out@) =~= then.push((workflow_id@, made@[i as int]@)));
        assert(all.take(i + 1) =~= all.take(i as int).push(all[i as int]));
        assert(then.push(all[i as int]) =~= before + all.take(i as int).push(all[i as int]));
        i += 1;
    }
    assert(all.take(all.len() as int) =~= all);
}

impl TriggerManager {
    /// A manager with nothing registered.
    pub fn new() -> (r: TriggerManager)
        ensures
            r@.len() == 0,
    {
        TriggerManager { registered: Vec::new() }
    }

    fn record(&mut self, workflow_id: &str, made: &Vec<Registration>)
        ensures
            final(self)@ == old(self)@ + made_for(workflow_id@, registrations(made@)),
    {
        record_made(&mut self.registered, workflow_id, made);
    }

    /// Registers triggers for a workflow by examining its trigger-kind nodes, and
    /// returns what it registered.
    ///
    /// Trigger-kind nodes are authoritative. Legacy trigger definitions are used
    /// only when a workflow has no trigger nodes.
    pub fn register_workflow_triggers(&mut self, wf: &Workflow) -> (r: Vec<Registration>)
        ensures
            registrations(r@) == workflow_registrations(*wf),
            final(self)@ == old(self)@ + made_for(wf.id.0@, workflow_registrations(*wf)),
    {
        let made = workflow_registers(wf);
        self.record(wf.id.0.as_str(), &made);
        made
    }

    /// Registers what a trigger node asks for, and returns it.
    pub fn register_trigger_node(&mut self, wf_id: &WorkflowId, node: &Node) -> (r: Option<
        Registration,
    >)
        ensures
            is_registration(r, node_registration(*node)),
            final(self)@ == match node_registration(*node) {
                Some(made) => old(self)@.push((wf_id.0@, made)),
                None => old(self)@,
            },
            node.trigger_config is Some && node.trigger_config->0.trigger_type
                == TriggerType::Webhook ==> (r matches Some(Registration::Webhook {
                node_id,
                path,
                secret,
            }) && node_id is Some && node_id->0@ == node.id@ && (node.trigger_config->0.path is Some
                ==> path@ == node.trigger_config->0.path->0@)),
    {
        match node_registers(node) {
            Some(made) => {
                self.registered.push(
                    Registered { workflow_id: wf_id.0.clone(), registration: made.copy() },
                );
                assert(self@ =~= old(self)@.push((wf_id.0@, made@)));
                Some(made)
            },
            None => None,
        }
    }

    /// Registers what a single trigger definition asks for, and returns it.
    pub fn register_trigger(&mut self, wf_id: &WorkflowId, trigger: &Trigger) -> (r: Option<
        Registration,
    >)
        ensures
            is_registration(r, trigger_registration(*trigger)),
            final(self)@ == match trigger_registration(*trigger) {
                Some(made) => old(self)@.push((wf_id.0@, made)),
                None => old(self)@,
            },
            trigger.trigger_type == TriggerType::Webhook ==> (r matches Some(
                Registration::Webhook { node_id, path, secret },
            ) && (trigger.config.path is Some ==> path@ == trigger.config.path->0@)),
    {
        match trigger_registers(trigger) {
            Some(made) => {
                self.registered.push(
                    Registered { workflow_id: wf_id.0.clone(), registration: made.copy() },
                );
                assert(self@ =~= old(self)@.push((wf_id.0@, made@)));
                Some(made)
            },
            None => None,
        }
    }

    /// Registers triggers for a workflow from its definition, and returns what it
    /// registered.
    pub fn register_workflow_from_def(&mut self, wf: &Workflow) -> (r: Vec<Registration>)
        ensures
            registrations(r@) == workflow_registrations(*wf),
            final(self)@ == old(self)@ + made_for(wf.id.0@, workflow_registrations(*wf)),
    {
        self.register_workflow_triggers(wf)
    }

    /// Registers explicit trigger definitions for a workflow, and returns what it
    /// registered.
    pub fn register_workflow(&mut self, wf_id: &WorkflowId, triggers: &Vec<Trigger>) -> (r: Vec<
        Registration,
    >)
        ensures
            registrations(r@) == trigger_registrations(triggers@),
            final(self)@ == old(self)@ + made_for(wf_id.0@, trigger_registrations(triggers@)),
    {
        let made = triggers_register(triggers);
        self.record(wf_id.0.as_str(), &made);
        made
    }

    /// Registers a workflow while it is active, and returns what it registered.
    fn register_active(&mut self, wf: &Workflow) -> (r: Vec<Registration>)
        ensures
            registrations(r@) == active_registrations(*wf),
            final(self)@ == old(self)@ + made_for(wf.id.0@, active_registrations(*wf)),
    {
        if wf.status == DefinitionStatus::Active {
            self.register_workflow_triggers(wf)
        } else {
            let made: Vec<Registration> = Vec::new();
            assert(registrations(made@) =~= Seq::<RegistrationModel>::empty());
            assert(self@ =~= old(self)@ + made_for(wf.id.0@, Seq::empty()));
            made
        }
    }

    /// Takes a page of workflows that is loaded at startup: registers the triggers
    /// of the active ones, and says which page is to be loaded next.
    pub fn start(&mut self, offset: i64, page: &Vec<Workflow>) -> (r: PageStep)
        requires
            offset + PAGE_SIZE <= i64::MAX,
        ensures
            registered_models(r.made@) == page_registrations(page@),
            final(self)@ == old(self)@ + page_registrations(page@),
            r.next_offset == next_offset(offset, page@.len()),
    {
        let ghost before = self@;
        let mut made: Vec<Registered> = Vec::new();
        let mut i: usize = 0;
        assert(page@.take(0) =~= Seq::<Workflow>::empty());
        assert(registered_models(made@) =~= page_registrations(page@.take(0)));
        assert(self@ =~= before + page_registrations(page@.take(0)));
        while i < page.len()
            invariant
                i <= page.len(),
                registered_models(made@) == page_registrations(page@.take(i as int)),
                self@ == before + page_registrations(page@.take(i as int)),
            decreases page.len() - i,
        {
            let wf = &page[i];
            let ghost so_far = page_registrations(page@.take(i as int));
            let ghost added = made_for(wf.id.0@, active_registrations(*wf));
            assert(page@.take(i + 1).drop_last() =~= page@.take(i as int));
            let of_workflow = self.register_active(wf);
            assert(self@ =~= before + (so_far + added));
            record_made(&mut made, wf.id.0.as_str(), &of_workflow);
            i += 1;
        }
        assert(page@.take(page@.len() as int) =~= page@);
        let next_offset = if page.len() < 100 {
            None
        } else {
            Some(offset + PAGE_SIZE)
        };
        PageStep { made, next_offset }
    }

    /// Removes all triggers for a workflow.
    pub fn unregister_workflow(&mut self, wf_id: &WorkflowId)
        ensures
            final(self)@ == without(old(self)@, wf_id.0@),
    {
        let ghost all = self@;
        let ghost kept = |r: (Seq<char>, RegistrationModel)| r.0 != wf_id.0@;
        let mut rest: TriggerManager = TriggerManager { registered: Vec::new() };
        let mut i: usize = 0;
        proof {
            lists::lemma_filter_start(all, kept);
            assert(rest@ =~= all.take(0).filter(kept));
        }
        while i < self.registered.len()
            invariant
                i <= self.registered.len(),
                self@ == all,
                kept == (|r: (Seq<char>, RegistrationModel)| r.0 != wf_id.0@),
                rest@ == all.take(i as int).filter(kept),
            decreases self.registered.len() - i,
        {
            let ghost shown = rest@;
            proof {
                lists::lemma_filter_step(all, kept, i as int);
            }
            let entry = &self.registered[i];
            if !text::same_text(entry.workflow_id.as_str(), wf_id.0.as_str()) {
                rest.registered.push(
                    Registered {
                        workflow_id: entry.workflow_id.clone(),
                        registration: entry.registration.copy(),
                    },
                );
                assert(rest@ =~= shown.push(all[i as int]));
            }
            i += 1;
        }
        assert(all.take(all.len() as int) =~= all);
        self.registered = rest.registered;
    }

    /// Replaces all registered triggers for a workflow with the workflow's current
    /// active definition, and returns what it registered.
    pub fn refresh_workflow_from_def(&mut self, wf: &Workflow) -> (r: Vec<Registration>)
        ensures
            registrations(r@) == active_registrations(*wf),
            final(self)@ == without(old(self)@, wf.id.0@) + made_for(
                wf.id.0@,
                active_registrations(*wf),
            ),
    {
        self.unregister_workflow(&wf.id);
        self.register_active(wf)
    }
}

/// The error where the scheduler does not start, for this cause.
pub fn scheduler_error(cause: &str) -> (r: OrbflowError)
    ensures
        r matches OrbflowError::Internal(e) && e@ == "cron scheduler start: "@ + cause@,
{
    let mut e = "cron scheduler start: ".to_owned();
    e.append(cause);
    OrbflowError::Internal(e)
}

/// What a fired trigger leads to.
#[derive(Debug)]
pub enum FireStep {
    /// Nothing is started: the workflow could not be loaded.
    Abort,
    /// The workflow is started with this input. `credentials_unowned` tells that
    /// it uses credentials, which a trigger has no owner for.
    Start { input: Vec<JsonMember>, credentials_unowned: bool },
}

/// What a list of members holds under each key.
pub open spec fn member_map(members: Seq<JsonMember>) -> Map<Seq<char>, json::Json> {
    named::last_values(json::members_view(members))
}

/// The input of a run that a trigger starts: the payload, with the trigger's type
/// under `_trigger_type`.
pub open spec fn fired_input(
    payload: Seq<JsonMember>,
    trigger_type: TriggerType,
) -> Map<Seq<char>, json::Json> {
    member_map(payload).insert(
        "_trigger_type"@,
        json::Json::Text(crate::trigger::trigger_name(trigger_type)),
    )
}

fn put_member(members: &mut Vec<JsonMember>, key: &str, value: JsonValue)
    requires
        named::names_once(json::members_view(old(members)@)),
    ensures
        named::names_once(json::members_view(final(members)@)),
        member_map(final(members)@) == member_map(old(members)@).insert(key@, value@),
{
    assert(named::entries(members@) =~= json::members_view(members@));
    named::put(members, json::member_of(key, value));
    assert(named::entries(members@) =~= json::members_view(members@));
}

/// What a fired trigger leads to, given the workflow as it was loaded, if it was.
pub fn fire_trigger(
    loaded: Option<&Workflow>,
    trigger_type: TriggerType,
    payload: &Vec<JsonMember>,
) -> (r: FireStep)
    ensures
        match loaded {
            None => r is Abort,
            Some(wf) => r matches FireStep::Start { input, credentials_unowned } && {
                &&& named::names_once(json::members_view(input@))
                &&& member_map(input@) == fired_input(payload@, trigger_type)
                &&& credentials_unowned == (exists|i: int|
                    0 <= i < wf.nodes@.len() && refers_to_credential(#[trigger] wf.nodes@[i]))
            },
        },
{
    let wf = match loaded {
        Some(wf) => wf,
        None => return FireStep::Abort,
    };
    let mut input: Vec<JsonMember> = Vec::new();
    let ghost all = payload@;
    let mut i: usize = 0;
    assert(member_map(all.take(0)) =~= member_map(input@));
    while i < payload.len()
        invariant
            i <= payload.len(),
            all == payload@,
            named::names_once(json::members_view(input@)),
            member_map(input@) == member_map(all.take(i as int)),
        decreases payload.len() - i,
    {
        proof {
            let next = json::members_view(all.take(i + 1));
            assert(next.drop_last() =~= json::members_view(all.take(i as int)));
        }
        put_member(&mut input, payload[i].key.as_str(), payload[i].value.copy());
        i += 1;
    }
    assert(all.take(all.len() as int) =~= all);
    put_member(
        &mut input,
        "_trigger_type",
        JsonValue::Text(trigger_type.as_str().to_owned()),
    );
    FireStep::Start { input, credentials_unowned: workflow_uses_credentials(wf) }
}

/// A workflow with a trigger node registers nothing for its deprecated trigger
/// definitions, whatever they are.
pub proof fn law_trigger_nodes_are_authoritative(a: Workflow, b: Workflow)
    requires
        a.nodes == b.nodes,
        has_trigger_node(a.nodes@),
    ensures
        workflow_registrations(a) == workflow_registrations(b),
{
}

/// Every registration of a workflow with trigger nodes is that of one of them.
pub proof fn law_node_registrations_are_of_trigger_nodes(nodes: Seq<Node>, k: int)
    requires
        0 <= k < node_registrations(nodes).len(),
    ensures
        exists|i: int|
            0 <= i < nodes.len() && (#[trigger] nodes[i]).kind == NodeKind::Trigger
                && node_registration(nodes[i]) == Some(node_registrations(nodes)[k]),
    decreases nodes.len(),
{
    if nodes.len() > 0 {
        let before = node_registrations(nodes.drop_last());
        if k < before.len() {
            law_node_registrations_are_of_trigger_nodes(nodes.drop_last(), k);
            let i = choose|i: int|
                0 <= i < nodes.drop_last().len() && (#[trigger] nodes.drop_last()[i]).kind
                    == NodeKind::Trigger && node_registration(nodes.drop_last()[i]) == Some(
                    before[k],
                );
            assert(nodes[i] == nodes.drop_last()[i]);
        } else {
            assert(nodes[nodes.len() - 1].kind == NodeKind::Trigger);
        }
    }
}

proof fn lemma_without(registered: Seq<(Seq<char>, RegistrationModel)>, workflow_id: Seq<char>)
    ensures
        forall|i: int|
            0 <= i < without(registered, workflow_id).len() ==> (#[trigger] without(
                registered,
                workflow_id,
            )[i]).0 != workflow_id,
    decreases registered.len(),
{
    reveal(Seq::filter);
    if registered.len() > 0 {
        lemma_without(registered.drop_last(), workflow_id);
    }
}

proof fn lemma_without_nothing(
    registered: Seq<(Seq<char>, RegistrationModel)>,
    workflow_id: Seq<char>,
)
    requires
        forall|i: int|
            0 <= i < registered.len() ==> (#[trigger] registered[i]).0 != workflow_id,
    ensures
        without(registered, workflow_id) == registered,
    decreases registered.len(),
{
    reveal(Seq::filter);
    if registered.len() > 0 {
        lemma_without_nothing(registered.drop_last(), workflow_id);
        assert(registered[registered.len() - 1].0 != workflow_id);
        assert(registered.drop_last().push(registered.last()) =~= registered);
    }
}

proof fn lemma_without_made(
    registered: Seq<(Seq<char>, RegistrationModel)>,
    workflow_id: Seq<char>,
    made: Seq<RegistrationModel>,
)
    ensures
        without(registered + made_for(workflow_id, made), workflow_id) == without(
            registered,
            workflow_id,
        ),
    decreases made.len(),
{
    let all = registered + made_for(workflow_id, made);
    reveal(Seq::filter);
    if made.len() == 0 {
        assert(all =~= registered);
    } else {
        lemma_without_made(registered, workflow_id, made.drop_last());
        assert(all.drop_last() =~= registered + made_for(workflow_id, made.drop_last()));
        assert(all.last().0 == workflow_id);
    }
}

/// Refreshing a workflow again with the same definition changes nothing.
pub proof fn law_refresh_is_idempotent(
    registered: Seq<(Seq<char>, RegistrationModel)>,
    wf: Workflow,
)
    ensures
        ({
            let made = made_for(wf.id.0@, active_registrations(wf));
            let once = without(registered, wf.id.0@) + made;
            without(once, wf.id.0@) + made == once
        }),
{
    let rest = without(registered, wf.id.0@);
    lemma_without(registered, wf.id.0@);
    lemma_without_nothing(rest, wf.id.0@);
    lemma_without_made(rest, wf.id.0@, active_registrations(wf));
}

/// Removing a workflow undoes its registration, and leaves those of every other
/// workflow as they are.
pub proof fn law_unregistering_undoes_registering(
    registered: Seq<(Seq<char>, RegistrationModel)>,
    wf: Workflow,
)
    requires
        forall|i: int|
            0 <= i < registered.len() ==> (#[trigger] registered[i]).0 != wf.id.0@,
    ensures
        without(registered + made_for(wf.id.0@, workflow_registrations(wf)), wf.id.0@)
            == registered,
{
    lemma_without_nothing(registered, wf.id.0@);
    lemma_without_made(registered, wf.id.0@, workflow_registrations(wf));
}

/// After a refresh, what is registered for the workflow is what its definition
/// says while it is active, and nothing while it is not.
pub proof fn law_refresh_leaves_only_the_definition(
    registered: Seq<(Seq<char>, RegistrationModel)>,
    wf: Workflow,
    i: int,
)
    requires
        0 <= i < (without(registered, wf.id.0@) + made_for(
            wf.id.0@,
            active_registrations(wf),
        )).len(),
    ensures
        ({
            let after = without(registered, wf.id.0@) + made_for(
                wf.id.0@,
                active_registrations(wf),
            );
            after[i].0 == wf.id.0@ ==> wf.status == DefinitionStatus::Active
                && workflow_registrations(wf).contains(after[i].1)
        }),
{
    let rest = without(registered, wf.id.0@);
    lemma_without(registered, wf.id.0@);
    let made = active_registrations(wf);
    if i >= rest.len() {
        assert(made[i - rest.len()] == (rest + made_for(wf.id.0@, made))[i].1);
    }
}

/// The page at an offset, where `all` are the workflows that there are.
pub open spec fn page_at(all: Seq<Workflow>, offset: int) -> Seq<Workflow> {
    if all.len() - offset < PAGE_SIZE {
        all.skip(offset)
    } else {
        all.subrange(offset, offset + PAGE_SIZE)
    }
}

/// What is registered by loading page after page from an offset on, for as long
/// as there is a next one.
pub open spec fn startup_registrations(all: Seq<Workflow>, offset: i64) -> Seq<
    (Seq<char>, RegistrationModel),
>
    decreases all.len() - offset,
{
    if offset < 0 || offset > all.len() {
        Seq::empty()
    } else {
        let page = page_at(all, offset as int);
        match next_offset(offset, page.len()) {
            Some(next) => if next > offset {
                page_registrations(page) + startup_registrations(all, next)
            } else {
                page_registrations(page)
            },
            None => page_registrations(page),
        }
    }
}

proof fn lemma_pages_join(a: Seq<Workflow>, b: Seq<Workflow>)
    ensures
        page_registrations(a + b) == page_registrations(a) + page_registrations(b),
    decreases b.len(),
{
    if b.len() == 0 {
        assert(a + b =~= a);
        assert(page_registrations(a) + page_registrations(b) =~= page_registrations(a));
    } else {
        lemma_pages_join(a, b.drop_last());
        assert((a + b).drop_last() =~= a + b.drop_last());
        assert((a + b).last() == b.last());
        let last = made_for(b.last().id.0@, active_registrations(b.last()));
        assert(page_registrations(a) + page_registrations(b.drop_last()) + last
            =~= page_registrations(a) + (page_registrations(b.drop_last()) + last));
    }
}

/// Loading page after page until one is not full registers what every active
/// workflow says, each once and in order, and nothing for any other.
pub proof fn law_startup_registers_every_active_workflow(all: Seq<Workflow>, offset: i64)
    requires
        0 <= offset <= all.len(),
        all.len() + PAGE_SIZE <= i64::MAX,
    ensures
        startup_registrations(all, offset) == page_registrations(all.skip(offset as int)),
    decreases all.len() - offset,
{
    let page = page_at(all, offset as int);
    if all.len() - offset >= PAGE_SIZE {
        let next = (offset + PAGE_SIZE) as i64;
        law_startup_registers_every_active_workflow(all, next);
        assert(page + all.skip(next as int) =~= all.skip(offset as int));
        lemma_pages_join(page, all.skip(next as int));
    }
}

/// The input of a run that a trigger starts names the trigger's type, and holds
/// what the payload holds under every other key.
pub proof fn law_fired_input_names_the_trigger(
    payload: Seq<JsonMember>,
    trigger_type: TriggerType,
    key: Seq<char>,
)
    ensures
        fired_input(payload, trigger_type)["_trigger_type"@] == json::Json::Text(
            crate::trigger::trigger_name(trigger_type),
        ),
        key != "_trigger_type"@ ==> {
            &&& fired_input(payload, trigger_type).contains_key(key) == member_map(
                payload,
            ).contains_key(key)
            &&& member_map(payload).contains_key(key) ==> fired_input(payload, trigger_type)[key]
                == member_map(payload)[key]
        },
{
}

/// A registration says what it was made of.
pub proof fn law_registration_says_what_it_is(r: Registration)
    ensures
        r matches Registration::Schedule { node_id, cron } ==> r@ == (RegistrationModel::Schedule {
            node_id: text::opt_text(node_id),
            cron: cron@,
        }),
        r matches Registration::Event { node_id, event_name } ==> r@ == (RegistrationModel::Event {
            node_id: text::opt_text(node_id),
            event_name: event_name@,
        }),
        r matches Registration::Webhook { node_id, path, secret } ==> r@ == (
        RegistrationModel::Webhook {
            node_id: text::opt_text(node_id),
            path: path@,
            secret: text::opt_text(secret),
        }),
{
}

/// A node with trigger settings registers what they hold, under its id: a webhook
/// at just the path that is set, and at the empty one only where none is set; a
/// schedule or a subscription for just the cron expression or the event name, where
/// that is set and not empty.
pub proof fn law_node_registers_its_settings(node: Node)
    ensures
        node.trigger_config is None ==> node_registration(node) is None,
        node.trigger_config matches Some(tc) ==> {
            let made = node_registration(node);
            &&& tc.trigger_type == TriggerType::Webhook ==> made is Some && made->0 is Webhook
            &&& tc.trigger_type == TriggerType::Webhook ==> (made->0 matches
                RegistrationModel::Webhook { node_id, path, secret } ==> node_id == Some(node.id@)
                && (tc.path is Some ==> path == tc.path->0@) && (tc.path is None ==> path.len()
                == 0) && secret == webhook_secret(node))
            &&& tc.trigger_type == TriggerType::Schedule ==> (made is Some <==> tc.cron is Some
                && tc.cron->0@.len() > 0)
            &&& tc.trigger_type == TriggerType::Schedule && made is Some ==> made->0 == (
            RegistrationModel::Schedule { node_id: Some(node.id@), cron: tc.cron->0@ })
            &&& tc.trigger_type == TriggerType::Event ==> (made is Some <==> tc.event_name is Some
                && tc.event_name->0@.len() > 0)
            &&& tc.trigger_type == TriggerType::Event && made is Some ==> made->0 == (
            RegistrationModel::Event { node_id: Some(node.id@), event_name: tc.event_name->0@ })
            &&& tc.trigger_type == TriggerType::Manual ==> made is None
        },
{
}

/// A trigger definition registers what it holds, for no node and without a secret:
/// a webhook at just the path that is set, and at the empty one only where none is
/// set; a schedule or a subscription where its expression or name is not empty.
pub proof fn law_definition_registers_its_settings(t: Trigger)
    ensures
        ({
            let made = trigger_registration(t);
            &&& t.trigger_type == TriggerType::Webhook ==> made is Some && made->0 is Webhook
            &&& t.trigger_type == TriggerType::Webhook ==> (made->0 matches
                RegistrationModel::Webhook { node_id, path, secret } ==> node_id is None && (
            t.config.path is Some ==> path == t.config.path->0@) && (t.config.path is None
                ==> path.len() == 0) && secret is None)
            &&& t.trigger_type == TriggerType::Schedule ==> (made is Some <==> t.config.cron is Some
                && t.config.cron->0@.len() > 0)
            &&& t.trigger_type == TriggerType::Schedule && made is Some ==> made->0 == (
            RegistrationModel::Schedule { node_id: None, cron: t.config.cron->0@ })
            &&& t.trigger_type == TriggerType::Event ==> (made is Some <==> t.config.event_name is Some
                && t.config.event_name->0@.len() > 0)
            &&& t.trigger_type == TriggerType::Event && made is Some ==> made->0 == (
            RegistrationModel::Event { node_id: None, event_name: t.config.event_name->0@ })
            &&& t.trigger_type == TriggerType::Manual ==> made is None
        }),
{
}

/// What is not blank is taken without the whitespace around it; what is blank, or no
/// text, is taken for nothing.
pub proof fn law_blank_texts_count_for_nothing(value: json::Json)
    ensures
        value matches json::Json::Text(s) ==> (text::trimmed(s).len() > 0 ==> non_empty_text(value)
            == Some(text::trimmed(s))),
        value matches json::Json::Text(s) ==> (text::trimmed(s).len() == 0 ==> non_empty_text(
            value,
        ) is None),
        !(value is Text) ==> non_empty_text(value) is None,
{
}

/// The value that a node's configuration holds under a key.
pub open spec fn configured(node: Node, key: Seq<char>) -> Option<json::Json> {
    match node.config {
        Some(members) => json::member(json::members_view(members@), key),
        None => None,
    }
}

/// The configuration holds a text under the key that is not blank.
pub open spec fn configures_text(node: Node, key: Seq<char>) -> bool {
    configured(node, key) matches Some(v) && v is Text && text::trimmed(v->Text_0).len() > 0
}

/// The secret of a webhook is the text under `secret` in the configuration, else
/// that under `webhook_secret`, else that under `signature_secret`, each where it is
/// not blank, and without the whitespace around it.
pub proof fn law_configured_secret_is_used(node: Node)
    ensures
        configures_text(node, "secret"@) ==> webhook_secret(node) == Some(
            text::trimmed(configured(node, "secret"@)->0->Text_0),
        ),
        !configures_text(node, "secret"@) && configures_text(node, "webhook_secret"@)
            ==> webhook_secret(node) == Some(
            text::trimmed(configured(node, "webhook_secret"@)->0->Text_0),
        ),
        !configures_text(node, "secret"@) && !configures_text(node, "webhook_secret"@)
            && configures_text(node, "signature_secret"@) ==> webhook_secret(node) == Some(
            text::trimmed(configured(node, "signature_secret"@)->0->Text_0),
        ),
{
}

/// The parameter is a fixed one that holds a secret which is not blank.
pub open spec fn is_secret_parameter(param: Parameter) -> bool {
    &&& param.mode == ParameterMode::Static
    &&& param.key@ == "secret"@ || param.key@ == "webhook_secret"@ || param.key@
        == "signature_secret"@
    &&& param.value is Some
    &&& param.value->0@ is Text
    &&& text::trimmed(param.value->0@->Text_0).len() > 0
}

/// Without a secret in its configuration, the secret of a webhook is that of the
/// first fixed parameter that holds one, and there is none where no parameter does.
pub proof fn law_parameter_secret_is_used_else(node: Node, i: int)
    requires
        !configures_text(node, "secret"@),
        !configures_text(node, "webhook_secret"@),
        !configures_text(node, "signature_secret"@),
    ensures
        0 <= i < node.parameters@.len() && is_secret_parameter(node.parameters@[i]) && (forall|
            j: int,
        |
            0 <= j < i ==> !is_secret_parameter(#[trigger] node.parameters@[j])) ==> webhook_secret(
            node,
        ) == Some(text::trimmed(node.parameters@[i].value->0@->Text_0)),
        (forall|j: int|
            0 <= j < node.parameters@.len() ==> !is_secret_parameter(
                #[trigger] node.parameters@[j],
            )) ==> webhook_secret(node) is None,
{
    let params = node.parameters@;
    if 0 <= i < params.len() && is_secret_parameter(params[i]) && (forall|j: int|
        0 <= j < i ==> !is_secret_parameter(#[trigger] params[j])) {
        lemma_first_secret_parameter(params, i);
    }
    if forall|j: int| 0 <= j < params.len() ==> !is_secret_parameter(#[trigger] params[j]) {
        lemma_no_secret_parameter(params);
    }
}

proof fn lemma_first_secret_parameter(params: Seq<Parameter>, i: int)
    requires
        0 <= i < params.len(),
        is_secret_parameter(params[i]),
        forall|j: int| 0 <= j < i ==> !is_secret_parameter(#[trigger] params[j]),
    ensures
        parameter_secret(params) == Some(text::trimmed(params[i].value->0@->Text_0)),
    decreases params.len(),
{
    if i > 0 {
        assert(!is_secret_parameter(params[0]));
        let rest = params.drop_first();
        assert(rest[i - 1] == params[i]);
        assert forall|j: int| 0 <= j < i - 1 implies !is_secret_parameter(#[trigger] rest[j]) by {
            assert(!is_secret_parameter(params[j + 1]));
        }
        lemma_first_secret_parameter(rest, i - 1);
    }
}

proof fn lemma_no_secret_parameter(params: Seq<Parameter>)
    requires
        forall|j: int| 0 <= j < params.len() ==> !is_secret_parameter(#[trigger] params[j]),
    ensures
        parameter_secret(params) is None,
    decreases params.len(),
{
    if params.len() > 0 {
        assert(!is_secret_parameter(params[0]));
        let rest = params.drop_first();
        assert forall|j: int| 0 <= j < rest.len() implies !is_secret_parameter(
            #[trigger] rest[j],
        ) by {
            assert(!is_secret_parameter(params[j + 1]));
        }
        lemma_no_secret_parameter(rest);
    }
}

/// A node refers to a credential where its configuration holds a `credential_id`
/// that is not blank, or a parameter of that name has a value or an expression that
/// is not blank; and in no other way.
pub proof fn law_credentials_are_found(node: Node)
    ensures
        refers_to_credential(node) <==> configures_text(node, "credential_id"@) || exists|i: int|
            0 <= i < node.parameters@.len() && (#[trigger] node.parameters@[i]).key@
                == "credential_id"@ && (node.parameters@[i].value is Some
                && node.parameters@[i].value->0@ is Text && text::trimmed(
                node.parameters@[i].value->0@->Text_0,
            ).len() > 0 || node.parameters@[i].expression is Some && text::trimmed(
                node.parameters@[i].expression->0@,
            ).len() > 0),
{
    assert forall|i: int| 0 <= i < node.parameters@.len() implies is_credential_parameter(
        #[trigger] node.parameters@[i],
    ) == (node.parameters@[i].key@ == "credential_id"@ && (node.parameters@[i].value is Some
        && node.parameters@[i].value->0@ is Text && text::trimmed(
        node.parameters@[i].value->0@->Text_0,
    ).len() > 0 || node.parameters@[i].expression is Some && text::trimmed(
        node.parameters@[i].expression->0@,
    ).len() > 0)) by {}
}

/// One more node adds what it registers, where it is a trigger node, behind what
/// the nodes before it register.
pub proof fn law_each_trigger_node_registers(nodes: Seq<Node>, node: Node)
    ensures
        node_registrations(Seq::<Node>::empty()).len() == 0,
        node.kind == NodeKind::Trigger && node_registration(node) is Some ==> node_registrations(
            nodes.push(node),
        ) == node_registrations(nodes).push(node_registration(node)->0),
        node.kind != NodeKind::Trigger || node_registration(node) is None ==> node_registrations(
            nodes.push(node),
        ) == node_registrations(nodes),
{
    assert(nodes.push(node).drop_last() =~= nodes);
}

/// One more trigger definition adds what it registers behind those before it.
pub proof fn law_each_definition_registers(triggers: Seq<Trigger>, t: Trigger)
    ensures
        trigger_registrations(Seq::<Trigger>::empty()).len() == 0,
        trigger_registration(t) is Some ==> trigger_registrations(triggers.push(t))
            == trigger_registrations(triggers).push(trigger_registration(t)->0),
        trigger_registration(t) is None ==> trigger_registrations(triggers.push(t))
            == trigger_registrations(triggers),
{
    assert(triggers.push(t).drop_last() =~= triggers);
}

/// A workflow registers for its trigger nodes; only where it has none, for its
/// trigger definitions. While it is not active it registers nothing.
pub proof fn law_workflow_registers_for_nodes_or_definitions(wf: Workflow, i: int)
    ensures
        0 <= i < wf.nodes@.len() && wf.nodes@[i].kind == NodeKind::Trigger
            ==> workflow_registrations(wf) == node_registrations(wf.nodes@),
        (forall|j: int|
            0 <= j < wf.nodes@.len() ==> (#[trigger] wf.nodes@[j]).kind != NodeKind::Trigger)
            ==> workflow_registrations(wf) == trigger_registrations(wf.triggers@),
        wf.status == DefinitionStatus::Active ==> active_registrations(wf)
            == workflow_registrations(wf),
        wf.status != DefinitionStatus::Active ==> active_registrations(wf).len() == 0,
{
}

/// Registrations are noted for the workflow that they were made for, one by one.
pub proof fn law_registrations_are_noted_for_their_workflow(
    workflow_id: Seq<char>,
    made: Seq<RegistrationModel>,
    v: Seq<Registered>,
)
    ensures
        made_for(workflow_id, made).len() == made.len(),
        forall|i: int|
            0 <= i < made.len() ==> (#[trigger] made_for(workflow_id, made)[i]).0 == workflow_id
                && made_for(workflow_id, made)[i].1 == made[i],
        registered_models(v).len() == v.len(),
        forall|i: int|
            0 <= i < v.len() ==> (#[trigger] registered_models(v)[i]).0 == v[i].workflow_id@
                && registered_models(v)[i].1 == v[i].registration@,
{
}

/// The models of registrations are theirs, one by one.
pub proof fn law_registrations_are_modelled_one_by_one(v: Seq<Registration>)
    ensures
        registrations(v).len() == v.len(),
        forall|i: int| 0 <= i < v.len() ==> (#[trigger] registrations(v)[i]) == v[i]@,
{
}

/// Removing a workflow takes away each of its registrations and none of another
/// workflow's, and keeps the rest in order.
pub proof fn law_only_the_workflow_is_removed(
    registered: Seq<(Seq<char>, RegistrationModel)>,
    last: (Seq<char>, RegistrationModel),
    workflow_id: Seq<char>,
)
    ensures
        without(Seq::<(Seq<char>, RegistrationModel)>::empty(), workflow_id).len() == 0,
        last.0 == workflow_id ==> without(registered.push(last), workflow_id) == without(
            registered,
            workflow_id,
        ),
        last.0 != workflow_id ==> without(registered.push(last), workflow_id) == without(
            registered,
            workflow_id,
        ).push(last),
{
    reveal(Seq::filter);
    assert(registered.push(last).drop_last() =~= registered);
}

/// One more workflow of a page adds what it registers while it is active.
pub proof fn law_each_workflow_of_a_page_registers(page: Seq<Workflow>, wf: Workflow)
    ensures
        page_registrations(Seq::<Workflow>::empty()).len() == 0,
        wf.status == DefinitionStatus::Active ==> page_registrations(page.push(wf))
            == page_registrations(page) + made_for(wf.id.0@, workflow_registrations(wf)),
        wf.status != DefinitionStatus::Active ==> page_registrations(page.push(wf))
            == page_registrations(page),
{
    assert(page.push(wf).drop_last() =~= page);
    if wf.status != DefinitionStatus::Active {
        assert(page_registrations(page) + made_for(wf.id.0@, Seq::empty())
            =~= page_registrations(page));
    }
}

/// A full page is followed by the page behind it; one that is not full is the last.
pub proof fn law_pages_follow_each_other(offset: i64, count: nat)
    requires
        offset + 100 <= i64::MAX,
    ensures
        count < 100 <==> next_offset(offset, count) is None,
        count >= 100 ==> next_offset(offset, count)->0 == offset + 100,
{
}

/// What the payload of a trigger holds last under a key, the workflow gets under
/// that key; under `_trigger_type` it gets the word for the trigger's type; and it
/// gets nothing else.
pub proof fn law_fired_input_is_the_payload(
    payload: Seq<JsonMember>,
    trigger_type: TriggerType,
    key: Seq<char>,
    i: int,
)
    ensures
        0 <= i < payload.len() && payload[i].key@ == key && key != "_trigger_type"@ && (forall|
            j: int,
        |
            i < j < payload.len() ==> (#[trigger] payload[j]).key@ != key) ==> fired_input(
            payload,
            trigger_type,
        ).contains_key(key) && fired_input(payload, trigger_type)[key] == payload[i].value@,
        fired_input(payload, trigger_type).contains_key("_trigger_type"@),
        fired_input(payload, trigger_type)["_trigger_type"@] == json::Json::Text(
            match trigger_type {
                TriggerType::Manual => "manual"@,
                TriggerType::Event => "event"@,
                TriggerType::Schedule => "schedule"@,
                TriggerType::Webhook => "webhook"@,
            },
        ),
        key != "_trigger_type"@ && (forall|j: int|
            0 <= j < payload.len() ==> (#[trigger] payload[j]).key@ != key) ==> !fired_input(
            payload,
            trigger_type,
        ).contains_key(key),
{
    lemma_last_member(payload, key, i);
}

proof fn lemma_last_member(payload: Seq<JsonMember>, key: Seq<char>, i: int)
    ensures
        0 <= i < payload.len() && payload[i].key@ == key && (forall|j: int|
            i < j < payload.len() ==> (#[trigger] payload[j]).key@ != key) ==> member_map(
            payload,
        ).contains_key(key) && member_map(payload)[key] == payload[i].value@,
        (forall|j: int| 0 <= j < payload.len() ==> (#[trigger] payload[j]).key@ != key)
            ==> !member_map(payload).contains_key(key),
    decreases payload.len(),
{
    let lines = json::members_view(payload);
    if payload.len() > 0 {
        let rest = payload.drop_last();
        lemma_last_member(rest, key, i);
        assert(lines.drop_last() =~= json::members_view(rest));
        let last = payload[payload.len() - 1];
        assert(lines.last() == (last.key@, last.value@));
        if forall|j: int| 0 <= j < payload.len() ==> (#[trigger] payload[j]).key@ != key {
            assert forall|j: int| 0 <= j < rest.len() implies (#[trigger] rest[j]).key@ != key by {
                assert(payload[j].key@ != key);
            }
        }
        if 0 <= i < rest.len() && payload[i].key@ == key && (forall|j: int|
            i < j < payload.len() ==> (#[trigger] payload[j]).key@ != key) {
            assert(rest[i] == payload[i]);
            assert forall|j: int| i < j < rest.len() implies (#[trigger] rest[j]).key@ != key by {
                assert(payload[j].key@ != key);
            }
            assert(last.key@ != key);
        }
    }
}

/// What is registered is what is expected: all of it, or nothing where nothing is.
pub proof fn law_registered_is_what_is_expected(
    r: Option<Registration>,
    expected: Option<RegistrationModel>,
)
    requires
        is_registration(r, expected),
    ensures
        r is Some <==> expected is Some,
        r is Some ==> r->0@ == expected->0,
{
}

} // verus!
