//! Wire format types for the message bus: the contract between engine and worker.

use crate::execution::InstanceId;
use crate::json::JsonMember;
use crate::text;
use vstd::prelude::*;

verus! {

/// Wire format for tasks published to the bus.
#[derive(Debug)]
pub struct TaskMessage {
    pub instance_id: InstanceId,
    pub node_id: String,
    pub dispatch_id: Option<String>,
    pub plugin_ref: String,
    pub config: Option<Vec<JsonMember>>,
    pub input: Option<Vec<JsonMember>>,
    pub parameters: Option<Vec<JsonMember>>,
    pub capabilities: Option<Vec<JsonMember>>,
    pub attempt: i32,
    /// W3C TraceContext headers for distributed trace propagation.
    pub trace_context: Option<Vec<(String, String)>>,
    /// Wire format version for backward-compatible evolution.
    pub v: u8,
}

/// Wire format for results received from workers.
#[derive(Debug)]
pub struct ResultMessage {
    pub result_id: Option<String>,
    pub instance_id: InstanceId,
    pub node_id: String,
    pub attempt: i32,
    pub dispatch_id: Option<String>,
    pub output: Option<Vec<JsonMember>>,
    pub error: Option<String>,
    /// W3C TraceContext headers propagated back from the worker.
    pub trace_context: Option<Vec<(String, String)>>,
    /// Wire format version for backward-compatible evolution.
    pub v: u8,
}

/// Current wire format version for bus messages.
pub const WIRE_VERSION: u8 = 1;

/// The version of a message that names none.
pub fn default_wire_version() -> (r: u8)
    ensures
        r == WIRE_VERSION,
{
    WIRE_VERSION
}

/// `<instance>:<node>:<attempt>`.
pub open spec fn dispatch_identity_text(
    instance_id: Seq<char>,
    node_id: Seq<char>,
    attempt: int,
) -> Seq<char> {
    instance_id + ":"@ + node_id + ":"@ + text::signed_decimal(attempt)
}

/// Stable identity for a single dispatch attempt.
///
/// The engine derives this from durable state (`instance_id`, `node_id`, and
/// `attempt`) so crash recovery can reject stale worker results without adding
/// another persisted field to every node state.
pub fn dispatch_identity(instance_id: &InstanceId, node_id: &str, attempt: i32) -> (r: String)
    ensures
        r@ == dispatch_identity_text(instance_id.0@, node_id@, attempt as int),
{
    let mut out = instance_id.0.clone();
    out.append(":");
    out.append(node_id);
    out.append(":");
    text::push_signed_decimal(&mut out, attempt as i64);
    out
}

/// Result identity validation path accepted for a worker result.
#[derive(Debug, Clone, Copy, PartialEq, Eq, Structural)]
pub enum ResultIdentityMode {
    /// Result carried a matching dispatch_id and exact attempt.
    Modern,
    /// Legacy v1 result omitted dispatch_id and was accepted by explicit policy.
    LegacyV1,
}

/// Why a worker result does not belong to the expected dispatch attempt.
#[derive(Debug)]
#[allow(inconsistent_fields)]
pub enum ResultIdentityError {
    InstanceMismatch { expected: InstanceId, actual: InstanceId },
    NodeMismatch { expected: String, actual: String },
    AttemptMismatch { node_id: String, expected: i32, actual: i32 },
    MissingDispatchId { node_id: String },
    DispatchIdMismatch { node_id: String, expected: String, actual: String },
}

/// What the error says to an operator.
pub open spec fn identity_error_text(e: ResultIdentityError) -> Seq<char> {
    match e {
        ResultIdentityError::InstanceMismatch { expected, actual } => "result instance_id "@
            + actual.0@ + " does not match expected instance_id "@ + expected.0@,
        ResultIdentityError::NodeMismatch { expected, actual } => "result node_id "@ + actual@
            + " does not match expected node_id "@ + expected@,
        ResultIdentityError::AttemptMismatch { node_id, expected, actual } =>
            "stale result for node "@ + node_id@ + ": attempt "@ + text::signed_decimal(
            actual as int,
        ) + " does not match expected attempt "@ + text::signed_decimal(expected as int),
        ResultIdentityError::MissingDispatchId { node_id } => "result for node "@ + node_id@
            + " is missing dispatch_id"@,
        ResultIdentityError::DispatchIdMismatch { node_id, expected, actual } =>
            "stale result for node "@ + node_id@ + ": dispatch_id "@ + actual@
            + " does not match expected "@ + expected@,
    }
}

impl ResultIdentityError {
    /// The error as text.
    pub fn to_string(&self) -> (r: String)
        ensures
            r@ == identity_error_text(*self),
    {
        match self {
            ResultIdentityError::InstanceMismatch { expected, actual } => {
                let mut out = "result instance_id ".to_owned();
                out.append(actual.0.as_str());
                out.append(" does not match expected instance_id ");
                out.append(expected.0.as_str());
                out
            },
            ResultIdentityError::NodeMismatch { expected, actual } => {
                let mut out = "result node_id ".to_owned();
                out.append(actual.as_str());
                out.append(" does not match expected node_id ");
                out.append(expected.as_str());
                out
            },
            ResultIdentityError::AttemptMismatch { node_id, expected, actual } => {
                let mut out = "stale result for node ".to_owned();
                out.append(node_id.as_str());
                out.append(": attempt ");
                text::push_signed_decimal(&mut out, *actual as i64);
                out.append(" does not match expected attempt ");
                text::push_signed_decimal(&mut out, *expected as i64);
                out
            },
            ResultIdentityError::MissingDispatchId { node_id } => {
                let mut out = "result for node ".to_owned();
                out.append(node_id.as_str());
                out.append(" is missing dispatch_id");
                out
            },
            ResultIdentityError::DispatchIdMismatch { node_id, expected, actual } => {
                let mut out = "stale result for node ".to_owned();
                out.append(node_id.as_str());
                out.append(": dispatch_id ");
                out.append(actual.as_str());
                out.append(" does not match expected ");
                out.append(expected.as_str());
                out
            },
        }
    }
}

/// The result names the expected instance and node.
pub open spec fn same_dispatch_target(
    result: ResultMessage,
    instance_id: Seq<char>,
    node_id: Seq<char>,
) -> bool {
    result.instance_id.0@ == instance_id && result.node_id@ == node_id
}

/// The result may pass without a dispatch id: policy allows it, the wire version
/// is a legacy one, and the attempt is the expected one or not given.
pub open spec fn legacy_result_passes(
    result: ResultMessage,
    attempt: i32,
    allow_legacy: bool,
) -> bool {
    &&& allow_legacy
    &&& result.dispatch_id is None
    &&& result.v <= WIRE_VERSION
    &&& result.attempt == 0 || result.attempt == attempt
}

/// `outcome` is what verification says of the result.
pub open spec fn result_identity_outcome(
    result: ResultMessage,
    instance_id: Seq<char>,
    node_id: Seq<char>,
    attempt: i32,
    allow_legacy: bool,
    outcome: Result<ResultIdentityMode, ResultIdentityError>,
) -> bool {
    let identity = dispatch_identity_text(instance_id, node_id, attempt as int);
    if result.instance_id.0@ != instance_id {
        outcome matches Err(ResultIdentityError::InstanceMismatch { expected, actual })
            && expected.0@ == instance_id && actual.0@ == result.instance_id.0@
    } else if result.node_id@ != node_id {
        outcome matches Err(ResultIdentityError::NodeMismatch { expected, actual }) && expected@
            == node_id && actual@ == result.node_id@
    } else if legacy_result_passes(result, attempt, allow_legacy) {
        outcome == Ok::<ResultIdentityMode, ResultIdentityError>(ResultIdentityMode::LegacyV1)
    } else if result.attempt != attempt {
        outcome matches Err(ResultIdentityError::AttemptMismatch { node_id: n, expected, actual })
            && n@ == node_id && expected == attempt && actual == result.attempt
    } else {
        match result.dispatch_id {
            None => outcome matches Err(ResultIdentityError::MissingDispatchId { node_id: n })
                && n@ == node_id,
            Some(id) => if id@ == identity {
                outcome == Ok::<ResultIdentityMode, ResultIdentityError>(ResultIdentityMode::Modern)
            } else {
                outcome matches Err(
                    ResultIdentityError::DispatchIdMismatch { node_id: n, expected, actual },
                ) && n@ == node_id && expected@ == identity && actual@ == id@
            },
        }
    }
}

/// Verifies that a worker result belongs to the expected dispatch attempt.
///
/// The modern path requires exact instance, node, attempt, and dispatch_id
/// matches. Set `allow_legacy_v1_without_dispatch_id` only for documented
/// rolling-upgrade windows where v1 workers may omit `dispatch_id`.
pub fn verify_result_identity(
    result: &ResultMessage,
    expected_instance_id: &InstanceId,
    expected_node_id: &str,
    expected_attempt: i32,
    allow_legacy_v1_without_dispatch_id: bool,
) -> (r: Result<ResultIdentityMode, ResultIdentityError>)
    ensures
        result_identity_outcome(
            *result,
            expected_instance_id.0@,
            expected_node_id@,
            expected_attempt,
            allow_legacy_v1_without_dispatch_id,
            r,
        ),
{
    if !result.instance_id.same(expected_instance_id) {
        return Err(
            ResultIdentityError::InstanceMismatch {
                expected: expected_instance_id.copy(),
                actual: result.instance_id.copy(),
            },
        );
    }
    if !text::same_text(result.node_id.as_str(), expected_node_id) {
        return Err(
            ResultIdentityError::NodeMismatch {
                expected: expected_node_id.to_owned(),
                actual: result.node_id.clone(),
            },
        );
    }
    if result.dispatch_id.is_none() && allow_legacy_v1_without_dispatch_id && result.v
        <= WIRE_VERSION && (result.attempt == 0 || result.attempt == expected_attempt) {
        return Ok(ResultIdentityMode::LegacyV1);
    }
    if result.attempt != expected_attempt {
        return Err(
            ResultIdentityError::AttemptMismatch {
                node_id: result.node_id.clone(),
                expected: expected_attempt,
                actual: result.attempt,
            },
        );
    }
    let expected_dispatch_id = dispatch_identity(
        expected_instance_id,
        expected_node_id,
        expected_attempt,
    );
    match &result.dispatch_id {
        Some(dispatch_id) => if text::same_text(
            dispatch_id.as_str(),
            expected_dispatch_id.as_str(),
        ) {
            Ok(ResultIdentityMode::Modern)
        } else {
            Err(
                ResultIdentityError::DispatchIdMismatch {
                    node_id: result.node_id.clone(),
                    expected: expected_dispatch_id,
                    actual: dispatch_id.clone(),
                },
            )
        },
        None => Err(ResultIdentityError::MissingDispatchId { node_id: result.node_id.clone() }),
    }
}

/// Two attempts at one node of one instance never share a dispatch identity.
pub proof fn law_dispatch_identity_tells_attempts_apart(
    instance_id: Seq<char>,
    node_id: Seq<char>,
    a: int,
    b: int,
)
    ensures
        dispatch_identity_text(instance_id, node_id, a) == dispatch_identity_text(
            instance_id,
            node_id,
            b,
        ) ==> a == b,
{
    let x = dispatch_identity_text(instance_id, node_id, a);
    let y = dispatch_identity_text(instance_id, node_id, b);
    let head = instance_id + ":"@ + node_id + ":"@;
    if x == y {
        assert(x.skip(head.len() as int) =~= text::signed_decimal(a));
        assert(y.skip(head.len() as int) =~= text::signed_decimal(b));
        text::lemma_signed_decimal_injective(a, b);
    }
}

/// Where the instance ids hold no colon, a dispatch identity determines the
/// instance, the node and the attempt.
pub proof fn law_dispatch_identity_is_injective(
    instance_a: Seq<char>,
    node_a: Seq<char>,
    a: int,
    instance_b: Seq<char>,
    node_b: Seq<char>,
    b: int,
)
    requires
        !instance_a.contains(':'),
        !instance_b.contains(':'),
        dispatch_identity_text(instance_a, node_a, a) == dispatch_identity_text(
            instance_b,
            node_b,
            b,
        ),
    ensures
        instance_a == instance_b,
        node_a == node_b,
        a == b,
{
    reveal_strlit(":");
    let x = dispatch_identity_text(instance_a, node_a, a);
    let y = dispatch_identity_text(instance_b, node_b, b);
    let (la, lb) = (instance_a.len() as int, instance_b.len() as int);
    // The first colon ends the instance id.
    assert(x[la] == ':');
    assert(y[lb] == ':');
    if la < lb {
        assert(y[la] == instance_b[la]);
        assert(instance_b.contains(':'));
    } else if lb < la {
        assert(x[lb] == instance_a[lb]);
        assert(instance_a.contains(':'));
    }
    assert(x.take(la) =~= instance_a);
    assert(y.take(lb) =~= instance_b);
    // The last colon begins the attempt.
    text::lemma_signed_decimal_injective(a, b);
    text::lemma_signed_decimal_injective(b, a);
    let (da, db) = (text::signed_decimal(a), text::signed_decimal(b));
    let pa = x.len() - da.len() - 1;
    let pb = y.len() - db.len() - 1;
    assert(x[pa] == ':');
    assert(y[pb] == ':');
    if pa < pb {
        assert(x[pb] == da[pb - pa - 1]);
    } else if pb < pa {
        assert(y[pa] == db[pa - pb - 1]);
    }
    assert(x.skip(pa + 1) =~= da);
    assert(y.skip(pb + 1) =~= db);
    assert(x.subrange(la + 1, pa) =~= node_a);
    assert(y.subrange(lb + 1, pb) =~= node_b);
}

/// A result passes only as the expected instance's and node's, and, unless policy
/// lets a legacy result through that gives no attempt, only as the expected
/// attempt's.
pub proof fn law_accepted_result_is_of_the_expected_dispatch(
    result: ResultMessage,
    instance_id: Seq<char>,
    node_id: Seq<char>,
    attempt: i32,
    allow_legacy: bool,
    outcome: Result<ResultIdentityMode, ResultIdentityError>,
)
    requires
        result_identity_outcome(result, instance_id, node_id, attempt, allow_legacy, outcome),
        outcome is Ok,
    ensures
        same_dispatch_target(result, instance_id, node_id),
        result.attempt == attempt || (allow_legacy && result.attempt == 0 && result.dispatch_id
            is None),
        !allow_legacy ==> outcome->Ok_0 == ResultIdentityMode::Modern && text::opt_text(
            result.dispatch_id,
        ) == Some(dispatch_identity_text(instance_id, node_id, attempt as int)),
{
}

/// The result that a worker makes of a task passes for the attempt that the task
/// was dispatched under, and for no other attempt, legacy policy or not.
pub proof fn law_dispatched_result_passes_for_its_attempt_only(
    result: ResultMessage,
    instance_id: Seq<char>,
    node_id: Seq<char>,
    attempt: i32,
    expected: i32,
    allow_legacy: bool,
    outcome: Result<ResultIdentityMode, ResultIdentityError>,
)
    requires
        same_dispatch_target(result, instance_id, node_id),
        result.attempt == attempt,
        text::opt_text(result.dispatch_id) == Some(
            dispatch_identity_text(instance_id, node_id, attempt as int),
        ),
        result_identity_outcome(result, instance_id, node_id, expected, allow_legacy, outcome),
    ensures
        outcome is Ok <==> attempt == expected,
{
}

/// The identity of a dispatch is the instance, the node and the attempt, with a
/// colon between each two.
pub proof fn law_dispatch_identity_names_its_parts(
    instance_id: Seq<char>,
    node_id: Seq<char>,
    attempt: nat,
)
    ensures
        dispatch_identity_text(instance_id, node_id, attempt as int) == instance_id + ":"@ + node_id
            + ":"@ + text::decimal(attempt),
{
    text::law_signed_numbers_are_written(attempt as int);
}

/// A result is taken exactly where it is of the instance and the node, and either is
/// of the attempt and carries the identity of its dispatch, or is an old one without
/// any, which policy lets through, of the attempt or of none.
pub proof fn law_results_are_taken_or_refused(
    result: ResultMessage,
    instance_id: Seq<char>,
    node_id: Seq<char>,
    attempt: i32,
    allow_legacy: bool,
    outcome: Result<ResultIdentityMode, ResultIdentityError>,
)
    requires
        result_identity_outcome(result, instance_id, node_id, attempt, allow_legacy, outcome),
    ensures
        ({
            let of_node = result.instance_id.0@ == instance_id && result.node_id@ == node_id;
            let old = allow_legacy && result.dispatch_id is None && result.v <= 1 && (result.attempt
                == 0 || result.attempt == attempt);
            let identity = instance_id + ":"@ + node_id + ":"@ + text::signed_decimal(
                attempt as int,
            );
            let dispatched = result.attempt == attempt && result.dispatch_id is Some
                && result.dispatch_id->0@ == identity;
            &&& outcome is Ok <==> of_node && (old || dispatched)
            &&& of_node && old ==> outcome->Ok_0 == ResultIdentityMode::LegacyV1
            &&& of_node && dispatched ==> outcome->Ok_0 == ResultIdentityMode::Modern
        }),
{
}

/// A refusal says what is wrong with the result first: its instance, its node, its
/// attempt, or its identity; and what was expected.
pub proof fn law_refusals_say_what_was_expected(
    result: ResultMessage,
    instance_id: Seq<char>,
    node_id: Seq<char>,
    attempt: i32,
    allow_legacy: bool,
    outcome: Result<ResultIdentityMode, ResultIdentityError>,
)
    requires
        result_identity_outcome(result, instance_id, node_id, attempt, allow_legacy, outcome),
        outcome is Err,
    ensures
        result.instance_id.0@ != instance_id ==> (outcome->Err_0 matches
            ResultIdentityError::InstanceMismatch { expected, actual } && expected.0@ == instance_id
            && actual.0@ == result.instance_id.0@),
        result.instance_id.0@ == instance_id && result.node_id@ != node_id ==> (outcome->Err_0
            matches ResultIdentityError::NodeMismatch { expected, actual } && expected@ == node_id
            && actual@ == result.node_id@),
        result.instance_id.0@ == instance_id && result.node_id@ == node_id && result.attempt
            != attempt ==> (outcome->Err_0 matches ResultIdentityError::AttemptMismatch {
            node_id: n,
            expected,
            actual,
        } && n@ == node_id && expected == attempt && actual == result.attempt),
        result.instance_id.0@ == instance_id && result.node_id@ == node_id && result.attempt
            == attempt && result.dispatch_id is None ==> (outcome->Err_0 matches
            ResultIdentityError::MissingDispatchId { node_id: n } && n@ == node_id),
        result.instance_id.0@ == instance_id && result.node_id@ == node_id && result.attempt
            == attempt && result.dispatch_id is Some ==> (outcome->Err_0 matches
            ResultIdentityError::DispatchIdMismatch { node_id: n, expected, actual } && n@
            == node_id && expected@ == instance_id + ":"@ + node_id + ":"@ + text::signed_decimal(
            attempt as int,
        ) && actual@ == result.dispatch_id->0@),
{
}

/// What a refusal of a result says: what the result names, and then what was
/// expected of it.
pub proof fn law_refusals_are_written_out(e: ResultIdentityError)
    ensures
        e matches ResultIdentityError::InstanceMismatch { expected, actual } ==> identity_error_text(
            e,
        ) == "result instance_id "@ + actual.0@ + " does not match expected instance_id "@
            + expected.0@,
        e matches ResultIdentityError::NodeMismatch { expected, actual } ==> identity_error_text(e)
            == "result node_id "@ + actual@ + " does not match expected node_id "@ + expected@,
        e matches ResultIdentityError::AttemptMismatch { node_id, expected, actual }
            ==> identity_error_text(e) == "stale result for node "@ + node_id@ + ": attempt "@
            + text::signed_decimal(actual as int) + " does not match expected attempt "@
            + text::signed_decimal(expected as int),
        e matches ResultIdentityError::MissingDispatchId { node_id } ==> identity_error_text(e)
            == "result for node "@ + node_id@ + " is missing dispatch_id"@,
        e matches ResultIdentityError::DispatchIdMismatch { node_id, expected, actual }
            ==> identity_error_text(e) == "stale result for node "@ + node_id@ + ": dispatch_id "@
            + actual@ + " does not match expected "@ + expected@,
{
}

} // verus!
