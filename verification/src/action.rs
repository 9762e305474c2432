//! The action model: a named operation with an identifier, a
//! concurrency classification and an ordered list of key/value
//! parameters built on the tolerant value codec.
//!
//! This layer is a pure data holder; the blocking type is a declarative
//! concurrency contract consumed by an external execution engine.

use vstd::prelude::*;

use crate::common::string_eq;
use crate::common::opt_string_eq;
use crate::common::str_eq;
use crate::value::ActionParameterValue;
use crate::value::ModelError;
use crate::value::ValueModel;

verus! {

/// Whether an action may run while the vehicle moves or while other
/// actions run.
#[derive(Clone, Copy, Debug, PartialEq, Eq, Structural)]
pub enum BlockingType {
    /// No exclusion: the action can happen in parallel with others,
    /// including movement.
    NoBlocking,
    /// The action can happen simultaneously with others, but not while
    /// the vehicle moves.
    Soft,
    /// No other action can be performed while this action runs.
    Hard,
}

/// Wire token of a blocking type.
pub open spec fn blocking_type_token(b: BlockingType) -> Seq<char> {
    match b {
        BlockingType::NoBlocking => "NONE"@,
        BlockingType::Soft => "SOFT"@,
        BlockingType::Hard => "HARD"@,
    }
}

impl BlockingType {
    /// The token this classification carries on the wire.
    pub fn token(&self) -> (r: &'static str)
        ensures
            r@ == blocking_type_token(*self),
    {
        match self {
            BlockingType::NoBlocking => "NONE",
            BlockingType::Soft => "SOFT",
            BlockingType::Hard => "HARD",
        }
    }

    /// Reads a wire token; a token outside the closed enumeration is an
    /// invalid enumeration value, never coerced to a default.
    pub fn from_token(s: &str) -> (r: Result<BlockingType, ModelError>)
        ensures
            r == (if s@ == "NONE"@ {
                Result::<BlockingType, ModelError>::Ok(BlockingType::NoBlocking)
            } else if s@ == "SOFT"@ {
                Result::<BlockingType, ModelError>::Ok(BlockingType::Soft)
            } else if s@ == "HARD"@ {
                Result::<BlockingType, ModelError>::Ok(BlockingType::Hard)
            } else {
                Result::<BlockingType, ModelError>::Err(ModelError::InvalidEnumValue)
            }),
    {
        if str_eq(s, "NONE") {
            Result::Ok(BlockingType::NoBlocking)
        } else if str_eq(s, "SOFT") {
            Result::Ok(BlockingType::Soft)
        } else if str_eq(s, "HARD") {
            Result::Ok(BlockingType::Hard)
        } else {
            Result::Err(ModelError::InvalidEnumValue)
        }
    }
}

/// One key/value parameter of an action.
#[derive(Debug, Clone)]
pub struct ActionParameter {
    /// The key of the parameter, for example duration, direction,
    /// signal.
    pub key: String,
    /// The value of the parameter.
    pub value: ActionParameterValue,
}

/// The mathematical model of an [`ActionParameter`].
#[verifier::ext_equal]
pub struct ActionParameterModel {
    pub key: Seq<char>,
    pub value: ValueModel,
}

impl DeepView for ActionParameter {
    type V = ActionParameterModel;

    open spec fn deep_view(&self) -> ActionParameterModel {
        ActionParameterModel { key: self.key@, value: self.value@ }
    }
}

/// A named operation the vehicle is to perform, delivered on a node, an
/// edge, or as an instant action.
#[derive(Debug, Clone)]
pub struct Action {
    /// Name of the operation.
    pub action_type: String,
    /// Identifier that distinguishes this action among all the sender
    /// currently tracks.
    pub action_id: String,
    /// Additional information on the action.
    pub action_description: Option<String>,
    /// Concurrency classification of the action.
    pub blocking_type: BlockingType,
    /// Ordered parameters of the action; duplicate keys are
    /// structurally permitted, resolving them is consumer policy.
    pub action_parameters: Vec<ActionParameter>,
}

/// The mathematical model of an [`Action`].
#[verifier::ext_equal]
pub struct ActionModel {
    pub action_type: Seq<char>,
    pub action_id: Seq<char>,
    pub action_description: Option<Seq<char>>,
    pub blocking_type: BlockingType,
    pub action_parameters: Seq<ActionParameterModel>,
}

impl DeepView for Action {
    type V = ActionModel;

    open spec fn deep_view(&self) -> ActionModel {
        ActionModel {
            action_type: self.action_type@,
            action_id: self.action_id@,
            action_description: self.action_description.deep_view(),
            blocking_type: self.blocking_type,
            action_parameters: self.action_parameters.deep_view(),
        }
    }
}

/// True exactly when the two values hold the same content.
pub fn value_eq(a: &ActionParameterValue, b: &ActionParameterValue) -> (r: bool)
    ensures
        r == (a@ == b@),
{
    match (a, b) {
        (ActionParameterValue::Null, ActionParameterValue::Null) => true,
        (ActionParameterValue::Boolean(x), ActionParameterValue::Boolean(y)) => x == y,
        (ActionParameterValue::Integer(x), ActionParameterValue::Integer(y)) => x == y,
        (ActionParameterValue::Float(x), ActionParameterValue::Float(y)) => string_eq(x, y),
        (ActionParameterValue::String(x), ActionParameterValue::String(y)) => string_eq(x, y),
        _ => false,
    }
}

/// True exactly when the two parameters hold the same content.
pub fn action_parameter_eq(a: &ActionParameter, b: &ActionParameter) -> (r: bool)
    ensures
        r == (a.deep_view() == b.deep_view()),
{
    let r = string_eq(&a.key, &b.key) && value_eq(&a.value, &b.value);
    proof {
        if r {
            assert(a.deep_view() =~= b.deep_view());
        }
    }
    r
}

/// True exactly when the two actions hold the same content.
pub fn action_eq(a: &Action, b: &Action) -> (r: bool)
    ensures
        r == (a.deep_view() == b.deep_view()),
{
    if !(string_eq(&a.action_type, &b.action_type) && string_eq(&a.action_id, &b.action_id)
        && opt_string_eq(&a.action_description, &b.action_description) && a.blocking_type
        == b.blocking_type) {
        return false;
    }
    if a.action_parameters.len() != b.action_parameters.len() {
        proof {
            assert(a.deep_view().action_parameters.len() != b.deep_view().action_parameters.len());
        }
        return false;
    }
    let mut i: usize = 0;
    while i < a.action_parameters.len()
        invariant
            i <= a.action_parameters@.len() == b.action_parameters@.len(),
            forall|j: int|
                0 <= j < i ==> #[trigger] a.action_parameters@[j].deep_view()
                    == b.action_parameters@[j].deep_view(),
        decreases a.action_parameters@.len() - i,
    {
        if !action_parameter_eq(&a.action_parameters[i], &b.action_parameters[i]) {
            proof {
                let vi = i as int;
                assert(a.deep_view().action_parameters[vi] != b.deep_view().action_parameters[vi]);
            }
            return false;
        }
        i = i + 1;
    }
    proof {
        assert(a.deep_view().action_parameters =~= b.deep_view().action_parameters);
        assert(a.deep_view() =~= b.deep_view());
    }
    true
}

/// True exactly when the two action lists hold the same content in the
/// same order.
pub fn actions_eq(a: &Vec<Action>, b: &Vec<Action>) -> (r: bool)
    ensures
        r == (a.deep_view() == b.deep_view()),
{
    if a.len() != b.len() {
        proof {
            assert(a.deep_view().len() != b.deep_view().len());
        }
        return false;
    }
    let mut i: usize = 0;
    while i < a.len()
        invariant
            i <= a@.len() == b@.len(),
            forall|j: int| 0 <= j < i ==> #[trigger] a@[j].deep_view() == b@[j].deep_view(),
        decreases a@.len() - i,
    {
        if !action_eq(&a[i], &b[i]) {
            proof {
                let vi = i as int;
                assert(a.deep_view()[vi] != b.deep_view()[vi]);
            }
            return false;
        }
        i = i + 1;
    }
    proof {
        assert(a.deep_view() =~= b.deep_view());
    }
    true
}

} // verus!
