use vstd::prelude::*;
use crate::error::{EngineError, ScriptError};

verus! {

/// How deep a chain of deferred values may go before resolution gives up.
pub const MAX_DEPTH: u64 = 64;

/// One property of an engine object as seen by the host.
#[derive(Debug, Clone, PartialEq, Eq)]
pub enum Field {
    Absent,
    Text(String),
    NonText,
}

impl Field {
    pub fn is_present(&self) -> (r: bool)
        ensures
            r == !(self is Absent),
    {
        !matches!(self, Field::Absent)
    }
}

/// What the host reads of an engine object: the three error-shape
/// properties and a structural rendering of the whole object.
#[derive(Debug, Clone, PartialEq, Eq)]
pub struct ObjectInfo {
    pub title: Field,
    pub message: Field,
    pub stack: Field,
    pub rendering: String,
}

/// An engine value, as the adapter hands it to the host.
#[derive(Debug, Clone, PartialEq, Eq)]
pub enum EngineValue {
    Text(String),
    Undefined,
    Null,
    Object(ObjectInfo),
    /// A deferred value; its handle stays with the adapter, which waits for
    /// it to settle and reports the outcome.
    Deferred,
    Failure(ScriptError),
    /// Any other primitive (number, boolean, ...), with a description.
    Primitive(String),
}

/// What the driver does next.
#[derive(Debug, PartialEq, Eq)]
pub enum Action {
    /// Resolution is over, with this outcome.
    Finish(Result<String, EngineError>),
    /// Wait for the pending deferred value, then hand its fulfilment to
    /// `Resolver::step` or its rejection to `rejection_error`.
    AwaitDeferred,
}

/// Message of a structured error that carries no message of its own.
pub open spec fn unexpected_error_text() -> Seq<char> {
    "Unexpected JS Error! Please check the server log."@
}

fn unexpected_error_message() -> (s: String)
    ensures
        s@ == unexpected_error_text(),
{
    String::from_str("Unexpected JS Error! Please check the server log.")
}

/// Resolution state: how many deferred layers have been unwrapped.
pub struct Resolver {
    pub depth: u64,
}

/// The outcome of one resolution step on `value`, at depth `depth`,
/// resolving on behalf of `context`.
pub open spec fn step_spec(depth: u64, value: EngineValue, context: String, a: Action) -> bool {
    match value {
        EngineValue::Text(s) => a == Action::Finish(Ok(s)),
        EngineValue::Undefined | EngineValue::Null => match a {
            Action::Finish(Ok(r)) => r@ == Seq::<char>::empty(),
            _ => false,
        },
        EngineValue::Object(o) => a == Action::Finish(Ok(o.rendering)),
        EngineValue::Deferred => if depth < MAX_DEPTH {
            a == Action::AwaitDeferred
        } else {
            a == Action::Finish(Err(EngineError::TooDeep))
        },
        EngineValue::Failure(e) => a == Action::Finish(Err(EngineError::ScriptEvaluationError(e))),
        EngineValue::Primitive(d) => a == Action::Finish(
            Err(EngineError::UnexpectedShape { description: d, context }),
        ),
    }
}

impl Resolver {
    pub fn new() -> (r: Resolver)
        ensures
            r.depth == 0,
    {
        Resolver { depth: 0 }
    }

    /// Classifies `value`: a terminal shape finishes resolution, a deferred
    /// value asks the driver to wait for it (one layer deeper).
    pub fn step(&mut self, value: EngineValue, context: String) -> (a: Action)
        ensures
            step_spec(old(self).depth, value, context, a),
            final(self).depth == (if a is AwaitDeferred { old(self).depth + 1 } else { old(self).depth as int }),
    {
        match value {
            EngineValue::Text(s) => Action::Finish(Ok(s)),
            EngineValue::Undefined | EngineValue::Null => Action::Finish(Ok(String::new())),
            EngineValue::Object(o) => Action::Finish(Ok(o.rendering)),
            EngineValue::Deferred => {
                if self.depth < MAX_DEPTH {
                    self.depth = self.depth + 1;
                    Action::AwaitDeferred
                } else {
                    Action::Finish(Err(EngineError::TooDeep))
                }
            },
            EngineValue::Failure(e) => Action::Finish(Err(EngineError::ScriptEvaluationError(e))),
            EngineValue::Primitive(d) => Action::Finish(
                Err(EngineError::UnexpectedShape { description: d, context }),
            ),
        }
    }
}

/// An object carries the error shape when it exposes any of `title`,
/// `message` or `stack`.
pub open spec fn has_error_shape(o: ObjectInfo) -> bool {
    !(o.title is Absent) || !(o.message is Absent) || !(o.stack is Absent)
}

/// A rejection value is recognised as an error when it is an engine error or
/// an object with the error shape.
pub open spec fn is_recognized_error(v: EngineValue) -> bool {
    match v {
        EngineValue::Failure(_) => true,
        EngineValue::Object(o) => has_error_shape(o),
        _ => false,
    }
}

/// The text of a field, or `default` when it is absent or not a string.
pub open spec fn field_or(f: Field, default: Seq<char>) -> Seq<char> {
    match f {
        Field::Text(s) => s@,
        _ => default,
    }
}

/// A readable rendering of a rejection value that carries no error shape.
pub open spec fn rejection_text(v: EngineValue) -> Seq<char> {
    match v {
        EngineValue::Text(s) => s@,
        EngineValue::Undefined => "undefined"@,
        EngineValue::Null => "null"@,
        EngineValue::Object(o) => o.rendering@,
        EngineValue::Deferred => "[deferred value]"@,
        EngineValue::Failure(e) => e.message@,
        EngineValue::Primitive(d) => d@,
    }
}

/// `t`, or the fixed message when `t` is empty.
pub open spec fn nonempty_or_unexpected(t: Seq<char>) -> Seq<char> {
    if t.len() == 0 { unexpected_error_text() } else { t }
}

/// The error that a deferred value rejected with `v` resolves to.
pub open spec fn rejection_spec(v: EngineValue, e: EngineError) -> bool {
    match v {
        EngineValue::Failure(se) => e == EngineError::ScriptEvaluationError(se),
        _ => match e {
            EngineError::ScriptEvaluationError(se) => if is_recognized_error(v) {
                let o = v->Object_0;
                &&& se.title@ == field_or(o.title, Seq::empty())
                &&& se.message@ == field_or(o.message, unexpected_error_text())
                &&& se.stack@ == field_or(o.stack, Seq::empty())
            } else {
                &&& se.title@ == Seq::<char>::empty()
                &&& se.message@ == nonempty_or_unexpected(rejection_text(v))
                &&& se.stack@ == Seq::<char>::empty()
            },
            _ => false,
        },
    }
}

fn field_text(f: Field, default: String) -> (s: String)
    ensures
        s@ == field_or(f, default@),
{
    match f {
        Field::Text(t) => t,
        _ => default,
    }
}

/// The error that a deferred value rejected with `value` resolves to: an
/// engine error passes through, an object with the error shape gives its
/// fields (with defaults for missing or non-string ones), anything else is
/// rendered into the message of a new structured error.
pub fn rejection_error(value: EngineValue) -> (e: EngineError)
    ensures
        rejection_spec(value, e),
{
    match value {
        EngineValue::Failure(se) => EngineError::ScriptEvaluationError(se),
        EngineValue::Object(o) => {
            if o.title.is_present() || o.message.is_present() || o.stack.is_present() {
                let title = field_text(o.title, String::new());
                let message = field_text(o.message, unexpected_error_message());
                let stack = field_text(o.stack, String::new());
                EngineError::ScriptEvaluationError(ScriptError { title, message, stack })
            } else {
                plain_rejection(o.rendering)
            }
        },
        EngineValue::Text(s) => plain_rejection(s),
        EngineValue::Undefined => plain_rejection(String::from_str("undefined")),
        EngineValue::Null => plain_rejection(String::from_str("null")),
        EngineValue::Deferred => plain_rejection(String::from_str("[deferred value]")),
        EngineValue::Primitive(d) => plain_rejection(d),
    }
}

fn plain_rejection(text: String) -> (e: EngineError)
    ensures
        e matches EngineError::ScriptEvaluationError(se) && se.title@ == Seq::<char>::empty()
            && se.message@ == nonempty_or_unexpected(text@) && se.stack@ == Seq::<char>::empty(),
{
    let message = if text.as_str().is_empty() {
        unexpected_error_message()
    } else {
        text
    };
    EngineError::ScriptEvaluationError(
        ScriptError { title: String::new(), message, stack: String::new() },
    )
}

/// A deferred value that settles with a string resolves to that string: the
/// deferred value asks for a wait, and the settled string finishes with it.
pub proof fn lemma_deferred_text_resolves(depth: u64, s: String, context: String, a1: Action, a2: Action)
    requires
        depth < MAX_DEPTH,
        step_spec(depth, EngineValue::Deferred, context, a1),
        step_spec((depth + 1) as u64, EngineValue::Text(s), context, a2),
    ensures
        a1 is AwaitDeferred,
        a2 == Action::Finish(Ok::<String, EngineError>(s)),
{
}

/// A rejection whose object carries `title`, `message` and `stack` as strings
/// resolves to the structured error with exactly those three texts.
pub proof fn lemma_shaped_rejection_kept(o: ObjectInfo, e: EngineError)
    requires
        o.title is Text,
        o.message is Text,
        o.stack is Text,
        rejection_spec(EngineValue::Object(o), e),
    ensures
        e matches EngineError::ScriptEvaluationError(se) && se.title@ == o.title->Text_0@
            && se.message@ == o.message->Text_0@ && se.stack@ == o.stack->Text_0@,
{
}

/// `Undefined` and `Null` resolve to the empty string.
pub proof fn lemma_no_value_is_empty(depth: u64, v: EngineValue, context: String, a: Action)
    requires
        v is Undefined || v is Null,
        step_spec(depth, v, context, a),
    ensures
        a matches Action::Finish(Ok(r)) && r@ == Seq::<char>::empty(),
{
}

/// A rejection with no recognisable error shape still resolves to an error,
/// and its message is never empty.
pub proof fn lemma_unshaped_rejection_has_message(v: EngineValue, e: EngineError)
    requires
        !is_recognized_error(v),
        rejection_spec(v, e),
    ensures
        e matches EngineError::ScriptEvaluationError(se) && se.message@.len() > 0,
{
    reveal_strlit("Unexpected JS Error! Please check the server log.");
}

} // verus!
