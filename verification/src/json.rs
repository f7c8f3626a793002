//! The JSON codec: what is taken from `serde_json`, and the outside types that travel through
//! this crate unopened.
//!
//! A JSON value is opaque here. What is known of it is which text it is read from, and which
//! text it is written as.

use iii_helpers::stream::UpdateOp;
use iii_helpers::stream::UpdateOpError;
use serde_json::Value;
use vstd::prelude::*;

verus! {

/// `serde_json::Value`: any JSON value.
#[verifier::external_type_specification]
#[verifier::external_body]
pub struct ExValue(serde_json::Value);

/// `iii_helpers::stream::UpdateOp`: one step of an atomic update.
#[verifier::external_type_specification]
#[verifier::external_body]
pub struct ExUpdateOp(iii_helpers::stream::UpdateOp);

/// `iii_helpers::stream::UpdateOpError`: why one step of an atomic update was not applied.
#[verifier::external_type_specification]
#[verifier::external_body]
pub struct ExUpdateOpError(iii_helpers::stream::UpdateOpError);

/// Cloning a JSON value gives an equal value.
pub assume_specification[ <serde_json::Value as Clone>::clone ](value: &serde_json::Value) -> (r:
    serde_json::Value)
    ensures
        r == *value,
;

/// Cloning an update step gives an equal step.
pub assume_specification[ <iii_helpers::stream::UpdateOp as Clone>::clone ](
    op: &iii_helpers::stream::UpdateOp,
) -> (r: iii_helpers::stream::UpdateOp)
    ensures
        r == *op,
;

/// What `serde_json::from_str::<Value>` makes of a text: the value, or the words of the error.
pub uninterp spec fn json_value(text: Seq<char>) -> Result<Value, Seq<char>>;

/// What `serde_json::to_string::<Value>` makes of a value: its text, or the words of the error.
pub uninterp spec fn json_text(value: Value) -> Result<Seq<char>, Seq<char>>;

/// What `serde_json::to_string::<Vec<UpdateOp>>` makes of a list of update steps: its text, or
/// the words of the error.
pub uninterp spec fn json_ops_text(ops: Seq<UpdateOp>) -> Result<Seq<char>, Seq<char>>;

/// What `serde_json::from_str::<Vec<UpdateOpError>>` makes of a text: the list, or the words of
/// the error.
pub uninterp spec fn json_op_errors(text: Seq<char>) -> Result<Seq<UpdateOpError>, Seq<char>>;

/// What `Value::get` finds under a member name.
pub uninterp spec fn json_member(value: Value, name: Seq<char>) -> Option<Value>;

/// What `Value::as_str` finds in a value.
pub uninterp spec fn json_string(value: Value) -> Option<Seq<char>>;

/// The value is `null`: the one that the text `null` is read as.
pub open spec fn is_null(value: Value) -> bool {
    json_value("null"@) == Ok::<Value, Seq<char>>(value)
}

/// The value `null`.
pub open spec fn null() -> Value {
    json_value("null"@)->Ok_0
}

/// The nesting of arrays and objects from which on `serde_json` refuses to read a text.
pub open spec fn nesting_limit() -> int {
    128
}

/// From position `i` on, `text` holds no number with a fraction or an exponent, and no array or
/// object at the nesting limit or beyond. `depth` counts the arrays and objects that are open at
/// `i`, and `quoted` says whether `i` lies inside a string.
pub open spec fn whole_and_shallow(text: Seq<char>, i: int, depth: int, quoted: bool) -> bool
    decreases text.len() + 1 - i,
{
    if !(0 <= i < text.len()) {
        true
    } else if quoted {
        if text[i] == '\\' {
            whole_and_shallow(text, i + 2, depth, true)
        } else {
            whole_and_shallow(text, i + 1, depth, text[i] != '"')
        }
    } else if text[i] == '"' {
        whole_and_shallow(text, i + 1, depth, true)
    } else if text[i] == '[' || text[i] == '{' {
        depth + 1 < nesting_limit() && whole_and_shallow(text, i + 1, depth + 1, false)
    } else if text[i] == ']' || text[i] == '}' {
        whole_and_shallow(text, i + 1, depth - 1, false)
    } else {
        &&& text[i] != '.'
        &&& !(text[i] == 'e' && i > 0 && '0' <= text[i - 1] <= '9')
        &&& whole_and_shallow(text, i + 1, depth, false)
    }
}

/// Text of a value that is read back exactly as it was: its numbers are whole, and its arrays
/// and objects are nested below the limit of the reader.
pub open spec fn reads_back(text: Seq<char>) -> bool {
    whole_and_shallow(text, 0, 0, false)
}

/// A result whose error is a text, over the views.
pub open spec fn read_view<T>(r: Result<T, String>) -> Result<T, Seq<char>> {
    match r {
        Ok(v) => Ok(v),
        Err(e) => Err(e@),
    }
}

/// Calls `serde_json::from_str::<Value>`. Its result depends on the text alone. An error is given
/// by the words that its `Display` writes.
#[verifier::external_body]
pub(crate) fn parse_value(text: &str) -> (r: Result<Value, String>)
    ensures
        read_view(r) == json_value(text@),
{
    serde_json::from_str::<Value>(text).map_err(|e| e.to_string())
}

/// Calls `serde_json::from_str::<Option<Value>>`. It reads what `from_str::<Value>` reads, save
/// that the value `null` becomes `None`.
#[verifier::external_body]
pub(crate) fn parse_optional_value(text: &str) -> (r: Result<Option<Value>, String>)
    ensures
        match r {
            Ok(Some(v)) => json_value(text@) == Ok::<Value, Seq<char>>(v) && !is_null(v),
            Ok(None) => json_value(text@) matches Ok(v) && is_null(v),
            Err(e) => json_value(text@) == Err::<Value, Seq<char>>(e@),
        },
{
    serde_json::from_str::<Option<Value>>(text).map_err(|e| e.to_string())
}

/// Calls `serde_json::to_string::<Value>`. Its result depends on the value alone, and a JSON value
/// can always be written. A text without fractions and exponents, nested below the reader's limit,
/// is read back as the value that it was written from. Nothing is said of numbers with a fraction
/// or an exponent: reading them may be off in the last place.
#[verifier::external_body]
pub(crate) fn render_value(value: &Value) -> (r: Result<String, String>)
    ensures
        match r {
            Ok(text) => {
                &&& json_text(*value) == Ok::<Seq<char>, Seq<char>>(text@)
                &&& reads_back(text@) ==> json_value(text@) == Ok::<Value, Seq<char>>(*value)
            },
            Err(e) => json_text(*value) == Err::<Seq<char>, Seq<char>>(e@),
        },
        r is Ok,
{
    serde_json::to_string(value).map_err(|e| e.to_string())
}

/// Calls `serde_json::to_string::<Vec<UpdateOp>>`. Its result depends on the steps alone, and steps
/// can always be written: they are made of strings, integers and JSON values.
#[verifier::external_body]
pub(crate) fn render_ops(ops: &Vec<UpdateOp>) -> (r: Result<String, String>)
    ensures
        match r {
            Ok(text) => json_ops_text(ops@) == Ok::<Seq<char>, Seq<char>>(text@),
            Err(e) => json_ops_text(ops@) == Err::<Seq<char>, Seq<char>>(e@),
        },
        r is Ok,
{
    serde_json::to_string(ops).map_err(|e| e.to_string())
}

/// Calls `serde_json::from_str::<Vec<UpdateOpError>>`. Its result depends on the text alone.
#[verifier::external_body]
pub(crate) fn parse_op_errors(text: &str) -> (r: Result<Vec<UpdateOpError>, String>)
    ensures
        match r {
            Ok(errors) => json_op_errors(text@) == Ok::<Seq<UpdateOpError>, Seq<char>>(errors@),
            Err(e) => json_op_errors(text@) == Err::<Seq<UpdateOpError>, Seq<char>>(e@),
        },
{
    serde_json::from_str::<Vec<UpdateOpError>>(text).map_err(|e| e.to_string())
}

/// `Value::Null`: the value that the text `null` is read as.
#[verifier::external_body]
pub(crate) fn null_value() -> (r: Value)
    ensures
        is_null(r),
{
    Value::Null
}

/// Calls `Value::get` with a member name. Its result depends on the value and the name alone.
#[verifier::external_body]
pub(crate) fn member<'a>(value: &'a Value, name: &str) -> (r: Option<&'a Value>)
    ensures
        match r {
            Some(v) => json_member(*value, name@) == Some(*v),
            None => json_member(*value, name@) is None,
        },
{
    value.get(name)
}

/// Calls `Value::as_str`. Its result depends on the value alone.
#[verifier::external_body]
pub(crate) fn string_of(value: &Value) -> (r: Option<&str>)
    ensures
        match r {
            Some(s) => json_string(*value) == Some(s@),
            None => json_string(*value) is None,
        },
{
    value.as_str()
}

} // verus!
