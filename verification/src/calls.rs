//! What is sent to Redis: commands and script calls, as plain values.

use crate::error::outcome;
use crate::error::StateError;
use crate::json::json_ops_text;
use crate::json::json_text;
use crate::json::json_value;
use crate::json::reads_back;
use crate::json::render_ops;
use crate::json::render_value;
use crate::keys::key_of;
use crate::keys::state_keys;
use crate::keys::KeyRole;
use crate::scripts::indexed_update_script;
use crate::scripts::state_json_update_script;
use crate::scripts::STATE_DELETE_SCRIPT;
use crate::scripts::STATE_LIST_PAGE_SCRIPT;
use crate::scripts::STATE_RECONCILE_SCRIPT;
use crate::scripts::STATE_SET_SCRIPT;
use iii_helpers::stream::UpdateOp;
use serde_json::Value;
use vstd::prelude::*;

verus! {

/// An argument of a command or a script.
#[derive(Debug, Clone)]
pub enum Arg {
    Text(String),
    /// Sent in decimal notation.
    Number(u64),
}

/// An argument, over its view.
pub enum ArgView {
    Text(Seq<char>),
    Number(int),
}

impl View for Arg {
    type V = ArgView;

    open spec fn view(&self) -> ArgView {
        match self {
            Arg::Text(text) => ArgView::Text(text@),
            Arg::Number(n) => ArgView::Number(*n as int),
        }
    }
}

/// A Redis command.
#[derive(Debug, Clone)]
pub struct Command {
    pub name: String,
    pub args: Vec<Arg>,
}

/// A Redis command, over the views.
#[verifier::ext_equal]
pub struct CommandView {
    pub name: Seq<char>,
    pub args: Seq<ArgView>,
}

impl View for Command {
    type V = CommandView;

    open spec fn view(&self) -> CommandView {
        CommandView { name: self.name@, args: self.args@.map_values(|a: Arg| a@) }
    }
}

/// A call of a script with its keys and its arguments.
#[derive(Debug, Clone)]
pub struct ScriptCall {
    pub script: String,
    pub keys: Vec<String>,
    pub args: Vec<Arg>,
}

/// A call of a script, over the views.
#[verifier::ext_equal]
pub struct ScriptCallView {
    pub script: Seq<char>,
    pub keys: Seq<Seq<char>>,
    pub args: Seq<ArgView>,
}

impl View for ScriptCall {
    type V = ScriptCallView;

    open spec fn view(&self) -> ScriptCallView {
        ScriptCallView {
            script: self.script@,
            keys: self.keys@.map_values(|k: String| k@),
            args: self.args@.map_values(|a: Arg| a@),
        }
    }
}

/// The keys of every script that writes an entry: the hash, and all that a write has to look up
/// or to list its field in.
pub open spec fn write_keys(scope: Seq<char>) -> Seq<Seq<char>> {
    seq![
        key_of(KeyRole::Hash, scope),
        key_of(KeyRole::Active, scope),
        key_of(KeyRole::Phase, scope),
        key_of(KeyRole::Target, scope),
        key_of(KeyRole::Verify, scope),
    ]
}

/// The call that stores `text` under `key`.
pub open spec fn set_call_view(scope: Seq<char>, key: Seq<char>, text: Seq<char>) -> ScriptCallView {
    ScriptCallView {
        script: STATE_SET_SCRIPT@,
        keys: write_keys(scope),
        args: seq![ArgView::Text(key), ArgView::Text(text)],
    }
}

/// The call that applies the update steps written in `ops` to the entry under `key`.
pub open spec fn update_call_view(
    json_update_script: Seq<char>,
    scope: Seq<char>,
    key: Seq<char>,
    ops: Seq<char>,
) -> ScriptCallView {
    ScriptCallView {
        script: indexed_update_script(json_update_script),
        keys: write_keys(scope),
        args: seq![ArgView::Text(key), ArgView::Text(ops)],
    }
}

/// The call that removes the entry under `key`.
pub open spec fn delete_call_view(scope: Seq<char>, key: Seq<char>) -> ScriptCallView {
    ScriptCallView {
        script: STATE_DELETE_SCRIPT@,
        keys: write_keys(scope),
        args: seq![ArgView::Text(key)],
    }
}

/// The call that takes one step towards an exact index.
pub open spec fn reconcile_call_view(scope: Seq<char>) -> ScriptCallView {
    ScriptCallView {
        script: STATE_RECONCILE_SCRIPT@,
        keys: seq![
            key_of(KeyRole::Hash, scope),
            key_of(KeyRole::Active, scope),
            key_of(KeyRole::Phase, scope),
            key_of(KeyRole::Cursor, scope),
            key_of(KeyRole::Target, scope),
            key_of(KeyRole::Verify, scope),
        ],
        args: seq![],
    }
}

/// The call that reads a page of at most `limit` entries behind the cursor.
pub open spec fn list_page_call_view(
    scope: Seq<char>,
    cursor: Option<Seq<char>>,
    limit: nat,
) -> ScriptCallView {
    ScriptCallView {
        script: STATE_LIST_PAGE_SCRIPT@,
        keys: seq![key_of(KeyRole::Hash, scope), key_of(KeyRole::Active, scope)],
        args: match cursor {
            Some(c) => seq![
                ArgView::Text("1"@),
                ArgView::Text(c),
                ArgView::Number(limit as int),
            ],
            None => seq![
                ArgView::Text("0"@),
                ArgView::Text(Seq::empty()),
                ArgView::Number(limit as int),
            ],
        },
    }
}

/// The command that reads the entry under `key`.
pub open spec fn get_command_view(scope: Seq<char>, key: Seq<char>) -> CommandView {
    CommandView {
        name: "HGET"@,
        args: seq![ArgView::Text(key_of(KeyRole::Hash, scope)), ArgView::Text(key)],
    }
}

/// The command that reads all entries of a scope.
pub open spec fn list_command_view(scope: Seq<char>) -> CommandView {
    CommandView { name: "HGETALL"@, args: seq![ArgView::Text(key_of(KeyRole::Hash, scope))] }
}

fn write_key_list(scope: &str) -> (r: Vec<String>)
    ensures
        r@.map_values(|k: String| k@) == write_keys(scope@),
{
    let keys = state_keys(scope);
    let r = vec![keys.hash, keys.active, keys.phase, keys.target, keys.verify];
    assert(r@.map_values(|k: String| k@) =~= write_keys(scope@));
    r
}

/// The call that stores a value under a key, given the outcome of writing the value as text.
pub fn set_call_with(scope: &str, key: &str, written: Result<String, String>) -> (r: Result<
    ScriptCall,
    StateError,
>)
    ensures
        outcome(r) == match written {
            Ok(text) => Ok::<ScriptCallView, Seq<char>>(set_call_view(scope@, key@, text@)),
            Err(e) => Err("Failed to serialize value: "@ + e@),
        },
{
    match written {
        Ok(text) => {
            let args = vec![Arg::Text(key.to_string()), Arg::Text(text)];
            let call = ScriptCall {
                script: STATE_SET_SCRIPT.to_string(),
                keys: write_key_list(scope),
                args,
            };
            assert(call@ =~= set_call_view(scope@, key@, text@));
            Ok(call)
        },
        Err(e) => Err(StateError::because("Failed to serialize value: ", e.as_str())),
    }
}

/// The call that stores a value under a key. It replaces what is there. A value whose numbers are
/// whole, and that is not nested too deeply, is read back from the stored text as it was.
pub fn set_call(scope: &str, key: &str, value: &Value) -> (r: Result<ScriptCall, StateError>)
    ensures
        outcome(r) == match json_text(*value) {
            Ok(text) => Ok::<ScriptCallView, Seq<char>>(set_call_view(scope@, key@, text)),
            Err(e) => Err("Failed to serialize value: "@ + e),
        },
        r is Ok,
        json_text(*value) matches Ok(text) ==> reads_back(text) ==> json_value(text) == Ok::<
            Value,
            Seq<char>,
        >(*value),
{
    set_call_with(scope, key, render_value(value))
}

/// The command that reads the entry under a key.
pub fn get_command(scope: &str, key: &str) -> (r: Command)
    ensures
        r@ == get_command_view(scope@, key@),
{
    let args = vec![Arg::Text(state_keys(scope).hash), Arg::Text(key.to_string())];
    let r = Command { name: "HGET".to_string(), args };
    assert(r@ =~= get_command_view(scope@, key@));
    r
}

/// The call that updates the entry under a key, given the outcome of writing the steps as text.
pub fn update_call_with(
    json_update_script: &str,
    scope: &str,
    key: &str,
    written: Result<String, String>,
) -> (r: Result<ScriptCall, StateError>)
    ensures
        outcome(r) == match written {
            Ok(ops) => Ok::<ScriptCallView, Seq<char>>(
                update_call_view(json_update_script@, scope@, key@, ops@),
            ),
            Err(e) => Err("Failed to serialize update operations: "@ + e@),
        },
{
    match written {
        Ok(ops) => {
            let args = vec![Arg::Text(key.to_string()), Arg::Text(ops)];
            let call = ScriptCall {
                script: state_json_update_script(json_update_script),
                keys: write_key_list(scope),
                args,
            };
            assert(call@ =~= update_call_view(json_update_script@, scope@, key@, ops@));
            Ok(call)
        },
        Err(e) => Err(StateError::because("Failed to serialize update operations: ", e.as_str())),
    }
}

/// The call that applies update steps to the entry under a key, all in one atomic step.
/// `json_update_script` is the script that updates a field of a hash.
pub fn update_call(
    json_update_script: &str,
    scope: &str,
    key: &str,
    ops: &Vec<UpdateOp>,
) -> (r: Result<ScriptCall, StateError>)
    ensures
        outcome(r) == match json_ops_text(ops@) {
            Ok(text) => Ok::<ScriptCallView, Seq<char>>(
                update_call_view(json_update_script@, scope@, key@, text),
            ),
            Err(e) => Err("Failed to serialize update operations: "@ + e),
        },
        r is Ok,
{
    update_call_with(json_update_script, scope, key, render_ops(ops))
}

/// The call that removes the entry under a key.
pub fn delete_call(scope: &str, key: &str) -> (r: ScriptCall)
    ensures
        r@ == delete_call_view(scope@, key@),
{
    let args = vec![Arg::Text(key.to_string())];
    let r = ScriptCall {
        script: STATE_DELETE_SCRIPT.to_string(),
        keys: write_key_list(scope),
        args,
    };
    assert(r@ =~= delete_call_view(scope@, key@));
    r
}

/// The command that reads all entries of a scope.
pub fn list_command(scope: &str) -> (r: Command)
    ensures
        r@ == list_command_view(scope@),
{
    let args = vec![Arg::Text(state_keys(scope).hash)];
    let r = Command { name: "HGETALL".to_string(), args };
    assert(r@ =~= list_command_view(scope@));
    r
}

/// The call that takes one step towards an exact index.
pub fn reconcile_call(scope: &str) -> (r: ScriptCall)
    ensures
        r@ == reconcile_call_view(scope@),
{
    let keys = state_keys(scope);
    let r = ScriptCall {
        script: STATE_RECONCILE_SCRIPT.to_string(),
        keys: vec![keys.hash, keys.active, keys.phase, keys.cursor, keys.target, keys.verify],
        args: Vec::new(),
    };
    assert(r@ =~= reconcile_call_view(scope@));
    r
}

/// The call that reads a page of at most `limit` entries. With a cursor, the page begins behind
/// it; an empty cursor is a cursor.
pub fn list_page_call(scope: &str, cursor: Option<&str>, limit: usize) -> (r: ScriptCall)
    ensures
        r@ == list_page_call_view(
            scope@,
            match cursor {
                Some(c) => Some(c@),
                None => None,
            },
            limit as nat,
        ),
{
    let keys = state_keys(scope);
    let (given, from) = match cursor {
        Some(c) => ("1".to_string(), c.to_string()),
        None => ("0".to_string(), String::new()),
    };
    let args = vec![Arg::Text(given), Arg::Text(from), Arg::Number(limit as u64)];
    let r = ScriptCall {
        script: STATE_LIST_PAGE_SCRIPT.to_string(),
        keys: vec![keys.hash, keys.active],
        args,
    };
    assert(r@ =~= list_page_call_view(
        scope@,
        match cursor {
            Some(c) => Some(c@),
            None => None,
        },
        limit as nat,
    ));
    r
}

} // verus!
