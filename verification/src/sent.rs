//! What is sent to Redis, in terms of what an operation is given.
//!
//! Each law takes what goes into a function and what came out of it, and says what the one has to
//! do with the other, down to the texts on the wire.

use crate::calls::delete_call;
use crate::calls::get_command;
use crate::calls::list_command;
use crate::calls::list_page_call;
use crate::calls::reconcile_call;
use crate::calls::set_call;
use crate::calls::set_call_with;
use crate::calls::update_call;
use crate::calls::update_call_with;
use crate::calls::Arg;
use crate::calls::Command;
use crate::calls::ScriptCall;
use crate::effects::index_field_text;
use crate::error::StateError;
use crate::json::json_ops_text;
use crate::json::json_text;
use crate::json::json_value;
use crate::json::reads_back;
use crate::keys::state_keys;
use crate::keys::StateKeys;
use crate::reported::fails_with;
use crate::reported::is_no_page;
use crate::reported::is_page_of;
use crate::reported::lemma_page;
use crate::request::PageRequest;
use crate::scripts::law_update_script_indexes_its_write;
use crate::scripts::state_json_update_script;
use crate::scripts::STATE_DELETE_SCRIPT;
use crate::scripts::STATE_LIST_PAGE_SCRIPT;
use crate::scripts::STATE_RECONCILE_SCRIPT;
use crate::scripts::STATE_SET_SCRIPT;
use crate::structs::StateListPageResult;
use crate::text::occurs_at;
use iii_helpers::stream::UpdateOp;
use serde_json::Value;
use vstd::prelude::*;

verus! {

/// The keys of a scope are its name behind a fixed prefix each, and one of them before a fixed end.
pub proof fn law_keys_spell_out_the_scope(scope: &str, keys: StateKeys)
    requires
        call_ensures(state_keys, (scope,), keys),
    ensures
        keys.hash@ == "state:"@ + scope@,
        keys.active@ == "iii:state-index-active:"@ + scope@,
        keys.phase@ == "iii:state-index-phase:"@ + scope@,
        keys.cursor@ == "iii:state-index-cursor:"@ + scope@,
        keys.target@ == "iii:state-index:"@ + scope@ + ":v1"@,
        keys.verify@ == "iii:state-index-verify:"@ + scope@,
{
}

/// The argument is this text.
pub open spec fn is_text(arg: Arg, text: Seq<char>) -> bool {
    arg matches Arg::Text(t) && t@ == text
}

/// The argument is this number.
pub open spec fn is_number(arg: Arg, number: int) -> bool {
    arg matches Arg::Number(n) && n == number
}

/// A call that writes an entry of a scope: with its script, under its key, and with what it is
/// given beside.
pub open spec fn writes_entry(
    call: ScriptCall,
    script: Seq<char>,
    scope: Seq<char>,
    args: Seq<Seq<char>>,
) -> bool {
    &&& call.script@ == script
    &&& call.keys@.len() == 5
    &&& call.keys@[0]@ == "state:"@ + scope
    &&& call.keys@[1]@ == "iii:state-index-active:"@ + scope
    &&& call.keys@[2]@ == "iii:state-index-phase:"@ + scope
    &&& call.keys@[3]@ == "iii:state-index:"@ + scope + ":v1"@
    &&& call.keys@[4]@ == "iii:state-index-verify:"@ + scope
    &&& call.args@.len() == args.len()
    &&& forall|i: int| 0 <= i < args.len() ==> is_text(call.args@[i], #[trigger] args[i])
}

/// A call is told by its texts.
proof fn lemma_call_texts(call: ScriptCall)
    ensures
        call@.script == call.script@,
        call@.keys.len() == call.keys@.len(),
        forall|i: int|
            #![trigger call.keys@[i]]
            0 <= i < call.keys@.len() ==> call@.keys[i] == call.keys@[i]@,
        call@.args.len() == call.args@.len(),
        forall|i: int|
            #![trigger call.args@[i]]
            0 <= i < call.args@.len() ==> call@.args[i] == call.args@[i]@,
{
}

/// Storing a value sends the script that stores, the keys that a write needs, the key of the entry
/// and the value as the codec writes it, whatever the value. Where that text has whole numbers and
/// is not nested too deeply it is read back as the value.
pub proof fn law_set_sends_the_value(
    scope: &str,
    key: &str,
    value: &Value,
    r: Result<ScriptCall, StateError>,
)
    requires
        call_ensures(set_call, (scope, key, value), r),
    ensures
        r matches Ok(call) && json_text(*value) matches Ok(text) && {
            &&& writes_entry(call, STATE_SET_SCRIPT@, scope@, seq![key@, text])
            &&& reads_back(text) ==> json_value(text) == Ok::<Value, Seq<char>>(*value)
        },
{
    lemma_call_texts(r->Ok_0);
}

/// A value that was written is sent as its text; one that could not be written is not sent, and the
/// error says why.
pub proof fn law_set_sends_what_was_written(
    scope: &str,
    key: &str,
    written: Result<String, String>,
    r: Result<ScriptCall, StateError>,
)
    requires
        call_ensures(set_call_with, (scope, key, written), r),
    ensures
        match written {
            Ok(text) => r matches Ok(call) && writes_entry(
                call,
                STATE_SET_SCRIPT@,
                scope@,
                seq![key@, text@],
            ),
            Err(why) => r matches Err(e) && e.message@ == "Failed to serialize value: "@ + why@,
        },
{
    if let Ok(call) = r {
        lemma_call_texts(call);
    }
}

/// The script of an update is the given one, with the text that indexes the field put in right
/// behind the first write of the new value, and nowhere else. A script without that write is sent
/// as it is.
pub proof fn law_update_script_is_the_given_one_indexed(script: &str, r: String)
    requires
        call_ensures(state_json_update_script, (script,), r),
    ensures
        ({
            let write = "redis.call('HSET', key, field, new_value_str)"@;
            ||| r@ == script@ && forall|i: int| !#[trigger] occurs_at(script@, write, i)
            ||| exists|i: int|
                {
                    &&& #[trigger] occurs_at(script@, write, i)
                    &&& forall|j: int| 0 <= j < i ==> !#[trigger] occurs_at(script@, write, j)
                    &&& r@ == script@.subrange(0, i + write.len()) + index_field_text()
                        + script@.subrange(i + write.len(), script@.len() as int)
                }
        }),
{
    law_update_script_indexes_its_write(script@);
}

/// An update sends that script, the keys that a write needs, the key of the entry and the steps as
/// the codec writes them, whatever the steps.
pub proof fn law_update_sends_the_steps(
    json_update_script: &str,
    scope: &str,
    key: &str,
    ops: &Vec<UpdateOp>,
    script: String,
    r: Result<ScriptCall, StateError>,
)
    requires
        call_ensures(state_json_update_script, (json_update_script,), script),
        call_ensures(update_call, (json_update_script, scope, key, ops), r),
    ensures
        r matches Ok(call) && json_ops_text(ops@) matches Ok(text) && writes_entry(
            call,
            script@,
            scope@,
            seq![key@, text],
        ),
{
    lemma_call_texts(r->Ok_0);
}

/// Steps that were written are sent as their text; steps that could not be written are not sent, and
/// the error says why.
pub proof fn law_update_sends_what_was_written(
    json_update_script: &str,
    scope: &str,
    key: &str,
    written: Result<String, String>,
    script: String,
    r: Result<ScriptCall, StateError>,
)
    requires
        call_ensures(state_json_update_script, (json_update_script,), script),
        call_ensures(update_call_with, (json_update_script, scope, key, written), r),
    ensures
        match written {
            Ok(text) => r matches Ok(call) && writes_entry(
                call,
                script@,
                scope@,
                seq![key@, text@],
            ),
            Err(why) => r matches Err(e) && e.message@
                == "Failed to serialize update operations: "@ + why@,
        },
{
    if let Ok(call) = r {
        lemma_call_texts(call);
    }
}

/// Removing an entry sends the script that removes, the keys that a write needs, and the key of the
/// entry.
pub proof fn law_delete_sends_the_key(scope: &str, key: &str, call: ScriptCall)
    requires
        call_ensures(delete_call, (scope, key), call),
    ensures
        writes_entry(call, STATE_DELETE_SCRIPT@, scope@, seq![key@]),
{
    lemma_call_texts(call);
}

/// Reading an entry asks for that field of the hash of the scope.
pub proof fn law_get_asks_for_the_field(scope: &str, key: &str, command: Command)
    requires
        call_ensures(get_command, (scope, key), command),
    ensures
        command.name@ == "HGET"@,
        command.args@.len() == 2,
        is_text(command.args@[0], "state:"@ + scope@),
        is_text(command.args@[1], key@),
{
    assert(command@.args.len() == command.args@.len());
    assert(command@.args[0] == command.args@[0]@);
    assert(command@.args[1] == command.args@[1]@);
}

/// Reading all entries asks for the hash of the scope.
pub proof fn law_list_asks_for_the_hash(scope: &str, command: Command)
    requires
        call_ensures(list_command, (scope,), command),
    ensures
        command.name@ == "HGETALL"@,
        command.args@.len() == 1,
        is_text(command.args@[0], "state:"@ + scope@),
{
    assert(command@.args.len() == command.args@.len());
    assert(command@.args[0] == command.args@[0]@);
}

/// The call takes a step of reconciliation: with its script and all keys of the scope.
pub open spec fn asks_to_reconcile(call: ScriptCall, scope: Seq<char>) -> bool {
    &&& call.script@ == STATE_RECONCILE_SCRIPT@
    &&& call.keys@.len() == 6
    &&& call.keys@[0]@ == "state:"@ + scope
    &&& call.keys@[1]@ == "iii:state-index-active:"@ + scope
    &&& call.keys@[2]@ == "iii:state-index-phase:"@ + scope
    &&& call.keys@[3]@ == "iii:state-index-cursor:"@ + scope
    &&& call.keys@[4]@ == "iii:state-index:"@ + scope + ":v1"@
    &&& call.keys@[5]@ == "iii:state-index-verify:"@ + scope
    &&& call.args@.len() == 0
}

/// The call asks for a page: with its script, the hash and the pointer to the active index, with
/// whether there is a cursor, the cursor itself, and the limit. An empty cursor is a cursor.
pub open spec fn asks_for_page(
    call: ScriptCall,
    scope: Seq<char>,
    cursor: Option<Seq<char>>,
    limit: int,
) -> bool {
    &&& call.script@ == STATE_LIST_PAGE_SCRIPT@
    &&& call.keys@.len() == 2
    &&& call.keys@[0]@ == "state:"@ + scope
    &&& call.keys@[1]@ == "iii:state-index-active:"@ + scope
    &&& call.args@.len() == 3
    &&& match cursor {
        Some(c) => is_text(call.args@[0], "1"@) && is_text(call.args@[1], c),
        None => is_text(call.args@[0], "0"@) && is_text(call.args@[1], Seq::empty()),
    }
    &&& is_number(call.args@[2], limit)
}

/// A step of reconciliation sends its script and all keys of the scope.
pub proof fn law_reconciliation_sends_all_keys(scope: &str, call: ScriptCall)
    requires
        call_ensures(reconcile_call, (scope,), call),
    ensures
        asks_to_reconcile(call, scope@),
{
    lemma_call_texts(call);
}

/// A page is asked for with the cursor and the limit that were given.
pub proof fn law_a_page_is_asked_for_as_given(
    scope: &str,
    cursor: Option<&str>,
    limit: usize,
    call: ScriptCall,
)
    requires
        call_ensures(list_page_call, (scope, cursor, limit), call),
    ensures
        asks_for_page(
            call,
            scope@,
            match cursor {
                Some(c) => Some(c@),
                None => None,
            },
            limit as int,
        ),
{
    lemma_call_texts(call);
}

/// Reading a page begins with a step of reconciliation, whatever is asked for. Where that fails,
/// its failure is the end. Else, whatever it answered, the page is asked for with the cursor and the
/// limit that were given, and what comes back is the end: the page of that answer, or why there is
/// none.
pub proof fn law_a_page_is_read_after_a_reconciliation(
    scope: &str,
    cursor: Option<&str>,
    limit: usize,
    start: PageRequest,
    first: ScriptCall,
    reply: Result<Vec<String>, String>,
    middle: PageRequest,
    end: Option<Result<StateListPageResult, StateError>>,
    second: ScriptCall,
    page_reply: Result<Vec<String>, String>,
    last: PageRequest,
    page: Option<Result<StateListPageResult, StateError>>,
)
    requires
        call_ensures(PageRequest::start, (scope, cursor, limit), start),
        call_ensures(PageRequest::call, (&start,), first),
        exists|s: &mut PageRequest|
            *s == start && *final(s) == middle && call_ensures(
                PageRequest::absorb,
                (s, reply),
                end,
            ),
        call_ensures(PageRequest::call, (&middle,), second),
        exists|s: &mut PageRequest|
            *s == middle && *final(s) == last && call_ensures(
                PageRequest::absorb,
                (s, page_reply),
                page,
            ),
    ensures
        asks_to_reconcile(first, scope@),
        match reply {
            Err(why) => end matches Some(r) && fails_with(
                r,
                "Failed to reconcile state pagination index: "@ + why@,
            ),
            Ok(_) => {
                &&& end is None
                &&& asks_for_page(
                    second,
                    scope@,
                    match cursor {
                        Some(c) => Some(c@),
                        None => None,
                    },
                    limit as int,
                )
                &&& page matches Some(r)
                &&& match page_reply {
                    Err(why) => fails_with(r, "Failed to list state page: "@ + why@),
                    Ok(values) => match r {
                        Ok(p) => is_page_of(p, values@),
                        Err(e) => is_no_page(e, values@),
                    },
                }
            },
        },
{
    lemma_call_texts(first);
    lemma_call_texts(second);
    if reply is Ok {
        if let Ok(values) = page_reply {
            lemma_page(values@, page->0);
        }
    }
}

} // verus!
