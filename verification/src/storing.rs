//! What reading an entry gives, after it was stored, updated or removed.

use crate::calls::delete_call_view;
use crate::calls::get_command_view;
use crate::calls::set_call_view;
use crate::calls::write_keys;
use crate::effects::run_delete;
use crate::effects::run_get;
use crate::effects::run_set;
use crate::effects::write_entry;
use crate::entries::get_outcome;
use crate::entries::set_outcome;
use crate::index::fields;
use crate::index::lemma_own_keys_differ;
use crate::index::pages_are_exact;
use crate::index::rebuild_inv;
use crate::json::json_text;
use crate::json::json_value;
use crate::keys::key_of;
use crate::keys::law_keys_do_not_collide;
use crate::keys::KeyRole;
use crate::keyspace::Keyspace;
use crate::structs::StreamSetResult;
use serde_json::Value;
use vstd::prelude::*;

verus! {

/// What `HGET` answers for an entry.
pub open spec fn stored(ks: Keyspace, scope: Seq<char>, key: Seq<char>) -> Option<Seq<char>> {
    run_get(ks, get_command_view(scope, key)).1
}

/// What reading an entry gives.
pub open spec fn got(ks: Keyspace, scope: Seq<char>, key: Seq<char>) -> Result<
    Option<Value>,
    Seq<char>,
> {
    get_outcome(Ok(stored(ks, scope, key)))
}

/// Reading an entry changes nothing, so reading it again gives the same.
pub proof fn law_get_changes_nothing(ks: Keyspace, scope: Seq<char>, key: Seq<char>)
    ensures
        run_get(ks, get_command_view(scope, key)).0 == ks,
        got(run_get(ks, get_command_view(scope, key)).0, scope, key) == got(ks, scope, key),
{
}

/// What was written is what is stored. All other entries, of this and of other scopes, stay as
/// they are.
pub proof fn law_a_write_changes_one_entry(
    ks: Keyspace,
    scope: Seq<char>,
    key: Seq<char>,
    text: Seq<char>,
    other_scope: Seq<char>,
    other_key: Seq<char>,
)
    ensures
        ({
            let after = write_entry(ks, write_keys(scope), key, text);
            &&& stored(after, scope, key) == Some(text)
            &&& (other_scope, other_key) != (scope, key) ==> stored(after, other_scope, other_key)
                == stored(ks, other_scope, other_key)
        }),
{
    if other_scope != scope {
        law_keys_do_not_collide(KeyRole::Hash, scope, KeyRole::Hash, other_scope);
    }
}

/// An entry that was stored is what is read, until it is written again or removed; and storing it
/// answers with what was there before. All other entries, of this and of other scopes, stay as they
/// are.
pub proof fn law_set_changes_one_entry(
    ks: Keyspace,
    scope: Seq<char>,
    key: Seq<char>,
    text: Seq<char>,
    other_scope: Seq<char>,
    other_key: Seq<char>,
)
    ensures
        ({
            let (after, old) = run_set(ks, set_call_view(scope, key, text));
            &&& old == stored(ks, scope, key)
            &&& stored(after, scope, key) == Some(text)
            &&& (other_scope, other_key) != (scope, key) ==> stored(after, other_scope, other_key)
                == stored(ks, other_scope, other_key)
        }),
{
    law_a_write_changes_one_entry(ks, scope, key, text, other_scope, other_key);
}

/// Storing a value reports it as the new one, and a former one exactly where an entry was stored
/// under that scope and key.
pub proof fn law_set_reports_a_former_value_where_there_was_one(
    ks: Keyspace,
    scope: Seq<char>,
    key: Seq<char>,
    value: Value,
)
    ensures
        json_text(value) matches Ok(text) ==> {
            let old = run_set(ks, set_call_view(scope, key, text)).1;
            &&& set_outcome(Ok(old), value) matches Ok(report)
            &&& report.new_value == value
            &&& report.old_value is Some <==> stored(ks, scope, key) is Some
            &&& got(ks, scope, key) matches Ok(before) ==> report.old_value == before
        },
{
}

/// A value that the codec reads back as it was written is what is read once it was stored. Reading
/// any other entry gives what it gave before.
pub proof fn law_get_after_set(
    ks: Keyspace,
    scope: Seq<char>,
    key: Seq<char>,
    value: Value,
    other_scope: Seq<char>,
    other_key: Seq<char>,
)
    ensures
        json_text(value) matches Ok(text) ==> {
            let after = run_set(ks, set_call_view(scope, key, text)).0;
            &&& json_value(text) == Ok::<Value, Seq<char>>(value) ==> got(after, scope, key)
                == Ok::<Option<Value>, Seq<char>>(Some(value))
            &&& (other_scope, other_key) != (scope, key) ==> got(after, other_scope, other_key)
                == got(ks, other_scope, other_key)
        },
{
    if let Ok(text) = json_text(value) {
        law_set_changes_one_entry(ks, scope, key, text, other_scope, other_key);
    }
}

/// An entry that was removed is not there. Reading any other entry gives what it gave before.
pub proof fn law_get_after_delete(
    ks: Keyspace,
    scope: Seq<char>,
    key: Seq<char>,
    other_scope: Seq<char>,
    other_key: Seq<char>,
)
    ensures
        ({
            let after = run_delete(ks, delete_call_view(scope, key));
            &&& got(after, scope, key) == Ok::<Option<Value>, Seq<char>>(None)
            &&& (other_scope, other_key) != (scope, key) ==> {
                &&& stored(after, other_scope, other_key) == stored(ks, other_scope, other_key)
                &&& got(after, other_scope, other_key) == got(ks, other_scope, other_key)
            }
        }),
{
    if other_scope != scope {
        law_keys_do_not_collide(KeyRole::Hash, scope, KeyRole::Hash, other_scope);
    }
}

/// Storing a second value reports the first one as the former value, also where it is `null`, and
/// the second as the new one. Where the two are the same, the second time changes nothing: neither
/// the entries nor any index.
pub proof fn law_storing_twice(
    ks: Keyspace,
    scope: Seq<char>,
    key: Seq<char>,
    first: Value,
    second: Value,
)
    ensures
        json_text(first) matches Ok(first_text) ==> json_text(second) matches Ok(second_text) ==> {
            let once = run_set(ks, set_call_view(scope, key, first_text)).0;
            let (twice, old) = run_set(once, set_call_view(scope, key, second_text));
            &&& json_value(first_text) == Ok::<Value, Seq<char>>(first) ==> set_outcome(
                Ok(old),
                second,
            ) == Ok::<StreamSetResult, Seq<char>>(
                StreamSetResult { old_value: Some(first), new_value: second },
            )
            &&& first == second ==> twice == once
        },
{
    if let Ok(text) = json_text(first) {
        law_set_changes_one_entry(ks, scope, key, text, scope, key);
        let once = run_set(ks, set_call_view(scope, key, text)).0;
        let twice = run_set(once, set_call_view(scope, key, text)).0;
        let hash = key_of(KeyRole::Hash, scope);
        assert(once.hash(hash).insert(key, text) =~= once.hash(hash));
        assert(twice.hashes =~= once.hashes);
        assert(twice.strings == once.strings);
        assert forall|k: Seq<char>| #[trigger] twice.zsets.contains_key(k) implies twice.zsets[k]
            == once.zsets[k] by {
            assert(twice.zsets[k] =~= once.zsets[k]);
        }
        assert(twice.zsets =~= once.zsets);
    }
}

/// Removing an entry undoes storing it where there was none: the entries are what they were, and
/// so are the active index, where it is exact, and the sets of a rebuild, where it is sound.
pub proof fn law_delete_undoes_set(
    ks: Keyspace,
    scope: Seq<char>,
    key: Seq<char>,
    text: Seq<char>,
)
    requires
        stored(ks, scope, key) is None,
    ensures
        ({
            let after = run_delete(
                run_set(ks, set_call_view(scope, key, text)).0,
                delete_call_view(scope, key),
            );
            let hash = key_of(KeyRole::Hash, scope);
            &&& after.strings == ks.strings
            &&& after.hash(hash) == ks.hash(hash)
            &&& pages_are_exact(ks, scope) ==> (ks.text_at(key_of(KeyRole::Active, scope)) matches
                Some(active) ==> after.zset(active) == ks.zset(active))
            &&& rebuild_inv(ks, scope) && ks.text_at(key_of(KeyRole::Phase, scope)) is Some ==> {
                let target = key_of(KeyRole::Target, scope);
                let verify = key_of(KeyRole::Verify, scope);
                &&& after.zset(target) == ks.zset(target)
                &&& after.zset(verify) == ks.zset(verify)
            }
        }),
{
    lemma_own_keys_differ(scope);
    let after = run_delete(
        run_set(ks, set_call_view(scope, key, text)).0,
        delete_call_view(scope, key),
    );
    let hash = key_of(KeyRole::Hash, scope);
    assert(after.hash(hash) =~= ks.hash(hash));
    assert(!fields(ks, scope).contains(key));
    if let Some(active) = ks.text_at(key_of(KeyRole::Active, scope)) {
        if pages_are_exact(ks, scope) {
            assert(after.zset(active) =~= ks.zset(active));
        }
    }
    if rebuild_inv(ks, scope) && ks.text_at(key_of(KeyRole::Phase, scope)) is Some {
        let target = key_of(KeyRole::Target, scope);
        let verify = key_of(KeyRole::Verify, scope);
        assert(after.zset(target) =~= ks.zset(target));
        assert(after.zset(verify) =~= ks.zset(verify));
    }
}

/// Removing an entry again changes nothing.
pub proof fn law_removing_twice(ks: Keyspace, scope: Seq<char>, key: Seq<char>)
    ensures
        ({
            let once = run_delete(ks, delete_call_view(scope, key));
            run_delete(once, delete_call_view(scope, key)) == once
        }),
{
    let once = run_delete(ks, delete_call_view(scope, key));
    let twice = run_delete(once, delete_call_view(scope, key));
    let hash = key_of(KeyRole::Hash, scope);
    assert(once.hash(hash).remove(key) =~= once.hash(hash));
    assert(twice.hashes =~= once.hashes);
    assert forall|k: Seq<char>| #[trigger] twice.zsets.contains_key(k) implies twice.zsets[k]
        == once.zsets[k] by {
        assert(twice.zsets[k] =~= once.zsets[k]);
    }
    assert(twice.zsets =~= once.zsets);
}

} // verus!
