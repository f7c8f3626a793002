//! What holds of the pagination index, whatever is written and whatever steps of reconciliation run
//! in between.

use crate::calls::delete_call_view;
use crate::calls::reconcile_call_view;
use crate::calls::set_call_view;
use crate::calls::update_call_view;
use crate::calls::write_keys;
use crate::effects::run_delete;
use crate::effects::run_reconcile;
use crate::effects::run_set;
use crate::effects::write_entry;
use crate::effects::HashBatch;
use crate::keys::key_of;
use crate::keys::law_keys_do_not_collide;
use crate::keys::KeyRole;
use crate::keyspace::Keyspace;
use vstd::prelude::*;

verus! {

/// The fields of a scope.
pub open spec fn fields(ks: Keyspace, scope: Seq<char>) -> Set<Seq<char>> {
    ks.hash(key_of(KeyRole::Hash, scope)).dom()
}

/// The index that the pages of a scope are read from lists exactly its fields.
pub open spec fn pages_are_exact(ks: Keyspace, scope: Seq<char>) -> bool {
    ks.text_at(key_of(KeyRole::Active, scope)) matches Some(active) ==> ks.zset(active) == fields(
        ks,
        scope,
    )
}

/// A rebuild of the index has listed no field that is not there.
pub open spec fn rebuild_inv(ks: Keyspace, scope: Seq<char>) -> bool {
    &&& fields(ks, scope).finite()
    &&& ks.text_at(key_of(KeyRole::Phase, scope)) is Some ==> {
        &&& ks.zset(key_of(KeyRole::Target, scope)).subset_of(fields(ks, scope))
        &&& ks.zset(key_of(KeyRole::Verify, scope)).subset_of(fields(ks, scope))
    }
}

/// What holds of the data of a scope at all times. Pages are exact. A rebuild has listed no field
/// that is not there, and works on sets that no page is read from.
pub open spec fn index_inv(ks: Keyspace, scope: Seq<char>) -> bool {
    let active = ks.text_at(key_of(KeyRole::Active, scope));
    &&& rebuild_inv(ks, scope)
    &&& pages_are_exact(ks, scope)
    &&& active != Some(key_of(KeyRole::Verify, scope))
    &&& ks.text_at(key_of(KeyRole::Phase, scope)) is Some ==> active != Some(
        key_of(KeyRole::Target, scope),
    )
}

/// The target is the active index, and no rebuild runs.
pub open spec fn is_ready(ks: Keyspace, scope: Seq<char>) -> bool {
    &&& ks.text_at(key_of(KeyRole::Active, scope)) == Some(key_of(KeyRole::Target, scope))
    &&& ks.text_at(key_of(KeyRole::Phase, scope)) is None
}

/// What holds of the data of a scope holds still, and the active index is the same.
pub open spec fn index_kept(ks: Keyspace, after: Keyspace, scope: Seq<char>) -> bool {
    &&& index_inv(after, scope)
    &&& after.text_at(key_of(KeyRole::Active, scope)) == ks.text_at(key_of(KeyRole::Active, scope))
}

/// The keys of a scope all differ.
pub proof fn lemma_own_keys_differ(scope: Seq<char>)
    ensures
        forall|a: KeyRole, b: KeyRole|
            #![trigger key_of(a, scope), key_of(b, scope)]
            a != b ==> key_of(a, scope) != key_of(b, scope),
{
    assert forall|a: KeyRole, b: KeyRole|
        #![trigger key_of(a, scope), key_of(b, scope)]
        a != b implies key_of(a, scope) != key_of(b, scope) by {
        law_keys_do_not_collide(a, scope, b, scope);
    }
}

/// A scope that was never indexed needs nothing to begin with.
pub proof fn law_index_may_be_missing(ks: Keyspace, scope: Seq<char>)
    requires
        fields(ks, scope).finite(),
        ks.text_at(key_of(KeyRole::Active, scope)) is None,
        ks.text_at(key_of(KeyRole::Phase, scope)) is None,
    ensures
        index_inv(ks, scope),
{
}

/// Writing and removing entries keeps pages exact, whatever a rebuild has listed.
pub proof fn law_writes_keep_pages_exact(
    ks: Keyspace,
    scope: Seq<char>,
    key: Seq<char>,
    text: Seq<char>,
)
    requires
        pages_are_exact(ks, scope),
    ensures
        pages_are_exact(run_set(ks, set_call_view(scope, key, text)).0, scope),
        pages_are_exact(write_entry(ks, write_keys(scope), key, text), scope),
        pages_are_exact(run_delete(ks, delete_call_view(scope, key)), scope),
{
    lemma_own_keys_differ(scope);
    if let Some(active) = ks.text_at(key_of(KeyRole::Active, scope)) {
        let written = write_entry(ks, write_keys(scope), key, text);
        assert(written.zset(active) =~= ks.zset(active).insert(key));
        assert(fields(written, scope) =~= fields(ks, scope).insert(key));
        let removed = run_delete(ks, delete_call_view(scope, key));
        assert(removed.zset(active) =~= ks.zset(active).remove(key));
        assert(fields(removed, scope) =~= fields(ks, scope).remove(key));
    }
}

/// Writing and removing entries keeps a rebuild sound, whatever the active index lists.
pub proof fn law_writes_keep_a_rebuild_sound(
    ks: Keyspace,
    scope: Seq<char>,
    key: Seq<char>,
    text: Seq<char>,
)
    requires
        rebuild_inv(ks, scope),
    ensures
        rebuild_inv(run_set(ks, set_call_view(scope, key, text)).0, scope),
        rebuild_inv(write_entry(ks, write_keys(scope), key, text), scope),
        rebuild_inv(run_delete(ks, delete_call_view(scope, key)), scope),
{
    lemma_own_keys_differ(scope);
    let written = write_entry(ks, write_keys(scope), key, text);
    assert(fields(written, scope) =~= fields(ks, scope).insert(key));
    let removed = run_delete(ks, delete_call_view(scope, key));
    assert(fields(removed, scope) =~= fields(ks, scope).remove(key));
}

/// Writing an entry keeps the index: the field is listed wherever the fields of the scope are. It
/// does not change which index is active.
proof fn lemma_write_keeps_the_index(
    ks: Keyspace,
    scope: Seq<char>,
    key: Seq<char>,
    text: Seq<char>,
)
    requires
        index_inv(ks, scope),
    ensures
        index_kept(ks, write_entry(ks, write_keys(scope), key, text), scope),
        fields(write_entry(ks, write_keys(scope), key, text), scope) == fields(ks, scope).insert(
            key,
        ),
{
    lemma_own_keys_differ(scope);
    let after = write_entry(ks, write_keys(scope), key, text);
    assert(fields(after, scope) =~= fields(ks, scope).insert(key));
    if let Some(active) = ks.text_at(key_of(KeyRole::Active, scope)) {
        assert(after.zset(active) =~= ks.zset(active).insert(key));
    }
}

/// Storing an entry keeps the index, and does not change which one is active.
pub proof fn law_set_keeps_the_index(
    ks: Keyspace,
    scope: Seq<char>,
    key: Seq<char>,
    text: Seq<char>,
)
    requires
        index_inv(ks, scope),
    ensures
        index_kept(ks, run_set(ks, set_call_view(scope, key, text)).0, scope),
        fields(run_set(ks, set_call_view(scope, key, text)).0, scope) == fields(ks, scope).insert(
            key,
        ),
{
    lemma_write_keeps_the_index(ks, scope, key, text);
}

/// So does the write of an update, whatever it writes: it is made with the keys of the call, and
/// followed by what indexes its field.
pub proof fn law_update_keeps_the_index(
    ks: Keyspace,
    json_update_script: Seq<char>,
    scope: Seq<char>,
    key: Seq<char>,
    ops: Seq<char>,
    text: Seq<char>,
)
    requires
        index_inv(ks, scope),
    ensures
        ({
            let keys = update_call_view(json_update_script, scope, key, ops).keys;
            &&& index_kept(ks, write_entry(ks, keys, key, text), scope)
            &&& fields(write_entry(ks, keys, key, text), scope) == fields(ks, scope).insert(key)
        }),
{
    lemma_write_keeps_the_index(ks, scope, key, text);
}

/// Removing an entry keeps the index: the field is listed nowhere any more. It does not change
/// which index is active.
pub proof fn law_delete_keeps_the_index(ks: Keyspace, scope: Seq<char>, key: Seq<char>)
    requires
        index_inv(ks, scope),
    ensures
        index_kept(ks, run_delete(ks, delete_call_view(scope, key)), scope),
        fields(run_delete(ks, delete_call_view(scope, key)), scope) == fields(ks, scope).remove(
            key,
        ),
{
    lemma_own_keys_differ(scope);
    let after = run_delete(ks, delete_call_view(scope, key));
    assert(fields(after, scope) =~= fields(ks, scope).remove(key));
    if let Some(active) = ks.text_at(key_of(KeyRole::Active, scope)) {
        assert(after.zset(active) =~= ks.zset(active).remove(key));
    }
}

/// A step of reconciliation leaves the entries alone, and a rebuild sound. Where the target is
/// active and no rebuild runs it does nothing. Else the target becomes active only when it lists
/// the fields exactly, whatever the index did that was active before; until that, the active index
/// stays what it is and the rebuild goes on.
pub proof fn law_reconciliation_publishes_only_exact_indexes(
    ks: Keyspace,
    scope: Seq<char>,
    batch: HashBatch,
)
    requires
        rebuild_inv(ks, scope),
        batch.fields.subset_of(fields(ks, scope)),
    ensures
        ({
            let (after, answer) = run_reconcile(ks, reconcile_call_view(scope), batch);
            let active = key_of(KeyRole::Active, scope);
            &&& rebuild_inv(after, scope)
            &&& after.hash(key_of(KeyRole::Hash, scope)) == ks.hash(key_of(KeyRole::Hash, scope))
            &&& if is_ready(ks, scope) {
                &&& answer == "ready"@
                &&& after == ks
            } else if answer == "ready"@ {
                &&& is_ready(after, scope)
                &&& after.zset(key_of(KeyRole::Target, scope)) == fields(after, scope)
                &&& index_inv(after, scope)
            } else {
                &&& answer == "building"@
                &&& after.text_at(active) == ks.text_at(active)
                &&& after.text_at(key_of(KeyRole::Phase, scope)) is Some
            }
        }),
{
    lemma_own_keys_differ(scope);
    lemma_answers_differ();
    let (after, answer) = run_reconcile(ks, reconcile_call_view(scope), batch);
    let target = key_of(KeyRole::Target, scope);
    let all = fields(ks, scope);
    assert(fields(after, scope) =~= all);
    if answer == "ready"@ && !is_ready(ks, scope) {
        let listed = after.zset(target);
        vstd::set_lib::lemma_len_subset(listed, all);
        vstd::set_lib::lemma_subset_equality(listed, all);
    }
}

/// A step of reconciliation keeps the index. Pages go on being read from the index that was active,
/// until the target is; and the answer says which of the two it is.
pub proof fn law_reconciliation_keeps_the_index(ks: Keyspace, scope: Seq<char>, batch: HashBatch)
    requires
        index_inv(ks, scope),
        batch.fields.subset_of(fields(ks, scope)),
    ensures
        ({
            let (after, answer) = run_reconcile(ks, reconcile_call_view(scope), batch);
            let active = key_of(KeyRole::Active, scope);
            let target = key_of(KeyRole::Target, scope);
            &&& index_inv(after, scope)
            &&& fields(after, scope) == fields(ks, scope)
            &&& after.text_at(active) == ks.text_at(active) || answer == "ready"@
            &&& answer == "ready"@ <==> after.text_at(active) == Some(target)
        }),
{
    lemma_own_keys_differ(scope);
    lemma_answers_differ();
    law_reconciliation_publishes_only_exact_indexes(ks, scope, batch);
}

/// A scope without an index, or with a former one, gets an exact one: where each scan of the hash
/// takes in all of its fields, the first step of reconciliation builds and the second one checks
/// and publishes.
pub proof fn law_two_whole_scans_publish(ks: Keyspace, scope: Seq<char>, batch: HashBatch)
    requires
        fields(ks, scope).finite(),
        ks.text_at(key_of(KeyRole::Active, scope)) != Some(key_of(KeyRole::Target, scope)),
        ks.text_at(key_of(KeyRole::Phase, scope)) is None,
        batch.cursor == "0"@,
        batch.fields == fields(ks, scope),
    ensures
        ({
            let call = reconcile_call_view(scope);
            let first = run_reconcile(ks, call, batch);
            let second = run_reconcile(first.0, call, batch);
            &&& first.1 == "building"@
            &&& first.0.text_at(key_of(KeyRole::Active, scope)) == ks.text_at(
                key_of(KeyRole::Active, scope),
            )
            &&& second.1 == "ready"@
            &&& second.0.text_at(key_of(KeyRole::Active, scope)) == Some(
                key_of(KeyRole::Target, scope),
            )
            &&& index_inv(second.0, scope)
        }),
{
    lemma_own_keys_differ(scope);
    lemma_answers_differ();
    let call = reconcile_call_view(scope);
    let first = run_reconcile(ks, call, batch).0;
    let target = key_of(KeyRole::Target, scope);
    let verify = key_of(KeyRole::Verify, scope);
    assert(fields(first, scope) =~= batch.fields);
    assert(first.zset(target) =~= batch.fields);
    assert(first.zset(verify) =~= Set::empty());
    let scanned = first.zadd(verify, batch.fields).with_text(key_of(KeyRole::Cursor, scope), "0"@);
    assert(scanned.zset(verify) =~= batch.fields);
    assert(scanned.zset(target) =~= batch.fields);
    assert(scanned.zset(target).difference(scanned.zset(verify)) =~= Set::empty());
    assert(scanned.zset(verify).difference(scanned.zset(target)) =~= Set::empty());
}

/// Under the key there is what was there before.
pub open spec fn untouched(ks: Keyspace, after: Keyspace, key: Seq<char>) -> bool {
    &&& after.text_at(key) == ks.text_at(key)
    &&& after.hash(key) == ks.hash(key)
    &&& after.zset(key) == ks.zset(key)
}

/// Work on a scope touches its own keys and its active index, and nothing else. That holds of
/// storing an entry, of the write of an update, of removing an entry and of a step of
/// reconciliation. The keys of other scopes are therefore left alone.
pub proof fn law_other_keys_are_left_alone(
    ks: Keyspace,
    scope: Seq<char>,
    key: Seq<char>,
    text: Seq<char>,
    batch: HashBatch,
    other: Seq<char>,
)
    requires
        forall|role: KeyRole| other != #[trigger] key_of(role, scope),
        ks.text_at(key_of(KeyRole::Active, scope)) != Some(other),
    ensures
        untouched(ks, run_set(ks, set_call_view(scope, key, text)).0, other),
        untouched(ks, write_entry(ks, write_keys(scope), key, text), other),
        untouched(ks, run_delete(ks, delete_call_view(scope, key)), other),
        untouched(ks, run_reconcile(ks, reconcile_call_view(scope), batch).0, other),
{
    lemma_own_keys_differ(scope);
    assert(other != key_of(KeyRole::Hash, scope));
    assert(other != key_of(KeyRole::Active, scope));
    assert(other != key_of(KeyRole::Phase, scope));
    assert(other != key_of(KeyRole::Cursor, scope));
    assert(other != key_of(KeyRole::Target, scope));
    assert(other != key_of(KeyRole::Verify, scope));
}

/// Scopes do not disturb each other.
pub proof fn law_scopes_do_not_disturb_each_other(
    ks: Keyspace,
    scope: Seq<char>,
    key: Seq<char>,
    text: Seq<char>,
    batch: HashBatch,
    role: KeyRole,
    other_scope: Seq<char>,
)
    requires
        scope != other_scope,
        ks.text_at(key_of(KeyRole::Active, scope)) != Some(key_of(role, other_scope)),
    ensures
        untouched(
            ks,
            run_set(ks, set_call_view(scope, key, text)).0,
            key_of(role, other_scope),
        ),
        untouched(
            ks,
            write_entry(ks, write_keys(scope), key, text),
            key_of(role, other_scope),
        ),
        untouched(ks, run_delete(ks, delete_call_view(scope, key)), key_of(role, other_scope)),
        untouched(
            ks,
            run_reconcile(ks, reconcile_call_view(scope), batch).0,
            key_of(role, other_scope),
        ),
{
    assert forall|r: KeyRole| key_of(role, other_scope) != #[trigger] key_of(r, scope) by {
        law_keys_do_not_collide(role, other_scope, r, scope);
    }
    law_other_keys_are_left_alone(ks, scope, key, text, batch, key_of(role, other_scope));
}

/// The answers and the phases of reconciliation differ.
pub proof fn lemma_answers_differ()
    ensures
        "ready"@ != "building"@,
        "build"@ != "verify"@,
{
    reveal_strlit("ready");
    reveal_strlit("building");
    reveal_strlit("build");
    reveal_strlit("verify");
    assert("ready"@[0] != "building"@[0]);
    assert("build"@[0] != "verify"@[0]);
}

} // verus!
