//! That a rebuild of the index comes to an end, in as many steps as the scan of the hash takes and
//! with entries written and removed in between.

use crate::calls::delete_call_view;
use crate::calls::reconcile_call_view;
use crate::calls::write_keys;
use crate::effects::run_delete;
use crate::effects::run_reconcile;
use crate::effects::write_entry;
use crate::effects::HashBatch;
use crate::index::fields;
use crate::index::index_inv;
use crate::index::is_ready;
use crate::index::law_reconciliation_publishes_only_exact_indexes;
use crate::index::law_writes_keep_a_rebuild_sound;
use crate::index::lemma_answers_differ;
use crate::index::lemma_own_keys_differ;
use crate::index::rebuild_inv;
use crate::keys::key_of;
use crate::keys::KeyRole;
use crate::keyspace::Keyspace;
use vstd::prelude::*;

verus! {

/// What can happen to a scope while its index is rebuilt.
pub enum Step {
    /// A step of reconciliation, in which the scan of the hash gives this batch.
    Scan(HashBatch),
    /// An entry is written, by storing it or by an update.
    Write { key: Seq<char>, text: Seq<char> },
    /// An entry is removed.
    Remove { key: Seq<char> },
}

/// The data after a step.
pub open spec fn run_step(ks: Keyspace, scope: Seq<char>, step: Step) -> Keyspace {
    match step {
        Step::Scan(batch) => run_reconcile(ks, reconcile_call_view(scope), batch).0,
        Step::Write { key, text } => write_entry(ks, write_keys(scope), key, text),
        Step::Remove { key } => run_delete(ks, delete_call_view(scope, key)),
    }
}

/// The data after all steps.
pub open spec fn run_steps(ks: Keyspace, scope: Seq<char>, steps: Seq<Step>) -> Keyspace
    decreases steps.len(),
{
    if steps.len() == 0 {
        ks
    } else {
        run_steps(run_step(ks, scope, steps[0]), scope, steps.drop_first())
    }
}

/// The steps hold one scan of the hash. Its batches hold fields that are there at the time. Only
/// the last batch gives the cursor `0`, and with it the steps end.
pub open spec fn is_scan(ks: Keyspace, scope: Seq<char>, steps: Seq<Step>) -> bool
    decreases steps.len(),
{
    if steps.len() == 0 {
        false
    } else {
        &&& steps[0] matches Step::Scan(batch) ==> {
            &&& batch.fields.subset_of(fields(ks, scope))
            &&& batch.cursor == "0"@ <==> steps.len() == 1
        }
        &&& steps.len() > 1 || steps[0] is Scan
        &&& steps.len() > 1 ==> is_scan(run_step(ks, scope, steps[0]), scope, steps.drop_first())
    }
}

/// The field is there all the time, and in no batch.
pub open spec fn is_missed(
    ks: Keyspace,
    scope: Seq<char>,
    steps: Seq<Step>,
    field: Seq<char>,
) -> bool
    decreases steps.len(),
{
    &&& fields(ks, scope).contains(field)
    &&& steps.len() > 0 ==> {
        &&& !(steps[0] matches Step::Scan(batch) && batch.fields.contains(field))
        &&& is_missed(run_step(ks, scope, steps[0]), scope, steps.drop_first(), field)
    }
}

/// One scan of the hash that gives every field that is there from its beginning to its end. That
/// is what `HSCAN` promises of a full iteration.
pub open spec fn is_whole_scan(ks: Keyspace, scope: Seq<char>, steps: Seq<Step>) -> bool {
    &&& is_scan(ks, scope, steps)
    &&& forall|field: Seq<char>| !#[trigger] is_missed(ks, scope, steps, field)
}

/// The fields that a scan still has to give: those that are there and not listed.
spec fn gives_the_rest(
    ks: Keyspace,
    scope: Seq<char>,
    steps: Seq<Step>,
    listed: Seq<char>,
) -> bool {
    forall|field: Seq<char>|
        fields(ks, scope).contains(field) && !ks.zset(listed).contains(field)
            ==> !#[trigger] is_missed(ks, scope, steps, field)
}

/// A step before the end of a scan leaves the phase and the active index what they are, and what is
/// still to be given is given by what follows.
proof fn lemma_scan_goes_on(ks: Keyspace, scope: Seq<char>, steps: Seq<Step>)
    requires
        rebuild_inv(ks, scope),
        ks.text_at(key_of(KeyRole::Phase, scope)) is Some,
        is_scan(ks, scope, steps),
        steps.len() > 1,
    ensures
        ({
            let after = run_step(ks, scope, steps[0]);
            let rest = steps.drop_first();
            let phase = key_of(KeyRole::Phase, scope);
            let active = key_of(KeyRole::Active, scope);
            let target = key_of(KeyRole::Target, scope);
            let verify = key_of(KeyRole::Verify, scope);
            &&& rebuild_inv(after, scope)
            &&& is_scan(after, scope, rest)
            &&& after.text_at(phase) == ks.text_at(phase)
            &&& after.text_at(active) == ks.text_at(active)
            &&& ks.text_at(phase) == Some("build"@) && gives_the_rest(ks, scope, steps, target)
                ==> gives_the_rest(after, scope, rest, target)
            &&& ks.text_at(phase) != Some("build"@) && gives_the_rest(ks, scope, steps, verify)
                ==> gives_the_rest(after, scope, rest, verify)
            &&& ks.text_at(phase) != Some("build"@) && ks.zset(target) == fields(ks, scope)
                ==> after.zset(target) == fields(after, scope)
        }),
{
    lemma_own_keys_differ(scope);
    lemma_answers_differ();
    let step = steps[0];
    let after = run_step(ks, scope, step);
    let target = key_of(KeyRole::Target, scope);
    match step {
        Step::Scan(batch) => {
            law_reconciliation_publishes_only_exact_indexes(ks, scope, batch);
            assert(fields(after, scope) =~= fields(ks, scope));
        },
        Step::Write { key, text } => {
            law_writes_keep_a_rebuild_sound(ks, scope, key, text);
            assert(fields(after, scope) =~= fields(ks, scope).insert(key));
        },
        Step::Remove { key } => {
            law_writes_keep_a_rebuild_sound(ks, scope, key, Seq::empty());
            assert(fields(after, scope) =~= fields(ks, scope).remove(key));
        },
    }
    let building = ks.text_at(key_of(KeyRole::Phase, scope)) == Some("build"@);
    let listed = if building {
        target
    } else {
        key_of(KeyRole::Verify, scope)
    };
    if gives_the_rest(ks, scope, steps, listed) {
        assert forall|field: Seq<char>|
            fields(after, scope).contains(field) && !after.zset(listed).contains(
                field,
            ) implies !#[trigger] is_missed(after, scope, steps.drop_first(), field) by {
            if is_missed(after, scope, steps.drop_first(), field) {
                assert(fields(ks, scope).contains(field));
                assert(!ks.zset(listed).contains(field));
                assert(is_missed(ks, scope, steps, field));
            }
        }
    }
    if !building && ks.zset(target) == fields(ks, scope) {
        assert(after.zset(target) =~= fields(after, scope));
    }
}

/// A whole scan that builds lists the fields exactly. What is listed is then checked.
proof fn lemma_building_lists_every_field(ks: Keyspace, scope: Seq<char>, steps: Seq<Step>)
    requires
        rebuild_inv(ks, scope),
        ks.text_at(key_of(KeyRole::Phase, scope)) == Some("build"@),
        is_scan(ks, scope, steps),
        gives_the_rest(ks, scope, steps, key_of(KeyRole::Target, scope)),
    ensures
        ({
            let end = run_steps(ks, scope, steps);
            let active = key_of(KeyRole::Active, scope);
            &&& rebuild_inv(end, scope)
            &&& end.text_at(key_of(KeyRole::Phase, scope)) == Some("verify"@)
            &&& end.zset(key_of(KeyRole::Target, scope)) == fields(end, scope)
            &&& end.text_at(active) == ks.text_at(active)
        }),
    decreases steps.len(),
{
    let after = run_step(ks, scope, steps[0]);
    let rest = steps.drop_first();
    if steps.len() > 1 {
        lemma_scan_goes_on(ks, scope, steps);
        lemma_building_lists_every_field(after, scope, rest);
    } else {
        lemma_own_keys_differ(scope);
        lemma_answers_differ();
        let batch = steps[0]->Scan_0;
        law_reconciliation_publishes_only_exact_indexes(ks, scope, batch);
        assert(run_steps(after, scope, rest) == after);
        let target = key_of(KeyRole::Target, scope);
        assert(fields(after, scope) =~= fields(ks, scope));
        assert forall|field: Seq<char>| #[trigger] fields(after, scope).contains(field) implies
            after.zset(target).contains(field) by {
            assert(is_missed(after, scope, rest, field));
            if !ks.zset(target).contains(field) {
                assert(!is_missed(ks, scope, steps, field));
            }
        }
        assert(after.zset(target) =~= fields(after, scope));
    }
}

/// A whole scan that checks an exact target publishes it.
proof fn lemma_checking_publishes(ks: Keyspace, scope: Seq<char>, steps: Seq<Step>)
    requires
        rebuild_inv(ks, scope),
        ks.text_at(key_of(KeyRole::Phase, scope)) is Some,
        ks.text_at(key_of(KeyRole::Phase, scope)) != Some("build"@),
        ks.zset(key_of(KeyRole::Target, scope)) == fields(ks, scope),
        is_scan(ks, scope, steps),
        gives_the_rest(ks, scope, steps, key_of(KeyRole::Verify, scope)),
    ensures
        is_ready(run_steps(ks, scope, steps), scope),
        index_inv(run_steps(ks, scope, steps), scope),
    decreases steps.len(),
{
    let after = run_step(ks, scope, steps[0]);
    let rest = steps.drop_first();
    if steps.len() > 1 {
        lemma_scan_goes_on(ks, scope, steps);
        lemma_checking_publishes(after, scope, rest);
    } else {
        lemma_own_keys_differ(scope);
        lemma_answers_differ();
        let batch = steps[0]->Scan_0;
        law_reconciliation_publishes_only_exact_indexes(ks, scope, batch);
        assert(run_steps(after, scope, rest) == after);
        let target = key_of(KeyRole::Target, scope);
        let verify = key_of(KeyRole::Verify, scope);
        let all = fields(ks, scope);
        assert(fields(after, scope) =~= all);
        let scanned = ks.zadd(verify, batch.fields).with_text(key_of(KeyRole::Cursor, scope), "0"@);
        assert forall|field: Seq<char>| #[trigger] all.contains(field) implies scanned.zset(
            verify,
        ).contains(field) by {
            assert(is_missed(after, scope, rest, field));
            if !ks.zset(verify).contains(field) {
                assert(!is_missed(ks, scope, steps, field));
            }
        }
        assert(scanned.zset(verify) =~= all);
        assert(scanned.zset(target) =~= all);
        assert(all.difference(all) =~= Set::empty());
    }
}

/// A whole scan builds an exact target, from the beginning of a rebuild or from any time in it.
proof fn lemma_whole_build(ks: Keyspace, scope: Seq<char>, build: Seq<Step>)
    requires
        rebuild_inv(ks, scope),
        !is_ready(ks, scope),
        match ks.text_at(key_of(KeyRole::Phase, scope)) {
            None => build[0] is Scan,
            Some(phase) => phase == "build"@,
        },
        is_whole_scan(ks, scope, build),
    ensures
        ({
            let built = run_steps(ks, scope, build);
            let active = key_of(KeyRole::Active, scope);
            &&& rebuild_inv(built, scope)
            &&& built.text_at(key_of(KeyRole::Phase, scope)) == Some("verify"@)
            &&& built.zset(key_of(KeyRole::Target, scope)) == fields(built, scope)
            &&& built.text_at(active) == ks.text_at(active)
        }),
{
    lemma_own_keys_differ(scope);
    lemma_answers_differ();
    let (phase, cursor) = (key_of(KeyRole::Phase, scope), key_of(KeyRole::Cursor, scope));
    let (target, verify) = (key_of(KeyRole::Target, scope), key_of(KeyRole::Verify, scope));
    if ks.text_at(phase) is None {
        let begun = ks.with_text(phase, "build"@).with_text(cursor, "0"@).without(target).without(
            verify,
        );
        assert(fields(begun, scope) =~= fields(ks, scope));
        assert(run_step(begun, scope, build[0]) == run_step(ks, scope, build[0]));
        assert forall|field: Seq<char>| !#[trigger] is_missed(begun, scope, build, field) by {
            assert(!is_missed(ks, scope, build, field));
        }
        lemma_building_lists_every_field(begun, scope, build);
    } else {
        lemma_building_lists_every_field(ks, scope, build);
    }
}

/// A rebuild comes to an end. A whole scan builds, in any number of batches, and a second one
/// checks: then the target is active, and the index exact. Entries may be written and removed in
/// between. Until the check is done the active index stays what it is.
pub proof fn law_a_whole_rebuild_publishes(
    ks: Keyspace,
    scope: Seq<char>,
    build: Seq<Step>,
    check: Seq<Step>,
)
    requires
        rebuild_inv(ks, scope),
        !is_ready(ks, scope),
        match ks.text_at(key_of(KeyRole::Phase, scope)) {
            None => build[0] is Scan,
            Some(phase) => phase == "build"@,
        },
        is_whole_scan(ks, scope, build),
        is_whole_scan(run_steps(ks, scope, build), scope, check),
    ensures
        ({
            let built = run_steps(ks, scope, build);
            let end = run_steps(built, scope, check);
            let active = key_of(KeyRole::Active, scope);
            &&& built.text_at(active) == ks.text_at(active)
            &&& built.text_at(key_of(KeyRole::Phase, scope)) == Some("verify"@)
            &&& is_ready(end, scope)
            &&& index_inv(end, scope)
        }),
{
    lemma_answers_differ();
    lemma_whole_build(ks, scope, build);
    lemma_checking_publishes(run_steps(ks, scope, build), scope, check);
}

/// A check comes to an end too, whatever had been built. A scan of the hash either publishes an
/// exact target, or the rebuild starts over with empty sets and the active index stays what it is.
pub proof fn law_a_check_publishes_or_starts_over(
    ks: Keyspace,
    scope: Seq<char>,
    check: Seq<Step>,
)
    requires
        rebuild_inv(ks, scope),
        ks.text_at(key_of(KeyRole::Phase, scope)) is Some,
        ks.text_at(key_of(KeyRole::Phase, scope)) != Some("build"@),
        is_scan(ks, scope, check),
    ensures
        ({
            let end = run_steps(ks, scope, check);
            let active = key_of(KeyRole::Active, scope);
            ||| is_ready(end, scope) && index_inv(end, scope)
            ||| {
                &&& rebuild_inv(end, scope)
                &&& end.text_at(active) == ks.text_at(active)
                &&& end.text_at(key_of(KeyRole::Phase, scope)) == Some("build"@)
                &&& end.zset(key_of(KeyRole::Target, scope)) == Set::<Seq<char>>::empty()
                &&& end.zset(key_of(KeyRole::Verify, scope)) == Set::<Seq<char>>::empty()
            }
        }),
    decreases check.len(),
{
    let after = run_step(ks, scope, check[0]);
    let rest = check.drop_first();
    if check.len() > 1 {
        lemma_scan_goes_on(ks, scope, check);
        law_a_check_publishes_or_starts_over(after, scope, rest);
    } else {
        lemma_own_keys_differ(scope);
        lemma_answers_differ();
        law_reconciliation_publishes_only_exact_indexes(ks, scope, check[0]->Scan_0);
        assert(run_steps(after, scope, rest) == after);
    }
}

/// Steps of reconciliation with nothing in between.
pub open spec fn scans(batches: Seq<HashBatch>) -> Seq<Step> {
    batches.map_values(|batch: HashBatch| Step::Scan(batch))
}

/// Batches of one scan of the hash: together they hold its fields, and only the last one gives the
/// cursor `0`.
pub open spec fn cover(batches: Seq<HashBatch>, all: Set<Seq<char>>) -> bool {
    &&& batches.len() > 0
    &&& forall|i: int|
        0 <= i < batches.len() ==> {
            &&& (#[trigger] batches[i]).fields.subset_of(all)
            &&& batches[i].cursor == "0"@ <==> i == batches.len() - 1
        }
    &&& forall|field: Seq<char>| #[trigger]
        all.contains(field) ==> exists|i: int|
            0 <= i < batches.len() && (#[trigger] batches[i]).fields.contains(field)
}

/// Batches whose cursors are those of one scan are one scan, and what is missed is in none of them.
proof fn lemma_batches_scan(ks: Keyspace, scope: Seq<char>, batches: Seq<HashBatch>)
    requires
        rebuild_inv(ks, scope),
        !is_ready(ks, scope),
        batches.len() > 0,
        forall|i: int|
            0 <= i < batches.len() ==> {
                &&& (#[trigger] batches[i]).fields.subset_of(fields(ks, scope))
                &&& batches[i].cursor == "0"@ <==> i == batches.len() - 1
            },
    ensures
        is_scan(ks, scope, scans(batches)),
        forall|field: Seq<char>, i: int|
            0 <= i < batches.len() && #[trigger] is_missed(ks, scope, scans(batches), field)
                ==> !(#[trigger] batches[i]).fields.contains(field),
        fields(run_steps(ks, scope, scans(batches)), scope) == fields(ks, scope),
    decreases batches.len(),
{
    lemma_own_keys_differ(scope);
    lemma_answers_differ();
    let steps = scans(batches);
    let rest = batches.drop_first();
    let after = run_step(ks, scope, steps[0]);
    assert(steps[0] == Step::Scan(batches[0]));
    assert(steps.drop_first() =~= scans(rest));
    law_reconciliation_publishes_only_exact_indexes(ks, scope, batches[0]);
    assert(fields(after, scope) == fields(ks, scope));
    if batches.len() > 1 {
        assert forall|i: int| 0 <= i < rest.len() implies #[trigger] rest[i] == batches[i + 1] by {}
        lemma_batches_scan(after, scope, rest);
        assert forall|field: Seq<char>, i: int|
            0 <= i < batches.len() && #[trigger] is_missed(ks, scope, steps, field) implies !(
        #[trigger] batches[i]).fields.contains(field) by {
            if i > 0 {
                assert(is_missed(after, scope, scans(rest), field));
                assert(rest[i - 1] == batches[i]);
            }
        }
    } else {
        assert(run_steps(after, scope, steps.drop_first()) == after);
    }
}

/// A rebuild in any number of batches, with nothing in between, ends with the target active and the
/// index exact.
pub proof fn law_whole_scans_publish(
    ks: Keyspace,
    scope: Seq<char>,
    build: Seq<HashBatch>,
    check: Seq<HashBatch>,
)
    requires
        rebuild_inv(ks, scope),
        !is_ready(ks, scope),
        ks.text_at(key_of(KeyRole::Phase, scope)) matches Some(phase) ==> phase == "build"@,
        cover(build, fields(ks, scope)),
        cover(check, fields(ks, scope)),
    ensures
        ({
            let end = run_steps(run_steps(ks, scope, scans(build)), scope, scans(check));
            &&& is_ready(end, scope)
            &&& index_inv(end, scope)
        }),
{
    lemma_batches_scan(ks, scope, build);
    assert forall|field: Seq<char>| !#[trigger] is_missed(ks, scope, scans(build), field) by {
        if fields(ks, scope).contains(field) {
            let i = choose|i: int|
                0 <= i < build.len() && (#[trigger] build[i]).fields.contains(field);
        }
    }
    let built = run_steps(ks, scope, scans(build));
    lemma_answers_differ();
    lemma_whole_build(ks, scope, scans(build));
    lemma_batches_scan(built, scope, check);
    assert forall|field: Seq<char>| !#[trigger] is_missed(built, scope, scans(check), field) by {
        if fields(ks, scope).contains(field) {
            let i = choose|i: int|
                0 <= i < check.len() && (#[trigger] check[i]).fields.contains(field);
        }
    }
    law_a_whole_rebuild_publishes(ks, scope, scans(build), scans(check));
}

} // verus!
