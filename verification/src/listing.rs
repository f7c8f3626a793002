//! What pages hold, one by one and read in turn, and how they agree with the other ways to read
//! entries.

use crate::calls::list_command_view;
use crate::calls::list_page_call_view;
use crate::calls::reconcile_call_view;
use crate::calls::set_call_view;
use crate::effects::alternating;
use crate::effects::exact_count;
use crate::effects::page_fields;
use crate::effects::page_finds;
use crate::effects::page_next;
use crate::effects::run_list;
use crate::effects::run_list_page;
use crate::effects::run_reconcile;
use crate::effects::run_set;
use crate::effects::HashBatch;
use crate::entries::list_outcome;
use crate::entries::list_page_outcome;
use crate::entries::text_reads;
use crate::index::fields;
use crate::index::index_inv;
use crate::index::law_reconciliation_keeps_the_index;
use crate::index::law_reconciliation_publishes_only_exact_indexes;
use crate::index::law_writes_keep_pages_exact;
use crate::index::lemma_own_keys_differ;
use crate::index::pages_are_exact;
use crate::json::json_value;
use crate::keys::key_of;
use crate::keys::KeyRole;
use crate::keyspace::before;
use crate::keyspace::behind;
use crate::keyspace::lemma_before_irreflexive;
use crate::keyspace::lemma_before_transitive;
use crate::keyspace::lemma_zrangebylex_answers;
use crate::keyspace::Keyspace;
use crate::page::all_read;
use crate::page::frame_reads;
use crate::page::framed;
use crate::page::law_all_or_the_first_error;
use crate::page::FrameView;
use crate::storing::got;
use crate::storing::law_set_changes_one_entry;
use crate::structs::ItemView;
use serde_json::Value;
use vstd::prelude::*;

verus! {

/// What the page script answers.
pub open spec fn page_reply(
    ks: Keyspace,
    scope: Seq<char>,
    cursor: Option<Seq<char>>,
    limit: nat,
    found: Seq<Seq<char>>,
) -> Seq<Seq<char>> {
    run_list_page(ks, list_page_call_view(scope, cursor, limit), found).1
}

/// Reading a page or all entries changes nothing.
pub proof fn law_listing_changes_nothing(
    ks: Keyspace,
    scope: Seq<char>,
    cursor: Option<Seq<char>>,
    limit: nat,
    found: Seq<Seq<char>>,
)
    requires
        limit < exact_count(),
    ensures
        run_list_page(ks, list_page_call_view(scope, cursor, limit), found).0 == ks,
        run_list(ks, list_command_view(scope)).0 == ks,
{
}

/// A page of no entries is refused where there are any; where there are none it is empty.
pub proof fn law_no_page_of_no_entries(
    ks: Keyspace,
    scope: Seq<char>,
    cursor: Option<Seq<char>>,
    found: Seq<Seq<char>>,
)
    requires
        ks.text_at(key_of(KeyRole::Active, scope)) is Some,
    ensures
        framed(page_reply(ks, scope, cursor, 0, found)) == if found.len() > 0 {
            Err::<FrameView, Seq<char>>("Unexpected return value from state pagination script"@)
        } else {
            Ok(FrameView { entries: Seq::empty(), next_cursor: None })
        },
{
    lemma_statuses_differ();
    if found.len() == 0 {
        let frame = framed(page_reply(ks, scope, cursor, 0, found))->Ok_0;
        assert(frame.entries =~= Seq::empty());
    }
}

/// Without an index no page is read: the answer is an error that says so.
pub proof fn law_no_page_without_an_index(
    ks: Keyspace,
    scope: Seq<char>,
    cursor: Option<Seq<char>>,
    limit: nat,
    found: Seq<Seq<char>>,
)
    requires
        ks.text_at(key_of(KeyRole::Active, scope)) is None,
    ensures
        framed(page_reply(ks, scope, cursor, limit, found)) == Err::<
            FrameView,
            Seq<char>,
        >("Failed to list state page: "@ + "state pagination index is not ready"@),
{
    lemma_statuses_differ();
}

/// An index that lists a field without an entry gives no page either.
pub proof fn law_no_page_from_a_wrong_index(
    ks: Keyspace,
    scope: Seq<char>,
    cursor: Option<Seq<char>>,
    limit: nat,
    found: Seq<Seq<char>>,
    i: int,
)
    requires
        ks.text_at(key_of(KeyRole::Active, scope)) is Some,
        0 <= i < found.len(),
        i < limit < exact_count(),
        !fields(ks, scope).contains(found[i]),
    ensures
        framed(page_reply(ks, scope, cursor, limit, found)) == Err::<
            FrameView,
            Seq<char>,
        >(
            "Failed to list state page: "@
                + "state pagination index does not match canonical hash"@,
        ),
{
    lemma_statuses_differ();
    assert(page_fields(found, limit)[i] == found[i]);
}

/// What the page script answers is what its reader takes it for: from an exact index, the fields
/// that were found with the texts that are stored under them, and the cursor of the next page.
pub proof fn law_pages_hold_the_entries(
    ks: Keyspace,
    scope: Seq<char>,
    cursor: Option<Seq<char>>,
    limit: nat,
    found: Seq<Seq<char>>,
)
    requires
        1 <= limit < exact_count(),
        ks.text_at(key_of(KeyRole::Active, scope)) is Some,
        pages_are_exact(ks, scope),
        page_finds(ks, list_page_call_view(scope, cursor, limit), found),
    ensures
        framed(page_reply(ks, scope, cursor, limit, found)) == Ok::<
            FrameView,
            Seq<char>,
        >(
            FrameView {
                entries: page_fields(found, limit).map_values(
                    |field: Seq<char>|
                        (field, ks.hash(key_of(KeyRole::Hash, scope))[field]),
                ),
                next_cursor: page_next(found, limit),
            },
        ),
{
    lemma_statuses_differ();
    let hash = ks.hash(key_of(KeyRole::Hash, scope));
    let shown = page_fields(found, limit);
    assert forall|i: int| 0 <= i < shown.len() implies hash.contains_key(
        #[trigger] shown[i],
    ) by {
        assert(shown[i] == found[i]);
    }
    let reply = page_reply(ks, scope, cursor, limit, found);
    let expected = shown.map_values(|field: Seq<char>| (field, hash[field]));
    assert(reply.len() == 3 + 2 * shown.len());
    let entries = framed(reply)->Ok_0.entries;
    assert forall|i: int| 0 <= i < shown.len() implies #[trigger] entries[i] == expected[i] by {
        assert(reply[3 + 2 * i] == alternating(shown, hash)[2 * i]);
        assert(reply[4 + 2 * i] == alternating(shown, hash)[2 * i + 1]);
        assert((2 * i + 1) / 2 == i);
    }
    assert(entries =~= expected);
}

/// Pages are bounded and their cursors exclusive. A page holds at most as many entries as asked
/// for, all behind the cursor and in order. And of the entries behind the cursor each is either on
/// the page or behind the cursor of the next one, never both.
pub proof fn law_pages_cut_the_entries_up(
    ks: Keyspace,
    scope: Seq<char>,
    cursor: Option<Seq<char>>,
    limit: nat,
    found: Seq<Seq<char>>,
    field: Seq<char>,
)
    requires
        1 <= limit < exact_count(),
        ks.text_at(key_of(KeyRole::Active, scope)) is Some,
        pages_are_exact(ks, scope),
        page_finds(ks, list_page_call_view(scope, cursor, limit), found),
    ensures
        page_fields(found, limit).len() <= limit,
        page_fields(found, limit).contains(field) ==> fields(ks, scope).contains(field) && behind(
            cursor,
            field,
        ),
        forall|i: int, j: int|
            0 <= i < j < page_fields(found, limit).len() ==> before(
                page_fields(found, limit)[i],
                page_fields(found, limit)[j],
            ),
        fields(ks, scope).contains(field) && behind(cursor, field) ==> (page_fields(
            found,
            limit,
        ).contains(field) <==> !(page_next(found, limit) matches Some(next) && before(next, field))),
{
    lemma_statuses_differ();
    let shown = page_fields(found, limit);
    assert forall|i: int| 0 <= i < shown.len() implies #[trigger] shown[i] == found[i] by {}
    if fields(ks, scope).contains(field) && behind(cursor, field) && found.len() > limit {
        let next = found[limit - 1];
        if shown.contains(field) {
            let i = choose|i: int| 0 <= i < shown.len() && shown[i] == field;
            if before(next, field) {
                if i < limit - 1 {
                    lemma_before_transitive(found[i], next, field);
                }
                lemma_before_irreflexive(field);
            }
        } else if found.contains(field) {
            let i = choose|i: int| 0 <= i < found.len() && found[i] == field;
            if i < limit {
                assert(shown[i] == field);
            }
            assert(before(next, field));
        } else {
            lemma_before_transitive(next, found.last(), field);
        }
    }
}

/// An entry that was stored is read page by page: from a cursor before it, either the page holds
/// it with the text that was stored, or it lies behind the cursor of the next page.
pub proof fn law_pages_hold_what_set_stored(
    ks: Keyspace,
    scope: Seq<char>,
    key: Seq<char>,
    text: Seq<char>,
    cursor: Option<Seq<char>>,
    limit: nat,
    found: Seq<Seq<char>>,
)
    requires
        1 <= limit < exact_count(),
        pages_are_exact(ks, scope),
        ks.text_at(key_of(KeyRole::Active, scope)) is Some,
        page_finds(
            run_set(ks, set_call_view(scope, key, text)).0,
            list_page_call_view(scope, cursor, limit),
            found,
        ),
        behind(cursor, key),
    ensures
        ({
            let after = run_set(ks, set_call_view(scope, key, text)).0;
            &&& framed(page_reply(after, scope, cursor, limit, found)) matches Ok(frame)
            &&& {
                ||| frame.entries.contains((key, text))
                ||| frame.next_cursor matches Some(next) && before(next, key)
            }
        }),
{
    let after = run_set(ks, set_call_view(scope, key, text)).0;
    lemma_own_keys_differ(scope);
    law_writes_keep_pages_exact(ks, scope, key, text);
    law_pages_hold_the_entries(after, scope, cursor, limit, found);
    law_pages_cut_the_entries_up(after, scope, cursor, limit, found, key);
    let frame = framed(page_reply(after, scope, cursor, limit, found))->Ok_0;
    let shown = page_fields(found, limit);
    if shown.contains(key) {
        let i = choose|i: int| 0 <= i < shown.len() && shown[i] == key;
        law_set_changes_one_entry(ks, scope, key, text, scope, key);
        assert(frame.entries[i] == (key, text));
    }
}

/// A page as it was read: the data at that time, and the fields that were found.
pub struct PageRead {
    pub ks: Keyspace,
    pub found: Seq<Seq<char>>,
}

/// All pages were read from these entries, each through an index that listed them exactly. Between
/// pages the index may have been rebuilt.
pub open spec fn read_from(
    reads: Seq<PageRead>,
    scope: Seq<char>,
    entries: Map<Seq<char>, Seq<char>>,
) -> bool {
    forall|i: int|
        0 <= i < reads.len() ==> {
            let ks = (#[trigger] reads[i]).ks;
            &&& ks.hash(key_of(KeyRole::Hash, scope)) == entries
            &&& ks.text_at(key_of(KeyRole::Active, scope)) is Some
            &&& pages_are_exact(ks, scope)
        }
}

/// Pages read in turn: the first from the cursor, each other from the cursor that the page before
/// it gave.
pub open spec fn read_in_turn(
    reads: Seq<PageRead>,
    scope: Seq<char>,
    cursor: Option<Seq<char>>,
    limit: nat,
) -> bool
    decreases reads.len(),
{
    if reads.len() == 0 {
        true
    } else {
        let PageRead { ks, found } = reads[0];
        &&& page_finds(ks, list_page_call_view(scope, cursor, limit), found)
        &&& framed(page_reply(ks, scope, cursor, limit, found)) matches Ok(frame)
        &&& match frame.next_cursor {
            Some(next) => read_in_turn(reads.drop_first(), scope, Some(next), limit),
            None => reads.len() == 1,
        }
    }
}

/// The entries of pages read in turn, and the cursor that the last of them gave.
pub open spec fn read_so_far(
    reads: Seq<PageRead>,
    scope: Seq<char>,
    cursor: Option<Seq<char>>,
    limit: nat,
) -> FrameView
    decreases reads.len(),
{
    if reads.len() == 0 {
        FrameView { entries: Seq::empty(), next_cursor: cursor }
    } else {
        let frame = framed(page_reply(reads[0].ks, scope, cursor, limit, reads[0].found))->Ok_0;
        match frame.next_cursor {
            Some(next) => {
                let rest = read_so_far(reads.drop_first(), scope, Some(next), limit);
                FrameView { entries: frame.entries + rest.entries, next_cursor: rest.next_cursor }
            },
            None => frame,
        }
    }
}

/// How many pages it takes: as many as are needed to hold the entries, and at least one.
pub open spec fn page_count(entries: nat, limit: nat) -> nat {
    if entries == 0 {
        1
    } else {
        (entries + limit - 1) as nat / limit
    }
}

/// The field lies behind one cursor and not behind the other. Without the one there is no lower
/// bound, without the other no upper one.
pub open spec fn between(
    cursor: Option<Seq<char>>,
    next: Option<Seq<char>>,
    field: Seq<char>,
) -> bool {
    &&& behind(cursor, field)
    &&& next matches Some(n) ==> !before(n, field)
}

/// Exactly the entries between two cursors, each once, in the order of their fields.
pub open spec fn lists_between(
    listed: Seq<(Seq<char>, Seq<char>)>,
    cursor: Option<Seq<char>>,
    next: Option<Seq<char>>,
    entries: Map<Seq<char>, Seq<char>>,
) -> bool {
    &&& forall|i: int, j: int| 0 <= i < j < listed.len() ==> before(listed[i].0, listed[j].0)
    &&& forall|field: Seq<char>, text: Seq<char>|
        #[trigger] listed.contains((field, text)) <==> {
            &&& entries.contains_key(field)
            &&& entries[field] == text
            &&& between(cursor, next, field)
        }
}

/// How many entries pages read in turn have listed: all pages but the last are full.
pub open spec fn full_but_the_last(
    pages: nat,
    limit: nat,
    so_far: FrameView,
    entries: Map<Seq<char>, Seq<char>>,
) -> bool {
    match so_far.next_cursor {
        None => pages == page_count(so_far.entries.len(), limit),
        Some(next) => {
            &&& so_far.entries.len() == pages * limit
            &&& pages > 0 ==> exists|field: Seq<char>| #[trigger]
                entries.contains_key(field) && before(next, field)
        },
    }
}

/// A page lists exactly what lies between its cursor and the one that it gives.
proof fn lemma_one_page(
    ks: Keyspace,
    scope: Seq<char>,
    cursor: Option<Seq<char>>,
    limit: nat,
    found: Seq<Seq<char>>,
)
    requires
        1 <= limit < exact_count(),
        ks.text_at(key_of(KeyRole::Active, scope)) is Some,
        pages_are_exact(ks, scope),
        page_finds(ks, list_page_call_view(scope, cursor, limit), found),
    ensures
        ({
            let entries = ks.hash(key_of(KeyRole::Hash, scope));
            let shown = page_fields(found, limit);
            &&& framed(page_reply(ks, scope, cursor, limit, found)) matches Ok(frame)
            &&& frame.next_cursor == page_next(found, limit)
            &&& frame.entries == shown.map_values(|field: Seq<char>| (field, entries[field]))
            &&& lists_between(frame.entries, cursor, frame.next_cursor, entries)
        }),
{
    law_pages_hold_the_entries(ks, scope, cursor, limit, found);
    law_pages_cut_the_entries_up(ks, scope, cursor, limit, found, Seq::empty());
    let entries = ks.hash(key_of(KeyRole::Hash, scope));
    let shown = page_fields(found, limit);
    let frame = framed(page_reply(ks, scope, cursor, limit, found))->Ok_0;
    assert forall|field: Seq<char>, text: Seq<char>| #[trigger]
        frame.entries.contains((field, text)) <==> {
        &&& entries.contains_key(field)
        &&& entries[field] == text
        &&& between(cursor, frame.next_cursor, field)
    } by {
        law_pages_cut_the_entries_up(ks, scope, cursor, limit, found, field);
        if frame.entries.contains((field, text)) {
            let i = choose|i: int|
                0 <= i < frame.entries.len() && frame.entries[i] == (field, text);
            assert(shown[i] == field);
        }
        if shown.contains(field) && entries[field] == text {
            let i = choose|i: int| 0 <= i < shown.len() && shown[i] == field;
            assert(frame.entries[i] == (field, text));
        }
    }
}

/// A step of reconciliation and then a page: either there is no index yet, and the answer says so,
/// or the page lists exactly what lies between its cursor and the one that it gives. It holds as
/// many entries as asked for where there are more, and else at most as many.
pub proof fn law_a_request_reads_an_exact_page_or_none(
    ks: Keyspace,
    scope: Seq<char>,
    batch: HashBatch,
    cursor: Option<Seq<char>>,
    limit: nat,
    found: Seq<Seq<char>>,
)
    requires
        1 <= limit < exact_count(),
        index_inv(ks, scope),
        batch.fields.subset_of(fields(ks, scope)),
        page_finds(
            run_reconcile(ks, reconcile_call_view(scope), batch).0,
            list_page_call_view(scope, cursor, limit),
            found,
        ),
    ensures
        ({
            let after = run_reconcile(ks, reconcile_call_view(scope), batch).0;
            let page = framed(page_reply(after, scope, cursor, limit, found));
            let entries = ks.hash(key_of(KeyRole::Hash, scope));
            if after.text_at(key_of(KeyRole::Active, scope)) is None {
                page == Err::<FrameView, Seq<char>>(
                    "Failed to list state page: "@ + "state pagination index is not ready"@,
                )
            } else {
                &&& page matches Ok(frame)
                &&& lists_between(frame.entries, cursor, frame.next_cursor, entries)
                &&& frame.entries.len() <= limit
                &&& frame.next_cursor matches Some(next) ==> {
                    &&& frame.entries.len() == limit
                    &&& frame.entries.last().0 == next
                    &&& exists|field: Seq<char>| #[trigger]
                        entries.contains_key(field) && before(next, field)
                }
            }
        }),
{
    let after = run_reconcile(ks, reconcile_call_view(scope), batch).0;
    law_reconciliation_publishes_only_exact_indexes(ks, scope, batch);
    law_reconciliation_keeps_the_index(ks, scope, batch);
    if after.text_at(key_of(KeyRole::Active, scope)) is None {
        law_no_page_without_an_index(after, scope, cursor, limit, found);
    } else {
        lemma_one_page(after, scope, cursor, limit, found);
        if found.len() > limit {
            assert(before(found[limit - 1], found[limit as int]));
            assert(fields(after, scope).contains(found[limit as int]));
        }
    }
}

/// Pages read in turn from a cursor list exactly what lies between it and the cursor that the last
/// page gave.
proof fn lemma_pages_in_turn(
    reads: Seq<PageRead>,
    scope: Seq<char>,
    cursor: Option<Seq<char>>,
    limit: nat,
    entries: Map<Seq<char>, Seq<char>>,
)
    requires
        1 <= limit < exact_count(),
        reads.len() > 0 || cursor is Some,
        read_from(reads, scope, entries),
        read_in_turn(reads, scope, cursor, limit),
    ensures
        ({
            let so_far = read_so_far(reads, scope, cursor, limit);
            &&& lists_between(so_far.entries, cursor, so_far.next_cursor, entries)
            &&& full_but_the_last(reads.len(), limit, so_far, entries)
            &&& so_far.next_cursor matches Some(next) ==> cursor == Some(next) || behind(
                cursor,
                next,
            )
        }),
    decreases reads.len(),
{
    let so_far = read_so_far(reads, scope, cursor, limit);
    let all = so_far.entries;
    if reads.len() > 0 {
        let PageRead { ks, found } = reads[0];
        let shown = page_fields(found, limit);
        let frame = framed(page_reply(ks, scope, cursor, limit, found))->Ok_0;
        lemma_one_page(ks, scope, cursor, limit, found);
        if let Some(next) = frame.next_cursor {
            let others = reads.drop_first();
            let rest = read_so_far(others, scope, Some(next), limit);
            assert forall|i: int| 0 <= i < others.len() implies #[trigger] others[i] == reads[i
                + 1] by {}
            assert(read_from(others, scope, entries));
            lemma_pages_in_turn(others, scope, Some(next), limit, entries);
            assert(shown[limit - 1] == next);
            assert(found[limit - 1] == next);
            let more = found[limit as int];
            assert(before(found[limit - 1], more));
            assert(entries.contains_key(more));
            assert(behind(cursor, next));
            if let Some(last) = rest.next_cursor {
                if cursor is Some && last != next {
                    lemma_before_transitive(cursor->0, next, last);
                }
            }
            assert forall|field: Seq<char>, text: Seq<char>| #[trigger]
                all.contains((field, text)) <==> {
                &&& entries.contains_key(field)
                &&& entries[field] == text
                &&& between(cursor, so_far.next_cursor, field)
            } by {
                lemma_either_half(frame.entries, rest.entries, (field, text));
                if before(next, field) && cursor is Some {
                    lemma_before_transitive(cursor->0, next, field);
                }
                if let Some(last) = rest.next_cursor {
                    if before(last, field) && last != next {
                        lemma_before_transitive(next, last, field);
                    }
                }
            }
            assert forall|i: int, j: int| 0 <= i < j < all.len() implies before(
                all[i].0,
                all[j].0,
            ) by {
                if j >= limit {
                    assert(all[j] == rest.entries[j - limit]);
                    assert(rest.entries.contains((all[j].0, all[j].1)));
                    if i >= limit {
                        assert(all[i] == rest.entries[i - limit]);
                    } else {
                        assert(all[i].0 == shown[i]);
                        if i < limit - 1 {
                            lemma_before_transitive(shown[i], next, all[j].0);
                        }
                    }
                } else {
                    assert(all[i].0 == shown[i]);
                    assert(all[j].0 == shown[j]);
                }
            }
            if rest.next_cursor is None {
                assert(rest.entries.contains((more, entries[more])));
                lemma_one_page_more(rest.entries.len(), limit);
            } else {
                assert(limit + others.len() * limit == (1 + others.len()) * limit)
                    by (nonlinear_arith);
            }
        } else if all.len() > 0 {
            lemma_last_page(all.len(), limit);
        }
    }
}

proof fn lemma_either_half<A>(a: Seq<A>, b: Seq<A>, x: A)
    ensures
        (a + b).contains(x) <==> a.contains(x) || b.contains(x),
{
    if a.contains(x) {
        let i = choose|i: int| 0 <= i < a.len() && a[i] == x;
        assert((a + b)[i] == x);
    }
    if b.contains(x) {
        let i = choose|i: int| 0 <= i < b.len() && b[i] == x;
        assert((a + b)[a.len() + i] == x);
    }
}

proof fn lemma_last_page(entries: nat, limit: nat)
    requires
        0 < entries <= limit,
    ensures
        page_count(entries, limit) == 1,
{
    vstd::arithmetic::div_mod::lemma_div_plus_one(entries - 1, limit as int);
    vstd::arithmetic::div_mod::lemma_basic_div(entries - 1, limit as int);
}

proof fn lemma_one_page_more(entries: nat, limit: nat)
    requires
        0 < entries,
        0 < limit,
    ensures
        page_count(limit + entries, limit) == 1 + page_count(entries, limit),
{
    vstd::arithmetic::div_mod::lemma_div_plus_one(entries + limit - 1, limit as int);
}

/// The fields that are listed are as many as are listed, and all of them are there.
proof fn lemma_listed_fields(
    listed: Seq<(Seq<char>, Seq<char>)>,
    next: Option<Seq<char>>,
    entries: Map<Seq<char>, Seq<char>>,
) -> (fields: Set<Seq<char>>)
    requires
        lists_between(listed, None, next, entries),
    ensures
        fields.finite(),
        fields.len() == listed.len(),
        forall|field: Seq<char>| #[trigger]
            fields.contains(field) <==> entries.contains_key(field) && between(None, next, field),
{
    let firsts = listed.map_values(|e: (Seq<char>, Seq<char>)| e.0);
    assert(firsts.no_duplicates()) by {
        assert forall|i: int, j: int| 0 <= i < j < firsts.len() implies firsts[i]
            != firsts[j] by {
            lemma_before_irreflexive(firsts[i]);
        }
    }
    assert forall|field: Seq<char>| #[trigger]
        firsts.to_set().contains(field) <==> entries.contains_key(field) && between(
            None,
            next,
            field,
        ) by {
        if firsts.contains(field) {
            let i = choose|i: int| 0 <= i < firsts.len() && firsts[i] == field;
            assert(listed.contains((listed[i].0, listed[i].1)));
        }
        if listed.contains((field, entries[field])) {
            let i = choose|i: int| 0 <= i < listed.len() && listed[i] == (field, entries[field]);
            assert(firsts[i] == field);
        }
    }
    firsts.unique_seq_to_set();
    firsts.to_set()
}

/// Pages read in turn until there are no more list every entry exactly once, with the text that is
/// stored, in the order of the fields. For `n` entries that takes `n / limit` pages, rounded up,
/// and one page where there are no entries.
pub proof fn law_pages_in_turn_list_every_entry_once(
    reads: Seq<PageRead>,
    scope: Seq<char>,
    limit: nat,
    entries: Map<Seq<char>, Seq<char>>,
)
    requires
        1 <= limit < exact_count(),
        reads.len() > 0,
        read_from(reads, scope, entries),
        read_in_turn(reads, scope, None, limit),
        read_so_far(reads, scope, None, limit).next_cursor is None,
    ensures
        lists_between(read_so_far(reads, scope, None, limit).entries, None, None, entries),
        read_so_far(reads, scope, None, limit).entries.len() == entries.dom().len(),
        reads.len() == page_count(entries.dom().len(), limit),
{
    lemma_pages_in_turn(reads, scope, None, limit, entries);
    let fields = lemma_listed_fields(read_so_far(reads, scope, None, limit).entries, None, entries);
    assert(fields =~= entries.dom());
}

/// Pages read in turn come to an end. As long as there are more, every page was full, what they
/// hold is every entry up to the last cursor, each once and in order, and something is left.
pub proof fn law_pages_in_turn_come_to_an_end(
    reads: Seq<PageRead>,
    scope: Seq<char>,
    limit: nat,
    entries: Map<Seq<char>, Seq<char>>,
)
    requires
        1 <= limit < exact_count(),
        reads.len() > 0,
        read_from(reads, scope, entries),
        read_in_turn(reads, scope, None, limit),
        read_so_far(reads, scope, None, limit).next_cursor is Some,
        entries.dom().finite(),
    ensures
        ({
            let so_far = read_so_far(reads, scope, None, limit);
            &&& lists_between(so_far.entries, None, so_far.next_cursor, entries)
            &&& so_far.entries.len() == reads.len() * limit
            &&& reads.len() * limit < entries.dom().len()
        }),
{
    lemma_pages_in_turn(reads, scope, None, limit, entries);
    let so_far = read_so_far(reads, scope, None, limit);
    let next = so_far.next_cursor->0;
    let fields = lemma_listed_fields(so_far.entries, so_far.next_cursor, entries);
    let more = choose|field: Seq<char>| #[trigger]
        entries.contains_key(field) && before(next, field);
    assert(!fields.contains(more));
    vstd::set_lib::lemma_len_subset(fields.insert(more), entries.dom());
}

/// From an exact index pages can be read in turn until there are no more.
pub proof fn law_pages_can_be_read_in_turn(
    ks: Keyspace,
    scope: Seq<char>,
    cursor: Option<Seq<char>>,
    limit: nat,
) -> (reads: Seq<PageRead>)
    requires
        1 <= limit < exact_count(),
        fields(ks, scope).finite(),
        ks.text_at(key_of(KeyRole::Active, scope)) is Some,
        pages_are_exact(ks, scope),
    ensures
        reads.len() > 0,
        forall|i: int| 0 <= i < reads.len() ==> (#[trigger] reads[i]).ks == ks,
        read_in_turn(reads, scope, cursor, limit),
        read_so_far(reads, scope, cursor, limit).next_cursor is None,
    decreases fields(ks, scope).filter(|field: Seq<char>| behind(cursor, field)).len(),
{
    lemma_statuses_differ();
    let all = fields(ks, scope);
    let found = lemma_zrangebylex_answers(all, cursor, limit + 1);
    lemma_one_page(ks, scope, cursor, limit, found);
    let first = PageRead { ks, found };
    match page_next(found, limit) {
        None => {
            seq![first]
        },
        Some(next) => {
            let left = all.filter(|field: Seq<char>| behind(cursor, field));
            let less = all.filter(|field: Seq<char>| behind(Some(next), field));
            assert(less.len() < left.len()) by {
                lemma_before_irreflexive(next);
                assert forall|field: Seq<char>| #[trigger]
                    less.insert(next).contains(field) implies left.contains(field) by {
                    if field != next && cursor is Some {
                        lemma_before_transitive(cursor->0, next, field);
                    }
                }
                vstd::set_lib::lemma_len_subset(less.insert(next), left);
            }
            let rest = law_pages_can_be_read_in_turn(ks, scope, Some(next), limit);
            let reads = seq![first] + rest;
            assert(reads.drop_first() =~= rest);
            reads
        },
    }
}

/// On every page that is read through an exact index, whatever its cursor and its limit and whether
/// there is a next one, reading the key of an item gives the value of the item. The keys are those
/// of the fields that were found, in order.
pub proof fn law_every_item_of_a_page_is_what_get_reads(
    ks: Keyspace,
    scope: Seq<char>,
    cursor: Option<Seq<char>>,
    limit: nat,
    found: Seq<Seq<char>>,
)
    requires
        1 <= limit < exact_count(),
        ks.text_at(key_of(KeyRole::Active, scope)) is Some,
        pages_are_exact(ks, scope),
        page_finds(ks, list_page_call_view(scope, cursor, limit), found),
    ensures
        list_page_outcome(Ok(page_reply(ks, scope, cursor, limit, found))) matches Ok(page) ==> {
            &&& page.items.len() == if found.len() > limit {
                limit
            } else {
                found.len()
            }
            &&& forall|i: int| #![trigger page.items[i]]
                0 <= i < page.items.len() ==> {
                    &&& page.items[i].key == found[i]
                    &&& got(ks, scope, page.items[i].key) == Ok::<Option<Value>, Seq<char>>(
                        Some(page.items[i].value),
                    )
                }
            &&& page.next_cursor is Some <==> found.len() > limit
            &&& page.next_cursor matches Some(next) ==> next == page.items.last().key
        },
{
    law_pages_hold_the_entries(ks, scope, cursor, limit, found);
    lemma_statuses_differ();
    if let Ok(page) = list_page_outcome(Ok(page_reply(ks, scope, cursor, limit, found))) {
        let frame = framed(page_reply(ks, scope, cursor, limit, found))->Ok_0;
        let entries = ks.hash(key_of(KeyRole::Hash, scope));
        let reads = frame_reads(frame);
        law_all_or_the_first_error(reads);
        assert forall|i: int| #![trigger page.items[i]] 0 <= i < page.items.len() implies {
            &&& page.items[i].key == found[i]
            &&& got(ks, scope, page.items[i].key) == Ok::<Option<Value>, Seq<char>>(
                Some(page.items[i].value),
            )
        } by {
            assert(reads[i] == json_value(entries[found[i]]));
            assert(fields(ks, scope).contains(found[i]));
        }
    }
}

/// The texts of all entries, handed over in the order of these fields. Which order that is is left
/// open; each field occurs in it once.
pub open spec fn handed_over(
    entries: Map<Seq<char>, Seq<char>>,
    order: Seq<Seq<char>>,
    texts: Seq<Seq<char>>,
) -> bool {
    &&& order.no_duplicates()
    &&& order.to_set() == entries.dom()
    &&& texts == order.map_values(|field: Seq<char>| entries[field])
}

/// A page with room for all entries holds the values that listing them gives, one for one, each
/// under the key that reads it; there is no next page. Where one of the values cannot be read, both
/// fail.
pub proof fn law_a_whole_page_agrees_with_list_and_get(
    ks: Keyspace,
    scope: Seq<char>,
    limit: nat,
    found: Seq<Seq<char>>,
    order: Seq<Seq<char>>,
    texts: Seq<Seq<char>>,
)
    requires
        fields(ks, scope).len() <= limit,
        1 <= limit < exact_count(),
        ks.text_at(key_of(KeyRole::Active, scope)) is Some,
        pages_are_exact(ks, scope),
        page_finds(ks, list_page_call_view(scope, None, limit), found),
        handed_over(run_list(ks, list_command_view(scope)).1, order, texts),
    ensures
        ({
            let page = list_page_outcome(Ok(page_reply(ks, scope, None, limit, found)));
            let list = list_outcome(Ok(texts));
            &&& page is Ok <==> list is Ok
            &&& page matches Ok(p) ==> list matches Ok(values) ==> {
                &&& p.next_cursor is None
                &&& p.items.len() == values.len() == order.len()
                &&& forall|i: int| #![trigger order[i]]
                    0 <= i < order.len() ==> p.items.contains(
                        (ItemView { key: order[i], value: values[i] }),
                    )
                &&& forall|i: int| #![trigger p.items[i]]
                    0 <= i < p.items.len() ==> order.contains(p.items[i].key) && got(
                        ks,
                        scope,
                        p.items[i].key,
                    ) == Ok::<Option<Value>, Seq<char>>(Some(p.items[i].value))
            }
        }),
{
    let all = fields(ks, scope);
    let entries = ks.hash(key_of(KeyRole::Hash, scope));
    assert(order.to_set() == all);
    vstd::seq_lib::seq_to_set_is_finite(order);
    assert(found.no_duplicates()) by {
        assert forall|i: int, j: int| 0 <= i < j < found.len() implies found[i] != found[j] by {
            lemma_before_irreflexive(found[i]);
        }
    }
    lemma_statuses_differ();
    assert(found.to_set().subset_of(all));
    found.unique_seq_to_set();
    order.unique_seq_to_set();
    vstd::set_lib::lemma_len_subset(found.to_set(), all);
    assert forall|field: Seq<char>| #[trigger] all.contains(field) implies found.contains(
        field,
    ) by {}
    assert(found.to_set() =~= all);
    law_pages_hold_the_entries(ks, scope, None, limit, found);
    let frame = framed(page_reply(ks, scope, None, limit, found))->Ok_0;
    let page_reads = frame_reads(frame);
    let list_reads = text_reads(texts);
    law_all_or_the_first_error(page_reads);
    law_all_or_the_first_error(list_reads);
    assert forall|i: int| 0 <= i < found.len() implies #[trigger] page_reads[i] == json_value(
        entries[found[i]],
    ) && order.contains(found[i]) by {
        assert(found.to_set().contains(found[i]));
        assert(order.to_set().contains(found[i]));
    }
    assert forall|i: int| 0 <= i < order.len() implies #[trigger] list_reads[i] == json_value(
        entries[order[i]],
    ) && found.contains(order[i]) by {
        assert(order.to_set().contains(order[i]));
    }
    if all_read(page_reads) is Ok {
        assert forall|i: int| 0 <= i < order.len() implies #[trigger] list_reads[i] is Ok by {
            let j = choose|j: int| 0 <= j < found.len() && found[j] == order[i];
            assert(page_reads[j] is Ok);
        }
    }
    if all_read(list_reads) is Ok {
        assert forall|i: int| 0 <= i < found.len() implies #[trigger] page_reads[i] is Ok by {
            let j = choose|j: int| 0 <= j < order.len() && order[j] == found[i];
            assert(list_reads[j] is Ok);
        }
    }
    let page = list_page_outcome(Ok(page_reply(ks, scope, None, limit, found)));
    if page is Ok && all_read(list_reads) is Ok {
        let items = page->Ok_0.items;
        let values = all_read(list_reads)->Ok_0;
        assert forall|i: int| #![trigger order[i]] 0 <= i < order.len() implies items.contains(
            (ItemView { key: order[i], value: values[i] }),
        ) by {
            assert(list_reads[i] == Ok::<Value, Seq<char>>(values[i]));
            let j = choose|j: int| 0 <= j < found.len() && found[j] == order[i];
            assert(page_reads[j] == json_value(entries[found[j]]));
            assert(items[j] == (ItemView { key: order[i], value: values[i] }));
        }
        assert forall|i: int| #![trigger items[i]] 0 <= i < items.len() implies order.contains(
            items[i].key,
        ) && got(ks, scope, items[i].key) == Ok::<Option<Value>, Seq<char>>(
            Some(items[i].value),
        ) by {
            assert(page_reads[i] == json_value(entries[found[i]]));
            assert(items[i].key == found[i]);
        }
    }
}

proof fn lemma_statuses_differ()
    ensures
        "true"@ != "false"@,
        "1"@ != "0"@,
{
    reveal_strlit("true");
    reveal_strlit("false");
    reveal_strlit("1");
    reveal_strlit("0");
    assert("true"@[0] != "false"@[0]);
    assert("1"@[0] != "0"@[0]);
}

} // verus!
