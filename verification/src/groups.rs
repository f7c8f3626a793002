//! Finding the scopes: a scan over the keys of Redis, a batch at a time.

use crate::calls::Arg;
use crate::calls::ArgView;
use crate::calls::Command;
use crate::calls::CommandView;
use crate::keys::key_of;
use crate::keys::law_only_hashes_are_scanned;
use crate::keys::KeyRole;
use crate::keys::HASH_PREFIX;
use crate::page::texts;
use crate::text::join;
use crate::text::strip_prefix;
use vstd::prelude::*;

verus! {

/// The number of keys that a batch is asked to look at.
pub const SCAN_COUNT: u64 = 100;

/// The scope whose hash has this key, if it is the key of a hash.
pub open spec fn group_of(key: Seq<char>) -> Option<Seq<char>> {
    if HASH_PREFIX@.is_prefix_of(key) {
        Some(key.skip(HASH_PREFIX@.len() as int))
    } else {
        None
    }
}

/// The scopes of a batch of keys, in its order and as often as they occur in it.
pub open spec fn groups_of(keys: Seq<Seq<char>>) -> Seq<Seq<char>>
    decreases keys.len(),
{
    if keys.len() == 0 {
        Seq::empty()
    } else {
        match group_of(keys.last()) {
            Some(scope) => groups_of(keys.drop_last()).push(scope),
            None => groups_of(keys.drop_last()),
        }
    }
}

/// The command that asks for the batch at a cursor.
pub open spec fn scan_command_view(cursor: int) -> CommandView {
    CommandView {
        name: "SCAN"@,
        args: seq![
            ArgView::Number(cursor),
            ArgView::Text("MATCH"@),
            ArgView::Text(HASH_PREFIX@ + "*"@),
            ArgView::Text("COUNT"@),
            ArgView::Number(SCAN_COUNT as int),
        ],
    }
}

/// A scan for scopes.
#[derive(Debug)]
pub struct GroupScan {
    cursor: u64,
    started: bool,
    groups: Vec<String>,
}

/// A scan, over its view.
pub struct GroupScanView {
    /// Where the next batch begins.
    pub cursor: int,
    /// At least one batch has come in.
    pub started: bool,
    /// The scopes found so far.
    pub groups: Seq<Seq<char>>,
}

impl GroupScanView {
    /// All batches have come in.
    pub open spec fn done(self) -> bool {
        self.started && self.cursor == 0
    }

    /// The scan when a batch has come in.
    pub open spec fn absorb(self, cursor: int, keys: Seq<Seq<char>>) -> GroupScanView {
        GroupScanView { cursor, started: true, groups: self.groups + groups_of(keys) }
    }
}

impl View for GroupScan {
    type V = GroupScanView;

    closed spec fn view(&self) -> GroupScanView {
        GroupScanView {
            cursor: self.cursor as int,
            started: self.started,
            groups: texts(self.groups@),
        }
    }
}

impl GroupScan {
    /// A scan of which no batch has come in.
    pub fn start() -> (r: GroupScan)
        ensures
            r@ == (GroupScanView { cursor: 0, started: false, groups: Seq::empty() }),
            !r@.done(),
    {
        let r = GroupScan { cursor: 0, started: false, groups: Vec::new() };
        assert(r@.groups =~= Seq::empty());
        r
    }

    /// The command that asks for the next batch.
    pub fn command(&self) -> (r: Command)
        ensures
            r@ == scan_command_view(self@.cursor),
    {
        let args = vec![
            Arg::Number(self.cursor),
            Arg::Text("MATCH".to_string()),
            Arg::Text(join(HASH_PREFIX, "*")),
            Arg::Text("COUNT".to_string()),
            Arg::Number(SCAN_COUNT),
        ];
        let r = Command { name: "SCAN".to_string(), args };
        assert(r@ =~= scan_command_view(self@.cursor));
        r
    }

    /// Takes in a batch: where the next one begins, and the keys. Says whether there is a next
    /// one.
    pub fn absorb(&mut self, cursor: u64, keys: &Vec<String>) -> (more: bool)
        ensures
            final(self)@ == old(self)@.absorb(cursor as int, texts(keys@)),
            more == !final(self)@.done(),
            more == (cursor != 0),
    {
        let ghost before = texts(self.groups@);
        let ghost batch = texts(keys@);
        let mut i: usize = 0;
        assert(batch.take(0) =~= Seq::empty());
        assert(before + Seq::<Seq<char>>::empty() =~= before);
        while i < keys.len()
            invariant
                0 <= i <= keys.len(),
                batch == texts(keys@),
                texts(self.groups@) == before + groups_of(batch.take(i as int)),
            decreases keys.len() - i,
        {
            proof {
                assert(batch.take(i + 1).drop_last() =~= batch.take(i as int));
                assert(batch.take(i + 1).last() == keys[i as int]@);
            }
            let ghost found = texts(self.groups@);
            match strip_prefix(keys[i].as_str(), HASH_PREFIX) {
                Some(scope) => {
                    proof {
                        let key = keys[i as int]@;
                        assert(key.subrange(0, HASH_PREFIX@.len() as int) =~= HASH_PREFIX@);
                        assert(key.skip(HASH_PREFIX@.len() as int) =~= scope@);
                    }
                    self.groups.push(scope.to_string());
                    assert(texts(self.groups@) =~= found.push(scope@));
                    assert(texts(self.groups@) =~= before + groups_of(batch.take(i + 1)));
                },
                None => {},
            }
            i = i + 1;
        }
        assert(batch.take(i as int) =~= batch);
        self.cursor = cursor;
        self.started = true;
        cursor != 0
    }

    /// The scopes that were found.
    pub fn into_groups(self) -> (r: Vec<String>)
        ensures
            texts(r@) == self@.groups,
    {
        self.groups
    }
}

/// A scan finds scopes alone: the key of a hash gives its scope, and the keys of an index give
/// nothing.
pub proof fn law_scan_finds_scopes_alone(role: KeyRole, scope: Seq<char>)
    ensures
        group_of(key_of(role, scope)) == if role is Hash {
            Some(scope)
        } else {
            None
        },
{
    law_only_hashes_are_scanned(role, scope);
    if role is Hash {
        assert(key_of(role, scope).skip(HASH_PREFIX@.len() as int) =~= scope);
    }
}

/// It does not matter how the keys are cut into batches: two batches give what both together give.
pub proof fn law_batches_add_up(a: Seq<Seq<char>>, b: Seq<Seq<char>>)
    ensures
        groups_of(a + b) == groups_of(a) + groups_of(b),
    decreases b.len(),
{
    if b.len() == 0 {
        assert(a + b =~= a);
        assert(groups_of(a) + groups_of(b) =~= groups_of(a));
    } else {
        assert((a + b).drop_last() =~= a + b.drop_last());
        assert((a + b).last() == b.last());
        law_batches_add_up(a, b.drop_last());
        assert(groups_of(a + b) =~= groups_of(a) + groups_of(b));
    }
}

/// Every scope whose hash is among the keys is found, and every scope that is found has its hash
/// among them.
pub proof fn law_scan_is_exact(keys: Seq<Seq<char>>, scope: Seq<char>)
    ensures
        groups_of(keys).contains(scope) <==> keys.contains(key_of(KeyRole::Hash, scope)),
    decreases keys.len(),
{
    let hash = key_of(KeyRole::Hash, scope);
    if keys.len() > 0 {
        let front = keys.drop_last();
        law_scan_is_exact(front, scope);
        law_scan_finds_scopes_alone(KeyRole::Hash, scope);
        assert(keys =~= front.push(keys.last()));
        if group_of(keys.last()) == Some(scope) {
            assert(keys.last() =~= hash) by {
                assert(keys.last().subrange(0, HASH_PREFIX@.len() as int) =~= HASH_PREFIX@);
                assert(keys.last() =~= keys.last().subrange(0, HASH_PREFIX@.len() as int)
                    + keys.last().skip(HASH_PREFIX@.len() as int));
            }
            assert(keys[keys.len() - 1] == hash);
            assert(groups_of(keys).last() == scope);
            assert(groups_of(keys)[groups_of(keys).len() - 1] == scope);
        } else {
            assert(keys.last() != hash);
            if keys.contains(hash) {
                let i = choose|i: int| 0 <= i < keys.len() && keys[i] == hash;
                assert(front[i] == hash);
            }
            if front.contains(hash) {
                let i = choose|i: int| 0 <= i < front.len() && front[i] == hash;
                assert(keys[i] == hash);
            }
            let g = groups_of(front);
            if g.contains(scope) {
                let i = choose|i: int| 0 <= i < g.len() && g[i] == scope;
                assert(groups_of(keys)[i] == scope);
            }
            if groups_of(keys).contains(scope) {
                let i = choose|i: int|
                    0 <= i < groups_of(keys).len() && groups_of(keys)[i] == scope;
                assert(g[i] == scope);
            }
        }
    }
}

/// Where in a batch the scopes that it gives stand.
proof fn lemma_places(keys: Seq<Seq<char>>) -> (at: Seq<int>)
    ensures
        at.len() == groups_of(keys).len(),
        forall|j: int|
            0 <= j < at.len() ==> {
                &&& 0 <= #[trigger] at[j] < keys.len()
                &&& keys[at[j]] == "state:"@ + groups_of(keys)[j]
            },
        forall|i: int, j: int| 0 <= i < j < at.len() ==> at[i] < at[j],
        forall|k: int|
            0 <= k < keys.len() && "state:"@.is_prefix_of(#[trigger] keys[k]) ==> at.contains(k),
    decreases keys.len(),
{
    if keys.len() == 0 {
        Seq::empty()
    } else {
        let front = keys.drop_last();
        let last = keys.len() - 1;
        let before = lemma_places(front);
        assert forall|k: int| 0 <= k < front.len() implies front[k] == #[trigger] keys[k] by {}
        let at = if "state:"@.is_prefix_of(keys[last]) {
            before.push(last)
        } else {
            before
        };
        if "state:"@.is_prefix_of(keys[last]) {
            let head = keys[last].subrange(0, "state:"@.len() as int);
            let scope = keys[last].skip("state:"@.len() as int);
            assert(head =~= "state:"@);
            assert(keys[last] =~= head + scope);
            assert(at[before.len() as int] == last);
        }
        assert forall|j: int| 0 <= j < at.len() implies {
            &&& 0 <= #[trigger] at[j] < keys.len()
            &&& keys[at[j]] == "state:"@ + groups_of(keys)[j]
        } by {
            if j < before.len() {
                assert(at[j] == before[j]);
                assert(front[before[j]] == keys[before[j]]);
            }
        }
        assert forall|k: int|
            0 <= k < keys.len() && "state:"@.is_prefix_of(#[trigger] keys[k]) implies at.contains(
            k,
        ) by {
            if k < last {
                assert(front[k] == keys[k]);
                let j = choose|j: int| 0 <= j < before.len() && before[j] == k;
                assert(at[j] == k);
            }
        }
        at
    }
}

/// After a batch has come in there is a next one exactly where its cursor is not 0, whatever was
/// found. The scopes that were found stay, and behind them come those of the batch: for every key
/// that begins with `state:` what follows in it, in the order of the keys, and nothing else.
pub proof fn law_a_batch_adds_its_scopes_in_order(
    scan: GroupScan,
    cursor: u64,
    keys: Vec<String>,
    after: GroupScan,
    more: bool,
    found: Vec<String>,
    found_after: Vec<String>,
)
    requires
        exists|s: &mut GroupScan|
            *s == scan && *final(s) == after && call_ensures(
                GroupScan::absorb,
                (s, cursor, &keys),
                more,
            ),
        call_ensures(GroupScan::into_groups, (scan,), found),
        call_ensures(GroupScan::into_groups, (after,), found_after),
    ensures
        more == (cursor != 0),
        found_after@.len() >= found@.len(),
        forall|i: int|
            0 <= i < found@.len() ==> (#[trigger] found_after@[i])@ == found@[i]@,
        exists|at: Seq<int>|
            {
                &&& #[trigger] at.len() == found_after@.len() - found@.len()
                &&& forall|j: int|
                    0 <= j < at.len() ==> {
                        &&& 0 <= #[trigger] at[j] < keys@.len()
                        &&& keys@[at[j]]@ == "state:"@ + found_after@[found@.len() + j]@
                    }
                &&& forall|i: int, j: int| 0 <= i < j < at.len() ==> at[i] < at[j]
                &&& forall|k: int|
                    0 <= k < keys@.len() && "state:"@.is_prefix_of((#[trigger] keys@[k])@)
                        ==> at.contains(k)
            },
{
    let batch = texts(keys@);
    let at = lemma_places(batch);
    let n = found@.len();
    assert(texts(found@) == scan@.groups);
    assert(texts(found_after@) == after@.groups);
    assert(texts(found@).len() == n);
    assert(texts(found_after@).len() == found_after@.len());
    assert forall|i: int| 0 <= i < n implies (#[trigger] found_after@[i])@ == found@[i]@ by {
        assert(texts(found_after@)[i] == found_after@[i]@);
        assert(texts(found@)[i] == found@[i]@);
    }
    assert forall|j: int| 0 <= j < at.len() implies {
        &&& 0 <= #[trigger] at[j] < keys@.len()
        &&& keys@[at[j]]@ == "state:"@ + found_after@[n + j]@
    } by {
        assert(batch[at[j]] == keys@[at[j]]@);
        assert(texts(found_after@)[n + j] == found_after@[n + j]@);
    }
    assert forall|k: int|
        0 <= k < keys@.len() && "state:"@.is_prefix_of((#[trigger] keys@[k])@) implies at.contains(
        k,
    ) by {
        assert(batch[k] == keys@[k]@);
    }
    assert(at.len() == found_after@.len() - n);
}

/// A scan that was not begun has found nothing, and asks for the batch at 0. One that has taken in a
/// batch asks for the batch at the cursor that came with it. Only keys that begin with `state:` are
/// asked for.
pub proof fn law_a_scan_goes_on_where_it_was_told(
    start: GroupScan,
    found: Vec<String>,
    first: Command,
    scan: GroupScan,
    cursor: u64,
    keys: Vec<String>,
    after: GroupScan,
    more: bool,
    next: Command,
)
    requires
        call_ensures(GroupScan::start, (), start),
        call_ensures(GroupScan::into_groups, (start,), found),
        call_ensures(GroupScan::command, (&start,), first),
        exists|s: &mut GroupScan|
            *s == scan && *final(s) == after && call_ensures(
                GroupScan::absorb,
                (s, cursor, &keys),
                more,
            ),
        call_ensures(GroupScan::command, (&after,), next),
    ensures
        found@.len() == 0,
        asks_for_batch(first, 0),
        asks_for_batch(next, cursor),
{
    assert(texts(found@).len() == found@.len());
    lemma_asks(first, 0);
    lemma_asks(next, cursor);
}

/// The command asks for the batch of keys of hashes at a cursor.
pub open spec fn asks_for_batch(command: Command, cursor: u64) -> bool {
    &&& command.name@ == "SCAN"@
    &&& command.args@.len() == 5
    &&& command.args@[0] == Arg::Number(cursor)
    &&& command.args@[1] matches Arg::Text(t) && t@ == "MATCH"@
    &&& command.args@[2] matches Arg::Text(t) && t@ == "state:"@ + "*"@
    &&& command.args@[3] matches Arg::Text(t) && t@ == "COUNT"@
    &&& command.args@[4] == Arg::Number(100)
}

proof fn lemma_asks(command: Command, cursor: u64)
    requires
        command@ == scan_command_view(cursor as int),
    ensures
        asks_for_batch(command, cursor),
{
    assert(command@.args.len() == command.args@.len());
    assert(command@.args[0] == command.args@[0]@);
    assert(command@.args[1] == command.args@[1]@);
    assert(command@.args[2] == command.args@[2]@);
    assert(command@.args[3] == command.args@[3]@);
    assert(command@.args[4] == command.args@[4]@);
}

/// A scan that has taken in any number of batches has found exactly the scopes whose hash key is in
/// one of them. It was told to go on after each of them exactly where the cursor was not 0, so one
/// that goes on until it is told not to has taken in every batch up to the one with the cursor 0.
pub proof fn law_a_scan_finds_every_scope(
    scans: Seq<GroupScan>,
    cursors: Seq<u64>,
    batches: Seq<Vec<String>>,
    mores: Seq<bool>,
    found: Vec<String>,
)
    requires
        scans.len() == batches.len() + 1,
        cursors.len() == batches.len(),
        mores.len() == batches.len(),
        call_ensures(GroupScan::start, (), scans[0]),
        forall|i: int|
            #![trigger batches[i]]
            0 <= i < batches.len() ==> exists|s: &mut GroupScan|
                *s == scans[i] && *final(s) == scans[i + 1] && call_ensures(
                    GroupScan::absorb,
                    (s, cursors[i], &batches[i]),
                    mores[i],
                ),
        call_ensures(GroupScan::into_groups, (scans.last(),), found),
    ensures
        forall|i: int| 0 <= i < batches.len() ==> #[trigger] mores[i] == (cursors[i] != 0),
        forall|scope: Seq<char>|
            (exists|j: int| 0 <= j < found@.len() && (#[trigger] found@[j])@ == scope)
                <==> #[trigger] is_in_a_batch(batches, "state:"@ + scope),
{
    assert forall|i: int| #![trigger batches[i]] 0 <= i < batches.len() implies {
        &&& scans[i + 1]@.groups == scans[i]@.groups + groups_of(texts(batches[i]@))
        &&& mores[i] == (cursors[i] != 0)
    } by {}
    assert forall|i: int| 0 <= i < batches.len() implies #[trigger] mores[i] == (cursors[i]
        != 0) by {
        assert(batches[i]@.len() >= 0);
    }
    assert(texts(found@) == scans.last()@.groups);
    assert forall|scope: Seq<char>|
        (exists|j: int| 0 <= j < found@.len() && (#[trigger] found@[j])@ == scope)
            <==> #[trigger] is_in_a_batch(batches, "state:"@ + scope) by {
        lemma_found_so_far(scans, batches, batches.len(), scope);
        assert(batches.take(batches.len() as int) =~= batches);
        let groups = texts(found@);
        if groups.contains(scope) {
            let j = choose|j: int| 0 <= j < groups.len() && groups[j] == scope;
            assert(found@[j]@ == scope);
        }
        if exists|j: int| 0 <= j < found@.len() && (#[trigger] found@[j])@ == scope {
            let j = choose|j: int| 0 <= j < found@.len() && (#[trigger] found@[j])@ == scope;
            assert(groups[j] == scope);
        }
    }
}

/// After some batches the scopes are those whose hash key is in one of them.
proof fn lemma_found_so_far(
    scans: Seq<GroupScan>,
    batches: Seq<Vec<String>>,
    n: nat,
    scope: Seq<char>,
)
    requires
        scans.len() == batches.len() + 1,
        n <= batches.len(),
        scans[0]@.groups.len() == 0,
        forall|i: int|
            #![trigger batches[i]]
            0 <= i < batches.len() ==> scans[i + 1]@.groups == scans[i]@.groups + groups_of(
                texts(batches[i]@),
            ),
    ensures
        scans[n as int]@.groups.contains(scope) <==> is_in_a_batch(
            batches.take(n as int),
            "state:"@ + scope,
        ),
    decreases n,
{
    let so_far = batches.take(n as int);
    let hash = "state:"@ + scope;
    if n > 0 {
        let before = batches.take(n - 1);
        let last = batches[n - 1];
        lemma_found_so_far(scans, batches, (n - 1) as nat, scope);
        law_scan_is_exact(texts(last@), scope);
        let a = scans[n - 1]@.groups;
        let b = groups_of(texts(last@));
        assert((a + b).contains(scope) <==> a.contains(scope) || b.contains(scope)) by {
            if a.contains(scope) {
                let i = choose|i: int| 0 <= i < a.len() && a[i] == scope;
                assert((a + b)[i] == scope);
            }
            if b.contains(scope) {
                let i = choose|i: int| 0 <= i < b.len() && b[i] == scope;
                assert((a + b)[a.len() + i] == scope);
            }
        }
        if is_in_a_batch(before, hash) {
            let (i, k) = choose|i: int, k: int|
                0 <= i < before.len() && 0 <= k < before[i]@.len() && (
                #[trigger] before[i]@[k])@ == hash;
            assert(so_far[i]@[k]@ == hash);
        }
        if texts(last@).contains(hash) {
            let k = choose|k: int| 0 <= k < texts(last@).len() && texts(last@)[k] == hash;
            assert(so_far[n - 1]@[k]@ == hash);
        }
        if is_in_a_batch(so_far, hash) {
            let (i, k) = choose|i: int, k: int|
                0 <= i < so_far.len() && 0 <= k < so_far[i]@.len() && (
                #[trigger] so_far[i]@[k])@ == hash;
            if i < n - 1 {
                assert(before[i]@[k]@ == hash);
            } else {
                assert(texts(last@)[k] == hash);
            }
        }
    }
}

/// A key is in one of the batches.
pub open spec fn is_in_a_batch(batches: Seq<Vec<String>>, key: Seq<char>) -> bool {
    exists|i: int, k: int|
        0 <= i < batches.len() && 0 <= k < batches[i]@.len() && (#[trigger] batches[i]@[k])@ == key
}

} // verus!
