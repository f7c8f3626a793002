//! What the commands and scripts do to the data in Redis.
//!
//! Redis runs each of them in one step. The functions here say what each does with the keys and
//! arguments of its call. The text of a script stands beside what it does; of any other text nothing
//! is said. `keys[0]` is what a script calls `KEYS[1]`. That Redis does what is said here is not proved: the laws in
//! [`crate::index`], [`crate::rebuild`], [`crate::storing`] and [`crate::listing`] rest on it.

use crate::calls::ArgView;
use crate::calls::CommandView;
use crate::calls::ScriptCallView;
use crate::keyspace::zrangebylex;
use crate::keyspace::Keyspace;
use vstd::prelude::*;

verus! {

/// The text of an argument.
pub open spec fn arg_text(arg: ArgView) -> Seq<char> {
    arg->Text_0
}

/// Lists a field that was written in the active index, and in both sets of a running rebuild.
pub open spec fn index_field(ks: Keyspace, keys: Seq<Seq<char>>, field: Seq<char>) -> Keyspace {
    let listed = match ks.text_at(keys[1]) {
        Some(active) => ks.zadd(active, set![field]),
        None => ks,
    };
    if listed.text_at(keys[2]) is Some {
        listed.zadd(keys[3], set![field]).zadd(keys[4], set![field])
    } else {
        listed
    }
}

/// Takes a field that was removed out of the active index, and out of both sets of a running
/// rebuild.
pub open spec fn unindex_field(ks: Keyspace, keys: Seq<Seq<char>>, field: Seq<char>) -> Keyspace {
    let unlisted = match ks.text_at(keys[1]) {
        Some(active) => ks.zrem(active, field),
        None => ks,
    };
    if unlisted.text_at(keys[2]) is Some {
        unlisted.zrem(keys[3], field).zrem(keys[4], field)
    } else {
        unlisted
    }
}

/// The text whose effect [`index_field`] describes, where `field` is the field that was written.
pub open spec fn index_field_text() -> Seq<char> {
    r#"
    local active_index = redis.call('GET', KEYS[2])
    if active_index then
        redis.call('ZADD', active_index, 0, field)
    end
    if redis.call('EXISTS', KEYS[3]) == 1 then
        redis.call('ZADD', KEYS[4], 0, field)
        redis.call('ZADD', KEYS[5], 0, field)
    end"#@
}

/// What writing an entry does, with what follows the write so that its field is indexed.
pub open spec fn write_entry(
    ks: Keyspace,
    keys: Seq<Seq<char>>,
    field: Seq<char>,
    text: Seq<char>,
) -> Keyspace {
    index_field(ks.hset(keys[0], field, text), keys, field)
}

/// What `HGET` does, and what it answers.
pub open spec fn run_get(ks: Keyspace, command: CommandView) -> (Keyspace, Option<Seq<char>>) {
    if command.name == "HGET"@ {
        (ks, ks.hget(arg_text(command.args[0]), arg_text(command.args[1])))
    } else {
        arbitrary()
    }
}

/// What `HGETALL` does, and what it answers: the fields with their values, in no order to rely on.
pub open spec fn run_list(ks: Keyspace, command: CommandView) -> (
    Keyspace,
    Map<Seq<char>, Seq<char>>,
) {
    if command.name == "HGETALL"@ {
        (ks, ks.hash(arg_text(command.args[0])))
    } else {
        arbitrary()
    }
}

/// The text whose effect [`run_set`] describes.
pub open spec fn set_script() -> Seq<char> {
    r#"
    local field = ARGV[1]
    local old_value = redis.call('HGET', KEYS[1], field)
    redis.call('HSET', KEYS[1], field, ARGV[2])
    local active_index = redis.call('GET', KEYS[2])
    if active_index then
        redis.call('ZADD', active_index, 0, field)
    end
    if redis.call('EXISTS', KEYS[3]) == 1 then
        redis.call('ZADD', KEYS[4], 0, field)
        redis.call('ZADD', KEYS[5], 0, field)
    end
    return old_value
"#@
}

/// What the script that stores an entry does, and what it answers.
pub open spec fn run_set(ks: Keyspace, call: ScriptCallView) -> (Keyspace, Option<Seq<char>>) {
    let field = arg_text(call.args[0]);
    let text = arg_text(call.args[1]);
    if call.script == set_script() {
        let old_value = ks.hget(call.keys[0], field);
        (write_entry(ks, call.keys, field, text), old_value)
    } else {
        arbitrary()
    }
}

/// The text whose effect [`run_delete`] describes.
pub open spec fn delete_script() -> Seq<char> {
    r#"
    local field = ARGV[1]
    redis.call('HDEL', KEYS[1], field)
    local active_index = redis.call('GET', KEYS[2])
    if active_index then
        redis.call('ZREM', active_index, field)
    end
    if redis.call('EXISTS', KEYS[3]) == 1 then
        redis.call('ZREM', KEYS[4], field)
        redis.call('ZREM', KEYS[5], field)
    end
    return 1
"#@
}

/// What the script that removes an entry does.
pub open spec fn run_delete(ks: Keyspace, call: ScriptCallView) -> Keyspace {
    let field = arg_text(call.args[0]);
    if call.script == delete_script() {
        unindex_field(ks.hdel(call.keys[0], field), call.keys, field)
    } else {
        arbitrary()
    }
}

/// Scripts count in floating point: up to here they count exactly.
pub open spec fn exact_count() -> nat {
    0x20_0000_0000_0000
}

/// The bound that the page script reads from.
pub open spec fn page_bound(call: ScriptCallView) -> Option<Seq<char>> {
    if arg_text(call.args[0]) == "1"@ {
        Some(arg_text(call.args[1]))
    } else {
        None
    }
}

/// The limit that the page script is given.
pub open spec fn page_limit(call: ScriptCallView) -> nat {
    (call.args[2]->Number_0) as nat
}

/// The page script finds these fields in the active index: one more than the limit, if there are
/// as many, so that it knows whether there is more.
pub open spec fn page_finds(ks: Keyspace, call: ScriptCallView, found: Seq<Seq<char>>) -> bool {
    ks.text_at(call.keys[1]) matches Some(active) ==> zrangebylex(
        ks.zset(active),
        page_bound(call),
        page_limit(call) + 1,
        found,
    )
}

/// Fields and their values in turn.
pub open spec fn alternating(fields: Seq<Seq<char>>, texts: Map<Seq<char>, Seq<char>>) -> Seq<
    Seq<char>,
> {
    Seq::new(
        2 * fields.len(),
        |i: int|
            if i % 2 == 0 {
                fields[i / 2]
            } else {
                texts[fields[i / 2]]
            },
    )
}

/// The fields of a page.
pub open spec fn page_fields(found: Seq<Seq<char>>, limit: nat) -> Seq<Seq<char>> {
    if found.len() > limit {
        found.take(limit as int)
    } else {
        found
    }
}

/// The cursor of the page that follows: the last field of this one, where there is more.
pub open spec fn page_next(found: Seq<Seq<char>>, limit: nat) -> Option<Seq<char>> {
    if 0 < limit < found.len() {
        Some(found[limit - 1])
    } else {
        None
    }
}

/// The text whose effect [`run_list_page`] describes.
pub open spec fn list_page_script() -> Seq<char> {
    r#"
    local active_index = redis.call('GET', KEYS[2])
    if not active_index then
        return {'false', '0', '', 'state pagination index is not ready'}
    end
    local lower = '-'
    if ARGV[1] == '1' then
        lower = '(' .. ARGV[2]
    end
    local limit = tonumber(ARGV[3])
    local keys = redis.call('ZRANGEBYLEX', active_index, lower, '+', 'LIMIT', 0, limit + 1)
    local result = {'true', '0', ''}
    if #keys > limit then
        result[2] = '1'
        result[3] = keys[limit]
    end
    local count = math.min(#keys, limit)
    for i = 1, count do
        local value = redis.call('HGET', KEYS[1], keys[i])
        if not value then
            return {'false', '0', '', 'state pagination index does not match canonical hash'}
        end
        result[#result + 1] = keys[i]
        result[#result + 1] = value
    end
    return result
"#@
}

/// What the page script does, and what it answers. A page of no entries has no last field: where
/// there is more, the answer breaks off at the cursor.
pub open spec fn run_list_page(ks: Keyspace, call: ScriptCallView, found: Seq<Seq<char>>) -> (
    Keyspace,
    Seq<Seq<char>>,
) {
    let limit = page_limit(call);
    let hash = ks.hash(call.keys[0]);
    let shown = page_fields(found, limit);
    if call.script != list_page_script() {
        arbitrary()
    } else if ks.text_at(call.keys[1]) is None {
        (ks, seq!["false"@, "0"@, ""@, "state pagination index is not ready"@])
    } else if limit >= exact_count() {
        arbitrary()
    } else if limit == 0 && found.len() > 0 {
        (ks, seq!["true"@, "1"@])
    } else if exists|i: int| 0 <= i < shown.len() && !hash.contains_key(#[trigger] shown[i]) {
        (ks, seq!["false"@, "0"@, ""@, "state pagination index does not match canonical hash"@])
    } else {
        match page_next(found, limit) {
            Some(next) => (ks, seq!["true"@, "1"@, next] + alternating(shown, hash)),
            None => (ks, seq!["true"@, "0"@, ""@] + alternating(shown, hash)),
        }
    }
}

/// A batch of fields, as `HSCAN` gives it: where the next one begins, and some fields of the hash.
pub struct HashBatch {
    pub cursor: Seq<char>,
    pub fields: Set<Seq<char>>,
}

/// The text whose effect [`run_reconcile`] describes.
pub open spec fn reconcile_script() -> Seq<char> {
    r#"
    if redis.call('GET', KEYS[2]) == KEYS[5] and redis.call('EXISTS', KEYS[3]) == 0 then
        return {'ready'}
    end

    local phase = redis.call('GET', KEYS[3])
    if not phase then
        phase = 'build'
        redis.call('SET', KEYS[3], phase)
        redis.call('SET', KEYS[4], '0')
        redis.call('DEL', KEYS[5], KEYS[6])
    end

    local cursor = redis.call('GET', KEYS[4]) or '0'
    local scan = redis.call('HSCAN', KEYS[1], cursor, 'COUNT', 1000)
    local target = phase == 'build' and KEYS[5] or KEYS[6]
    local entries = scan[2]
    for i = 1, #entries, 2 do
        redis.call('ZADD', target, 0, entries[i])
    end
    redis.call('SET', KEYS[4], scan[1])
    if scan[1] ~= '0' then
        return {'building'}
    end

    if phase == 'build' then
        redis.call('SET', KEYS[3], 'verify')
        redis.call('SET', KEYS[4], '0')
        return {'building'}
    end

    local hash_count = redis.call('HLEN', KEYS[1])
    local build_count = redis.call('ZCARD', KEYS[5])
    local verify_count = redis.call('ZCARD', KEYS[6])
    local build_only = redis.call('ZDIFF', 2, KEYS[5], KEYS[6])
    local verify_only = redis.call('ZDIFF', 2, KEYS[6], KEYS[5])
    if hash_count ~= build_count or build_count ~= verify_count or #build_only ~= 0 or #verify_only ~= 0 then
        redis.call('DEL', KEYS[5], KEYS[6])
        redis.call('SET', KEYS[3], 'build')
        redis.call('SET', KEYS[4], '0')
        return {'building'}
    end

    redis.call('SET', KEYS[2], KEYS[5])
    redis.call('DEL', KEYS[3], KEYS[4], KEYS[6])
    return {'ready'}
"#@
}

/// What the reconciliation script does, and what it answers, where the scan of the hash gives this
/// batch.
pub open spec fn run_reconcile(ks: Keyspace, call: ScriptCallView, batch: HashBatch) -> (
    Keyspace,
    Seq<char>,
) {
    let (hash, active, phase, cursor, target, verify) = (
        call.keys[0],
        call.keys[1],
        call.keys[2],
        call.keys[3],
        call.keys[4],
        call.keys[5],
    );
    if call.script != reconcile_script() {
        arbitrary()
    } else if ks.text_at(active) == Some(target) && ks.text_at(phase) is None {
        (ks, "ready"@)
    } else {
        let begun = if ks.text_at(phase) is None {
            ks.with_text(phase, "build"@).with_text(cursor, "0"@).without(target).without(verify)
        } else {
            ks
        };
        let building = begun.text_at(phase) == Some("build"@);
        let scanned = begun.zadd(
            if building {
                target
            } else {
                verify
            },
            batch.fields,
        ).with_text(cursor, batch.cursor);
        if batch.cursor != "0"@ {
            (scanned, "building"@)
        } else if building {
            (scanned.with_text(phase, "verify"@).with_text(cursor, "0"@), "building"@)
        } else if {
            ||| scanned.hash(hash).dom().len() != scanned.zset(target).len()
            ||| scanned.zset(target).len() != scanned.zset(verify).len()
            ||| scanned.zset(target).difference(scanned.zset(verify)).len() != 0
            ||| scanned.zset(verify).difference(scanned.zset(target)).len() != 0
        } {
            (
                scanned.without(target).without(verify).with_text(phase, "build"@).with_text(
                    cursor,
                    "0"@,
                ),
                "building"@,
            )
        } else {
            (
                scanned.with_text(active, target).without(phase).without(cursor).without(verify),
                "ready"@,
            )
        }
    }
}

} // verus!
