//! The Lua scripts that Redis runs, each as one atomic step.

use crate::text::find_from;
use crate::text::join;
use crate::text::lemma_find_from;
use crate::text::occurs_at;
use crate::text::occurs_in;
use crate::text::replaced;
use crate::text::replacen;
use vstd::prelude::*;

verus! {

/// Stores an entry and lists its field in the active index, and in both sets of a running rebuild.
/// Keys: hash, active, phase, target, verify. Arguments: field, value. Answers the former value.
pub const STATE_SET_SCRIPT: &'static str = r#"
    local field = ARGV[1]
    local old_value = redis.call('HGET', KEYS[1], field)
    redis.call('HSET', KEYS[1], field, ARGV[2])
    local active_index = redis.call('GET', KEYS[2])
    if active_index then
        redis.call('ZADD', active_index, 0, field)
    end
    if redis.call('EXISTS', KEYS[3]) == 1 then
        redis.call('ZADD', KEYS[4], 0, field)
        redis.call('ZADD', KEYS[5], 0, field)
    end
    return old_value
"#;

/// Removes an entry and its field from the active index, and from both sets of a running rebuild.
/// Keys: hash, active, phase, target, verify. Argument: field.
pub const STATE_DELETE_SCRIPT: &'static str = r#"
    local field = ARGV[1]
    redis.call('HDEL', KEYS[1], field)
    local active_index = redis.call('GET', KEYS[2])
    if active_index then
        redis.call('ZREM', active_index, field)
    end
    if redis.call('EXISTS', KEYS[3]) == 1 then
        redis.call('ZREM', KEYS[4], field)
        redis.call('ZREM', KEYS[5], field)
    end
    return 1
"#;

/// Reads one page from the active index, in the order of the fields.
/// Keys: hash, active. Arguments: `1` where a cursor is given, else `0`; the cursor, which the page
/// lies behind; the limit. Answers `true`, whether there is more, the next cursor, and the entries
/// as alternating fields and values; or `false`, `0`, nothing, and the reason.
pub const STATE_LIST_PAGE_SCRIPT: &'static str = r#"
    local active_index = redis.call('GET', KEYS[2])
    if not active_index then
        return {'false', '0', '', 'state pagination index is not ready'}
    end
    local lower = '-'
    if ARGV[1] == '1' then
        lower = '(' .. ARGV[2]
    end
    local limit = tonumber(ARGV[3])
    local keys = redis.call('ZRANGEBYLEX', active_index, lower, '+', 'LIMIT', 0, limit + 1)
    local result = {'true', '0', ''}
    if #keys > limit then
        result[2] = '1'
        result[3] = keys[limit]
    end
    local count = math.min(#keys, limit)
    for i = 1, count do
        local value = redis.call('HGET', KEYS[1], keys[i])
        if not value then
            return {'false', '0', '', 'state pagination index does not match canonical hash'}
        end
        result[#result + 1] = keys[i]
        result[#result + 1] = value
    end
    return result
"#;

/// Takes one bounded step towards an index that lists the fields of the hash exactly, and publishes
/// it as the active one only when it has been checked to do so.
/// Keys: hash, active, phase, cursor, target, verify. Answers `ready` or `building`.
pub const STATE_RECONCILE_SCRIPT: &'static str = r#"
    if redis.call('GET', KEYS[2]) == KEYS[5] and redis.call('EXISTS', KEYS[3]) == 0 then
        return {'ready'}
    end

    local phase = redis.call('GET', KEYS[3])
    if not phase then
        phase = 'build'
        redis.call('SET', KEYS[3], phase)
        redis.call('SET', KEYS[4], '0')
        redis.call('DEL', KEYS[5], KEYS[6])
    end

    local cursor = redis.call('GET', KEYS[4]) or '0'
    local scan = redis.call('HSCAN', KEYS[1], cursor, 'COUNT', 1000)
    local target = phase == 'build' and KEYS[5] or KEYS[6]
    local entries = scan[2]
    for i = 1, #entries, 2 do
        redis.call('ZADD', target, 0, entries[i])
    end
    redis.call('SET', KEYS[4], scan[1])
    if scan[1] ~= '0' then
        return {'building'}
    end

    if phase == 'build' then
        redis.call('SET', KEYS[3], 'verify')
        redis.call('SET', KEYS[4], '0')
        return {'building'}
    end

    local hash_count = redis.call('HLEN', KEYS[1])
    local build_count = redis.call('ZCARD', KEYS[5])
    local verify_count = redis.call('ZCARD', KEYS[6])
    local build_only = redis.call('ZDIFF', 2, KEYS[5], KEYS[6])
    local verify_only = redis.call('ZDIFF', 2, KEYS[6], KEYS[5])
    if hash_count ~= build_count or build_count ~= verify_count or #build_only ~= 0 or #verify_only ~= 0 then
        redis.call('DEL', KEYS[5], KEYS[6])
        redis.call('SET', KEYS[3], 'build')
        redis.call('SET', KEYS[4], '0')
        return {'building'}
    end

    redis.call('SET', KEYS[2], KEYS[5])
    redis.call('DEL', KEYS[3], KEYS[4], KEYS[6])
    return {'ready'}
"#;

/// Where an update script writes the new value.
pub const UPDATE_WRITE: &'static str = "redis.call('HSET', key, field, new_value_str)";

/// What follows that write so that the field is listed in the active index, and in both sets of a
/// running rebuild. The keys are those of [`STATE_SET_SCRIPT`].
pub const INDEX_WRITTEN_FIELD: &'static str = r#"
    local active_index = redis.call('GET', KEYS[2])
    if active_index then
        redis.call('ZADD', active_index, 0, field)
    end
    if redis.call('EXISTS', KEYS[3]) == 1 then
        redis.call('ZADD', KEYS[4], 0, field)
        redis.call('ZADD', KEYS[5], 0, field)
    end"#;

/// An update script that also keeps the pagination index: behind its first write of the new value
/// the field is indexed.
pub open spec fn indexed_update_script(json_update_script: Seq<char>) -> Seq<char> {
    replaced(json_update_script, UPDATE_WRITE@, UPDATE_WRITE@ + INDEX_WRITTEN_FIELD@, 1)
}

/// The script of an atomic update of an entry, made from one that updates a field of a hash.
pub fn state_json_update_script(json_update_script: &str) -> (r: String)
    ensures
        r@ == indexed_update_script(json_update_script@),
{
    proof {
        reveal_strlit("redis.call('HSET', key, field, new_value_str)");
    }
    replacen(
        json_update_script,
        UPDATE_WRITE,
        join(UPDATE_WRITE, INDEX_WRITTEN_FIELD).as_str(),
        1,
    )
}

/// What would make an index the active one.
pub const PUBLISHES: &'static str = "'SET', KEYS[2]";

/// From position `i` on, no quote in `text` is followed by an `S`.
spec fn no_quoted_s(text: Seq<char>, i: int) -> bool
    decreases text.len() - i,
{
    i + 1 >= text.len() || !(text[i] == '\'' && text[i + 1] == 'S') && no_quoted_s(text, i + 1)
}

proof fn lemma_written_field_literal()
    ensures
        no_quoted_s(INDEX_WRITTEN_FIELD@, 0),
        INDEX_WRITTEN_FIELD@.len() > 1,
        INDEX_WRITTEN_FIELD@[0] == '\n',
        INDEX_WRITTEN_FIELD@.last() == 'd',
{
    reveal_strlit(r#"
    local active_index = redis.call('GET', KEYS[2])
    if active_index then
        redis.call('ZADD', active_index, 0, field)
    end
    if redis.call('EXISTS', KEYS[3]) == 1 then
        redis.call('ZADD', KEYS[4], 0, field)
        redis.call('ZADD', KEYS[5], 0, field)
    end"#);
    let text = INDEX_WRITTEN_FIELD@;
    reveal_with_fuel(no_quoted_s, 42);
    assert(no_quoted_s(text, 243));
    assert(no_quoted_s(text, 203));
    assert(no_quoted_s(text, 163));
    assert(no_quoted_s(text, 123));
    assert(no_quoted_s(text, 83));
    assert(no_quoted_s(text, 43));
    assert(no_quoted_s(text, 3));
    assert(no_quoted_s(text, 0));
}

proof fn lemma_no_quoted_s(text: Seq<char>, i: int, k: int)
    requires
        0 <= i <= k,
        k + 1 < text.len(),
        no_quoted_s(text, i),
    ensures
        !(text[k] == '\'' && text[k + 1] == 'S'),
    decreases k - i,
{
    if i < k {
        lemma_no_quoted_s(text, i + 1, k);
    }
}

/// The field is indexed right behind the first write of an update script, and nothing else of the
/// script changes. A script without such a write stays as it is.
pub proof fn law_update_script_indexes_its_write(script: Seq<char>)
    ensures
        !occurs_in(script, UPDATE_WRITE@) ==> indexed_update_script(script) == script,
        occurs_in(script, UPDATE_WRITE@) ==> exists|i: int|
            {
                &&& #[trigger] occurs_at(script, UPDATE_WRITE@, i)
                &&& forall|j: int| 0 <= j < i ==> !#[trigger] occurs_at(script, UPDATE_WRITE@, j)
                &&& indexed_update_script(script) == script.subrange(0, i + UPDATE_WRITE@.len())
                    + INDEX_WRITTEN_FIELD@ + script.subrange(
                    i + UPDATE_WRITE@.len(),
                    script.len() as int,
                )
            },
{
    let write = UPDATE_WRITE@;
    lemma_find_from(script, write, 0);
    if let Some(i) = find_from(script, write, 0) {
        let rest = script.subrange(i + write.len(), script.len() as int);
        reveal_with_fuel(replaced, 2);
        assert(indexed_update_script(script) == script.subrange(0, i) + (write
            + INDEX_WRITTEN_FIELD@) + rest);
        assert(script.subrange(0, i + write.len()) =~= script.subrange(0, i) + write);
        assert(indexed_update_script(script) =~= script.subrange(0, i + write.len())
            + INDEX_WRITTEN_FIELD@ + rest);
        assert(occurs_at(script, write, i));
    }
}

/// Indexing the write of an update script does not let it publish an index: where the script did
/// not name the pointer to the active index as the target of a `SET`, it does not do so now.
pub proof fn law_indexing_publishes_nothing(script: Seq<char>)
    ensures
        occurs_in(indexed_update_script(script), PUBLISHES@) ==> occurs_in(script, PUBLISHES@),
{
    let out = indexed_update_script(script);
    let needle = PUBLISHES@;
    let added = INDEX_WRITTEN_FIELD@;
    law_update_script_indexes_its_write(script);
    if occurs_in(out, needle) && out != script {
        let i = choose|i: int|
            #[trigger] occurs_at(script, UPDATE_WRITE@, i) && (forall|j: int|
                0 <= j < i ==> !#[trigger] occurs_at(script, UPDATE_WRITE@, j))
                && indexed_update_script(script) == script.subrange(0, i + UPDATE_WRITE@.len())
                + INDEX_WRITTEN_FIELD@ + script.subrange(
                i + UPDATE_WRITE@.len(),
                script.len() as int,
            );
        let p = i + UPDATE_WRITE@.len();
        let m = added.len();
        let k = choose|k: int| occurs_at(out, needle, k);
        lemma_written_field_literal();
        reveal_strlit("'SET', KEYS[2]");
        assert forall|j: int| 0 <= j < needle.len() implies #[trigger] needle[j] == out[k + j] by {
            assert(out.subrange(k, k + needle.len())[j] == out[k + j]);
        }
        if k + needle.len() <= p {
            assert(script.subrange(k, k + needle.len()) =~= out.subrange(k, k + needle.len()));
            assert(occurs_at(script, needle, k));
        } else if k >= p + m {
            assert(script.subrange(k - m, k - m + needle.len()) =~= out.subrange(
                k,
                k + needle.len(),
            ));
            assert(occurs_at(script, needle, k - m));
        } else if k < p {
            assert(needle[p - k] == out[p]);
            assert(out[p] == added[0]);
            assert(needle[p - k] == '\n');
            assert(false);
        } else {
            assert(needle[0] == out[k] && out[k] == added[k - p]);
            if k - p + 1 < m {
                assert(needle[1] == out[k + 1] && out[k + 1] == added[k - p + 1]);
                lemma_no_quoted_s(added, 0, k - p);
            }
            assert(false);
        }
    }
}

} // verus!
