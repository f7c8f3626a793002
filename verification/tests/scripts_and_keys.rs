use redis_state::keys::state_keys;
use redis_state::scripts::state_json_update_script;
use redis_state::scripts::INDEX_WRITTEN_FIELD;
use redis_state::scripts::PUBLISHES;
use redis_state::scripts::STATE_DELETE_SCRIPT;
use redis_state::scripts::STATE_LIST_PAGE_SCRIPT;
use redis_state::scripts::STATE_RECONCILE_SCRIPT;
use redis_state::scripts::STATE_SET_SCRIPT;
use redis_state::scripts::UPDATE_WRITE;

const JSON_UPDATE_SCRIPT: &str = "
    local key = KEYS[1]
    local field = ARGV[1]
    local new_value_str = ARGV[2]
    redis.call('HSET', key, field, new_value_str)
    return {'true', '', new_value_str}
";

#[test]
fn pagination_scripts_maintain_fixed_score_indexes_atomically() {
    for script in [STATE_SET_SCRIPT, STATE_DELETE_SCRIPT] {
        assert!(script.contains("ZADD") || script.contains("ZREM"));
        assert!(script.contains("KEYS[2]"));
        assert!(script.contains("KEYS[4]"));
        assert!(script.contains("KEYS[5]"));
    }

    let update_script = state_json_update_script(JSON_UPDATE_SCRIPT);
    assert!(update_script.contains("redis.call('HSET', key, field, new_value_str)"));
    assert!(update_script.contains("redis.call('ZADD', active_index, 0, field)"));
}

#[test]
fn writes_cannot_bypass_exact_readiness_verification() {
    assert!(!STATE_SET_SCRIPT.contains("'SET', KEYS[2]"));
    assert!(!state_json_update_script(JSON_UPDATE_SCRIPT).contains("'SET', KEYS[2]"));
    assert!(STATE_RECONCILE_SCRIPT.contains("'SET', KEYS[2], KEYS[5]"));
}

#[test]
fn pagination_script_is_exclusive_bounded_and_fail_closed() {
    assert!(STATE_LIST_PAGE_SCRIPT.contains("'(' .. ARGV[2]"));
    assert!(STATE_LIST_PAGE_SCRIPT.contains("'LIMIT', 0, limit + 1"));
    assert!(STATE_LIST_PAGE_SCRIPT.contains("index is not ready"));
    assert!(!STATE_LIST_PAGE_SCRIPT.contains("HGETALL"));
    assert!(!STATE_LIST_PAGE_SCRIPT.contains("HKEYS"));
}

#[test]
fn reconciliation_is_bounded_and_checks_exact_membership() {
    assert!(STATE_RECONCILE_SCRIPT.contains("'HSCAN'"));
    assert!(STATE_RECONCILE_SCRIPT.contains("'COUNT', 1000"));
    assert!(STATE_RECONCILE_SCRIPT.contains("'ZDIFF'"));
    assert!(STATE_RECONCILE_SCRIPT.contains("'HLEN'"));
    assert!(STATE_RECONCILE_SCRIPT.contains("ZCARD"));
    assert!(STATE_RECONCILE_SCRIPT.contains("'SET', KEYS[2], KEYS[5]"));
    assert!(!STATE_RECONCILE_SCRIPT.contains("HGETALL"));
    assert!(!STATE_RECONCILE_SCRIPT.contains("HKEYS"));
}

#[test]
fn index_keys_do_not_collide_with_state_scope_scan_namespace() {
    let keys = state_keys("scope");
    assert_eq!(keys.hash, "state:scope");
    for key in [
        keys.active,
        keys.phase,
        keys.cursor,
        keys.target,
        keys.verify,
    ] {
        assert!(!key.starts_with("state:"));
    }
}

#[test]
fn state_keys_use_a_versioned_target_and_separate_active_pointer() {
    let keys = state_keys("scope");
    assert_eq!(keys.active, "iii:state-index-active:scope");
    assert_eq!(keys.target, "iii:state-index:scope:v1");
    assert_ne!(keys.active, keys.target);
}

#[test]
fn every_key_names_its_scope_and_its_role() {
    let keys = state_keys("users");
    assert_eq!(keys.hash, "state:users");
    assert_eq!(keys.active, "iii:state-index-active:users");
    assert_eq!(keys.phase, "iii:state-index-phase:users");
    assert_eq!(keys.cursor, "iii:state-index-cursor:users");
    assert_eq!(keys.target, "iii:state-index:users:v1");
    assert_eq!(keys.verify, "iii:state-index-verify:users");
    assert_eq!(state_keys("").hash, "state:");
    assert_eq!(state_keys("").target, "iii:state-index::v1");
}

#[test]
fn no_two_keys_of_two_scopes_collide() {
    let mut all = Vec::new();
    for scope in ["", ":v1", "a", "a:v1", "state:a"] {
        let k = state_keys(scope);
        all.extend([k.hash, k.active, k.phase, k.cursor, k.target, k.verify]);
    }
    for i in 0..all.len() {
        for j in 0..i {
            assert_ne!(all[i], all[j]);
        }
    }
}

#[test]
fn only_the_first_write_of_an_update_script_is_indexed() {
    let base = format!("a {UPDATE_WRITE} b {UPDATE_WRITE} c");
    assert_eq!(
        state_json_update_script(&base),
        format!("a {UPDATE_WRITE}{INDEX_WRITTEN_FIELD} b {UPDATE_WRITE} c")
    );
}

#[test]
fn an_update_script_without_a_write_stays_as_it_is() {
    assert_eq!(state_json_update_script("return 1"), "return 1");
    assert_eq!(state_json_update_script(""), "");
}

#[test]
fn an_update_indexes_its_field_as_a_set_does() {
    assert!(STATE_SET_SCRIPT.contains(INDEX_WRITTEN_FIELD));
}

#[test]
fn indexing_adds_no_publication() {
    assert!(!INDEX_WRITTEN_FIELD.contains(PUBLISHES));
    let publishing = format!("{UPDATE_WRITE} redis.call({PUBLISHES}, x)");
    assert!(state_json_update_script(&publishing).contains(PUBLISHES));
}
