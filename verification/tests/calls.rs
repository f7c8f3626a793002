use iii_helpers::stream::UpdateOp;
use redis_state::calls::delete_call;
use redis_state::calls::get_command;
use redis_state::calls::list_command;
use redis_state::calls::list_page_call;
use redis_state::calls::reconcile_call;
use redis_state::calls::set_call;
use redis_state::calls::set_call_with;
use redis_state::calls::update_call;
use redis_state::calls::update_call_with;
use redis_state::calls::Arg;
use redis_state::scripts::state_json_update_script;
use redis_state::scripts::STATE_DELETE_SCRIPT;
use redis_state::scripts::STATE_LIST_PAGE_SCRIPT;
use redis_state::scripts::STATE_RECONCILE_SCRIPT;
use redis_state::scripts::STATE_SET_SCRIPT;
use redis_state::structs::StateUpdateInput;
use serde_json::Value;

fn shown(args: &[Arg]) -> Vec<String> {
    args.iter()
        .map(|a| match a {
            Arg::Text(t) => format!("text {t}"),
            Arg::Number(n) => format!("number {n}"),
        })
        .collect()
}

const WRITE_KEYS: [&str; 5] = [
    "state:s",
    "iii:state-index-active:s",
    "iii:state-index-phase:s",
    "iii:state-index:s:v1",
    "iii:state-index-verify:s",
];

#[test]
fn set_sends_the_value_as_json() {
    let value: Value = serde_json::from_str("{\"b\": [1, null], \"a\": \"x\"}").unwrap();
    let call = set_call("s", "k", &value).unwrap();
    assert_eq!(call.script, STATE_SET_SCRIPT);
    assert_eq!(call.keys, WRITE_KEYS);
    assert_eq!(call.args.len(), 2);
    assert_eq!(shown(&call.args)[0], "text k");
    let sent = match &call.args[1] {
        Arg::Text(t) => t.clone(),
        Arg::Number(_) => panic!(),
    };
    assert_eq!(sent, serde_json::to_string(&value).unwrap());
    assert_eq!(serde_json::from_str::<Value>(&sent).unwrap(), value);
}

#[test]
fn set_reports_a_value_that_cannot_be_written() {
    let e = set_call_with("s", "k", Err("no".to_string())).unwrap_err();
    assert_eq!(e.message, "Failed to serialize value: no");
}

#[test]
fn update_sends_its_steps_as_json() {
    let input = StateUpdateInput {
        scope: "s".to_string(),
        key: "k".to_string(),
        ops: vec![UpdateOp::increment("n", 3), UpdateOp::remove("m")],
    };
    let copy = input.clone();
    let base = "x redis.call('HSET', key, field, new_value_str) y";
    let call = update_call(base, &copy.scope, &copy.key, &copy.ops).unwrap();
    assert_eq!(call.script, state_json_update_script(base));
    assert_ne!(call.script, base);
    assert_eq!(call.keys, WRITE_KEYS);
    assert_eq!(
        shown(&call.args),
        [
            "text k",
            "text [{\"type\":\"increment\",\"path\":\"n\",\"by\":3},{\"type\":\"remove\",\"path\":\"m\"}]"
        ]
    );
}

#[test]
fn update_reports_steps_that_cannot_be_written() {
    let e = update_call_with("", "s", "k", Err("no".to_string())).unwrap_err();
    assert_eq!(e.message, "Failed to serialize update operations: no");
}

#[test]
fn delete_sends_the_key_alone() {
    let call = delete_call("s", "k");
    assert_eq!(call.script, STATE_DELETE_SCRIPT);
    assert_eq!(call.keys, WRITE_KEYS);
    assert_eq!(shown(&call.args), ["text k"]);
}

#[test]
fn get_and_list_read_the_hash() {
    let get = get_command("s", "k");
    assert_eq!(get.name, "HGET");
    assert_eq!(shown(&get.args), ["text state:s", "text k"]);
    let list = list_command("s");
    assert_eq!(list.name, "HGETALL");
    assert_eq!(shown(&list.args), ["text state:s"]);
}

#[test]
fn reconciliation_sends_all_six_keys() {
    let call = reconcile_call("s");
    assert_eq!(call.script, STATE_RECONCILE_SCRIPT);
    assert_eq!(
        call.keys,
        [
            "state:s",
            "iii:state-index-active:s",
            "iii:state-index-phase:s",
            "iii:state-index-cursor:s",
            "iii:state-index:s:v1",
            "iii:state-index-verify:s",
        ]
    );
    assert!(call.args.is_empty());
}

#[test]
fn an_empty_cursor_is_a_cursor() {
    let keys = ["state:s", "iii:state-index-active:s"];
    let first = list_page_call("s", None, 100);
    assert_eq!(first.script, STATE_LIST_PAGE_SCRIPT);
    assert_eq!(first.keys, keys);
    assert_eq!(shown(&first.args), ["text 0", "text ", "number 100"]);
    let behind_empty = list_page_call("s", Some(""), 1);
    assert_eq!(shown(&behind_empty.args), ["text 1", "text ", "number 1"]);
    let behind_a = list_page_call("s", Some("a"), 10);
    assert_eq!(shown(&behind_a.args), ["text 1", "text a", "number 10"]);
}

#[test]
fn steps_of_every_kind_are_written() {
    let nested = serde_json::from_str::<Value>("{\"a\":[1.5,null,\"\\u0000\"]}").unwrap();
    let ops = vec![
        UpdateOp::set("p", Some(nested.clone())),
        UpdateOp::set("p", None::<Value>),
        UpdateOp::merge(nested.clone()),
        UpdateOp::merge_at_path(vec!["a", "b"], nested.clone()),
        UpdateOp::increment("n", i64::MAX),
        UpdateOp::decrement("n", i64::MIN),
        UpdateOp::append_root(nested.clone()),
        UpdateOp::append("l", nested),
        UpdateOp::remove("m"),
    ];
    let call = update_call("", "s", "k", &ops).unwrap();
    assert_eq!(shown(&call.args)[1], format!("text {}", serde_json::to_string(&ops).unwrap()));
    let call = update_call("", "s", "k", &Vec::new()).unwrap();
    assert_eq!(shown(&call.args)[1], "text []");
}
