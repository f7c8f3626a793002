use redis_state::calls::set_call;
use redis_state::calls::Arg;
use redis_state::entries::delete_reply;
use redis_state::entries::get_reply;
use redis_state::entries::list_page_reply;
use redis_state::entries::list_reply;
use redis_state::entries::reconcile_reply;
use redis_state::entries::set_reply;
use redis_state::entries::update_reply;
use redis_state::page::decode_list_page_reply;
use redis_state::structs::StateListPageInput;
use serde_json::Value;

fn texts(values: &[&str]) -> Vec<String> {
    values.iter().map(|v| v.to_string()).collect()
}

fn json(text: &str) -> Value {
    serde_json::from_str(text).unwrap()
}

fn parse_error(text: &str) -> String {
    serde_json::from_str::<Value>(text).unwrap_err().to_string()
}

#[test]
fn list_page_reply_preserves_an_empty_next_cursor() {
    let result = decode_list_page_reply(vec![
        "true".to_string(),
        "1".to_string(),
        String::new(),
        String::new(),
        "1".to_string(),
    ])
    .unwrap();

    assert_eq!(result.next_cursor.as_deref(), Some(""));
    assert_eq!(result.items[0].key, "");
    assert_eq!(result.items[0].value, Value::from(1));
}

#[test]
fn the_last_page_has_no_next_cursor() {
    let page = decode_list_page_reply(texts(&["true", "0", "", "a", "1", "b", "{\"x\":[]}"])).unwrap();
    assert_eq!(page.next_cursor, None);
    assert_eq!(page.items.len(), 2);
    assert_eq!(page.items[0].key, "a");
    assert_eq!(page.items[0].value, json("1"));
    assert_eq!(page.items[1].key, "b");
    assert_eq!(page.items[1].value, json("{\"x\":[]}"));

    let empty = decode_list_page_reply(texts(&["true", "0", ""])).unwrap();
    assert!(empty.items.is_empty());
    assert_eq!(empty.next_cursor, None);
}

#[test]
fn a_page_reply_that_is_too_short_or_odd_is_unexpected() {
    let words = "Unexpected return value from state pagination script";
    for reply in [
        texts(&[]),
        texts(&["true", "0"]),
        texts(&["false", "0"]),
        texts(&["true", "0", "", "a"]),
    ] {
        assert_eq!(decode_list_page_reply(reply).unwrap_err().message, words);
    }
}

#[test]
fn a_page_that_is_refused_says_why() {
    let e = decode_list_page_reply(texts(&["false", "0", "", "state pagination index is not ready"]));
    assert_eq!(
        e.unwrap_err().message,
        "Failed to list state page: state pagination index is not ready"
    );
    let e = decode_list_page_reply(texts(&["false", "0", ""]));
    assert_eq!(e.unwrap_err().message, "Failed to list state page: unknown error");
    let e = list_page_reply(Err("gone".to_string()));
    assert_eq!(e.unwrap_err().message, "Failed to list state page: gone");
}

#[test]
fn the_first_bad_value_spoils_a_page() {
    let e = decode_list_page_reply(texts(&["true", "0", "", "a", "1", "b", "{", "c", "]"]));
    assert_eq!(
        e.unwrap_err().message,
        format!("Failed to deserialize paged state value: {}", parse_error("{"))
    );
}

#[test]
fn set_reports_the_value_before_and_the_value_now() {
    let now = json("{\"a\":2}");
    let first = set_reply(Ok(None), &now).unwrap();
    assert_eq!(first.old_value, None);
    assert_eq!(first.new_value, now);
    let second = set_reply(Ok(Some("[1]".to_string())), &now).unwrap();
    assert_eq!(second.old_value, Some(json("[1]")));
    assert_eq!(second.new_value, now);
}

#[test]
fn a_former_value_that_cannot_be_read_counts_as_null() {
    let r = set_reply(Ok(Some("not json".to_string())), &json("1")).unwrap();
    assert_eq!(r.old_value, Some(Value::Null));
}

#[test]
fn set_reports_that_redis_failed() {
    let e = set_reply(Err("gone".to_string()), &json("1")).unwrap_err();
    assert_eq!(e.message, "Failed to atomically set value in Redis: gone");
}

#[test]
fn get_reads_the_stored_text() {
    assert_eq!(get_reply(Ok(None)).unwrap(), None);
    assert_eq!(get_reply(Ok(Some("\"x\"".to_string()))).unwrap(), Some(Value::from("x")));
    assert_eq!(get_reply(Ok(Some("null".to_string()))).unwrap(), Some(Value::Null));
    assert_eq!(
        get_reply(Ok(Some("{".to_string()))).unwrap_err().message,
        format!("Failed to deserialize value from Redis: {}", parse_error("{"))
    );
    assert_eq!(
        get_reply(Err("gone".to_string())).unwrap_err().message,
        "Failed to get value from Redis: gone"
    );
}

#[test]
fn get_gives_back_what_set_sent() {
    for text in [
        "null",
        "true",
        "-9223372036854775808",
        "18446744073709551615",
        "\"a \\\" \\\\ \\u0001 1.5e3 \u{e9}\"",
        "[[],{},[{\"k\":[0]}]]",
        "{\"a\":{\"b\":[1,2,3]},\"\":false}",
    ] {
        let value = json(text);
        let call = set_call("s", "k", &value).unwrap();
        let stored = match &call.args[1] {
            Arg::Text(t) => t.clone(),
            Arg::Number(_) => panic!(),
        };
        assert_eq!(get_reply(Ok(Some(stored))).unwrap(), Some(value));
    }
}

#[test]
fn nesting_is_read_back_up_to_the_limit() {
    let mut value = Value::from(1);
    for _ in 0..127 {
        value = Value::Array(vec![value]);
    }
    let text = serde_json::to_string(&value).unwrap();
    assert_eq!(get_reply(Ok(Some(text))).unwrap(), Some(value.clone()));
    let deeper = serde_json::to_string(&Value::Array(vec![value])).unwrap();
    assert!(get_reply(Ok(Some(deeper))).is_err());
}

#[test]
fn update_reports_both_values() {
    let r = update_reply(Ok(texts(&["true", "1", "2"]))).unwrap();
    assert_eq!(r.old_value, Some(Value::from(1)));
    assert_eq!(r.new_value, Value::from(2));
    assert!(r.errors.is_empty());
    let r = update_reply(Ok(texts(&["true", "", "2", ""]))).unwrap();
    assert_eq!(r.old_value, None);
    assert_eq!(r.new_value, Value::from(2));
    assert!(r.errors.is_empty());
}

#[test]
fn a_former_null_counts_as_no_value_in_an_update() {
    let r = update_reply(Ok(texts(&["true", " null ", "null"]))).unwrap();
    assert_eq!(r.old_value, None);
    assert_eq!(r.new_value, Value::Null);
}

#[test]
fn update_reports_the_steps_that_failed() {
    let errors = "[{\"op_index\":0,\"code\":\"increment.not_number\",\"message\":\"m\"},\
        {\"op_index\":2,\"code\":\"append.type_mismatch\",\"message\":\"n\",\"doc_url\":\"u\"}]";
    let r = update_reply(Ok(texts(&["true", "{}", "{}", errors]))).unwrap();
    assert_eq!(r.errors.len(), 2);
    assert_eq!(r.errors[0].op_index, 0);
    assert_eq!(r.errors[0].code, "increment.not_number");
    assert_eq!(r.errors[1].op_index, 2);
    assert_eq!(r.errors[1].code, "append.type_mismatch");
    assert_eq!(r.errors[1].doc_url.as_deref(), Some("u"));
}

#[test]
fn update_reports_what_went_wrong() {
    let message = |values: &[&str]| update_reply(Ok(texts(values))).unwrap_err().message;
    assert_eq!(message(&["false", "bad path"]), "Redis atomic update script failed: bad path");
    assert_eq!(message(&["false", "", "1"]), "Redis atomic update script failed: ");
    assert_eq!(message(&[]), "Unexpected return value from update script");
    assert_eq!(message(&["false"]), "Unexpected return value from update script");
    assert_eq!(
        message(&["true", "1"]),
        "Unexpected return value from update script: expected 3 or 4 values, got 2"
    );
    assert_eq!(
        message(&["true"; 12]),
        "Unexpected return value from update script: expected 3 or 4 values, got 12"
    );
    let bad = parse_error("{");
    assert_eq!(
        message(&["true", "{", "{"]),
        format!("Failed to deserialize old value: {bad}")
    );
    assert_eq!(
        message(&["true", "1", "{", "x"]),
        format!("Failed to deserialize new value: {bad}")
    );
    assert!(message(&["true", "1", "2", "{}"])
        .starts_with("Failed to deserialize update errors: "));
    let e = update_reply(Err("gone".to_string())).unwrap_err();
    assert_eq!(e.message, "Redis atomic update script failed: gone");
}

#[test]
fn delete_does_not_care_what_was_there() {
    assert!(delete_reply(Ok(1)).is_ok());
    assert!(delete_reply(Ok(0)).is_ok());
    assert_eq!(
        delete_reply(Err("gone".to_string())).unwrap_err().message,
        "Failed to delete value from Redis: gone"
    );
}

#[test]
fn list_reads_every_value_or_none() {
    let values = list_reply(Ok(texts(&["1", "\"b\"", "null"]))).unwrap();
    assert_eq!(values, vec![Value::from(1), Value::from("b"), Value::Null]);
    assert!(list_reply(Ok(Vec::new())).unwrap().is_empty());
    assert_eq!(
        list_reply(Ok(texts(&["1", "{", "]"]))).unwrap_err().message,
        format!("Failed to deserialize value: {}", parse_error("{"))
    );
    assert_eq!(
        list_reply(Err("gone".to_string())).unwrap_err().message,
        "Failed to get group from Redis: gone"
    );
}

#[test]
fn reconciliation_matters_only_when_it_fails() {
    assert!(reconcile_reply(Ok(texts(&["ready"]))).is_ok());
    assert!(reconcile_reply(Ok(texts(&["building"]))).is_ok());
    assert_eq!(
        reconcile_reply(Err("gone".to_string())).unwrap_err().message,
        "Failed to reconcile state pagination index: gone"
    );
}

#[test]
fn page_limits_have_a_default_and_a_range() {
    let limit = |n: Option<usize>| {
        StateListPageInput { scope: "s".to_string(), cursor: None, limit: n }.page_limit()
    };
    assert_eq!(limit(None), Some(100));
    assert_eq!(limit(Some(0)), None);
    assert_eq!(limit(Some(1)), Some(1));
    assert_eq!(limit(Some(1000)), Some(1000));
    assert_eq!(limit(Some(1001)), None);
}
