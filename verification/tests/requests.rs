use redis_state::calls::list_page_call;
use redis_state::calls::reconcile_call;
use redis_state::calls::set_call;
use redis_state::calls::Arg;
use redis_state::calls::ScriptCall;
use redis_state::entries::get_reply;
use redis_state::entries::list_reply;
use redis_state::entries::set_reply;
use redis_state::page::decode_list_page_reply;
use redis_state::request::PageRequest;
use serde_json::Value;

fn texts(values: &[&str]) -> Vec<String> {
    values.iter().map(|v| v.to_string()).collect()
}

fn shown(call: &ScriptCall) -> String {
    format!("{call:?}")
}

fn sent_text(scope: &str, key: &str, value: &Value) -> String {
    match &set_call(scope, key, value).unwrap().args[1] {
        Arg::Text(text) => text.clone(),
        Arg::Number(_) => panic!("a value is sent as text"),
    }
}

#[test]
fn a_request_reconciles_and_then_reads_the_page() {
    for found in ["ready", "building"] {
        let mut request = PageRequest::start("users", Some("u1"), 2);
        assert_eq!(shown(&request.call()), shown(&reconcile_call("users")));
        assert!(request.absorb(Ok(texts(&[found]))).is_none());
        assert_eq!(shown(&request.call()), shown(&list_page_call("users", Some("u1"), 2)));
        let page = request
            .absorb(Ok(texts(&["true", "1", "u3", "u2", "1", "u3", "2"])))
            .unwrap()
            .unwrap();
        assert_eq!(page.next_cursor.as_deref(), Some("u3"));
        assert_eq!(page.items.len(), 2);
        assert_eq!(page.items[1].key, "u3");
        assert_eq!(page.items[1].value, Value::from(2));
    }
}

#[test]
fn a_request_from_the_beginning_sends_no_cursor() {
    let mut request = PageRequest::start("users", None, 7);
    assert!(request.absorb(Ok(Vec::new())).is_none());
    assert_eq!(shown(&request.call()), shown(&list_page_call("users", None, 7)));
}

#[test]
fn a_reconciliation_that_fails_ends_the_request() {
    let mut request = PageRequest::start("users", None, 2);
    let end = request.absorb(Err("gone".to_string())).unwrap();
    assert_eq!(
        end.unwrap_err().message,
        "Failed to reconcile state pagination index: gone"
    );
}

#[test]
fn a_page_that_fails_ends_the_request() {
    let mut request = PageRequest::start("users", None, 2);
    assert!(request.absorb(Ok(texts(&["building"]))).is_none());
    let end = request.absorb(Err("gone".to_string())).unwrap();
    assert_eq!(end.unwrap_err().message, "Failed to list state page: gone");

    let mut request = PageRequest::start("users", None, 2);
    assert!(request.absorb(Ok(texts(&["building"]))).is_none());
    let end = request
        .absorb(Ok(texts(&["false", "0", "", "state pagination index is not ready"])))
        .unwrap();
    assert_eq!(
        end.unwrap_err().message,
        "Failed to list state page: state pagination index is not ready"
    );
}

#[test]
fn a_page_of_no_entries_breaks_off_where_there_are_any() {
    assert_eq!(
        decode_list_page_reply(texts(&["true", "1"])).unwrap_err().message,
        "Unexpected return value from state pagination script"
    );
    let page = decode_list_page_reply(texts(&["true", "0", ""])).unwrap();
    assert!(page.items.is_empty());
}

#[test]
fn storing_again_reports_the_value_that_was_stored() {
    let second = Value::from("later");
    for first in [Value::Null, Value::from(12), Value::from("soon")] {
        let text = sent_text("s", "k", &first);
        let report = set_reply(Ok(Some(text)), &second).unwrap();
        assert_eq!(report.old_value, Some(first));
        assert_eq!(report.new_value, second);
    }
    assert_eq!(sent_text("s", "k", &second), sent_text("s", "k", &second));
}

#[test]
fn a_whole_page_holds_what_list_and_get_give() {
    let page = decode_list_page_reply(texts(&["true", "0", "", "a", "1", "b", "null", "c", "[2]"]))
        .unwrap();
    let listed = list_reply(Ok(texts(&["[2]", "1", "null"]))).unwrap();
    assert_eq!(page.next_cursor, None);
    assert_eq!(page.items.len(), listed.len());
    for item in &page.items {
        assert!(listed.contains(&item.value));
    }
    for (item, text) in page.items.iter().zip(["1", "null", "[2]"]) {
        assert_eq!(get_reply(Ok(Some(text.to_string()))).unwrap(), Some(item.value.clone()));
    }
}

#[test]
fn pages_in_turn_list_every_entry_once() {
    let replies = [
        texts(&["true", "1", "b", "a", "1", "b", "2"]),
        texts(&["true", "1", "d", "c", "3", "d", "4"]),
        texts(&["true", "0", "", "e", "5"]),
    ];
    let mut cursor: Option<String> = None;
    let mut keys: Vec<String> = Vec::new();
    let mut pages = 0;
    for reply in replies {
        let mut request = PageRequest::start("s", cursor.as_deref(), 2);
        assert!(request.absorb(Ok(texts(&["ready"]))).is_none());
        assert_eq!(shown(&request.call()), shown(&list_page_call("s", cursor.as_deref(), 2)));
        let page = request.absorb(Ok(reply)).unwrap().unwrap();
        keys.extend(page.items.into_iter().map(|item| item.key));
        cursor = page.next_cursor;
        pages += 1;
    }
    assert_eq!(cursor, None);
    assert_eq!(keys, texts(&["a", "b", "c", "d", "e"]));
    assert_eq!(pages, 3);
}

#[test]
fn two_runs_of_entries_are_read_one_after_the_other() {
    let one = ["a", "1", "b", "2"];
    let other = ["c", "[3]"];
    let read = |runs: &[&[&str]]| {
        let mut values = texts(&["true", "1", "c"]);
        for run in runs {
            values.extend(texts(run));
        }
        decode_list_page_reply(values)
    };
    let whole = read(&[&one, &other]).unwrap();
    let mut items = read(&[&one]).unwrap().items;
    items.extend(read(&[&other]).unwrap().items);
    assert_eq!(whole.items, items);
    assert_eq!(whole.next_cursor.as_deref(), Some("c"));

    let bad = ["d", "{"];
    let error = read(&[&bad]).unwrap_err().message;
    assert_eq!(read(&[&one, &bad]).unwrap_err().message, error);
    assert_eq!(read(&[&bad, &["e", "x"]]).unwrap_err().message, error);
}
