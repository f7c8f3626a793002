use redis_state::calls::Arg;
use redis_state::connect::judge_connection;
use redis_state::connect::redis_url;
use redis_state::connect::ConnectAttempt;
use redis_state::groups::GroupScan;
use redis_state::keys::state_keys;
use redis_state::text::to_decimal;
use serde_json::Value;

fn texts(values: &[&str]) -> Vec<String> {
    values.iter().map(|v| v.to_string()).collect()
}

fn shown(args: &[Arg]) -> Vec<String> {
    args.iter()
        .map(|a| match a {
            Arg::Text(t) => t.clone(),
            Arg::Number(n) => n.to_string(),
        })
        .collect()
}

#[test]
fn a_scan_goes_on_until_the_cursor_is_zero_again() {
    let mut scan = GroupScan::start();
    let command = scan.command();
    assert_eq!(command.name, "SCAN");
    assert_eq!(shown(&command.args), ["0", "MATCH", "state:*", "COUNT", "100"]);

    assert!(scan.absorb(17, &texts(&["state:a", "other", "state:b"])));
    assert_eq!(shown(&scan.command().args), ["17", "MATCH", "state:*", "COUNT", "100"]);
    assert!(scan.absorb(3, &texts(&[])));
    assert!(!scan.absorb(0, &texts(&["state:a", "state:", "xstate:c"])));
    assert_eq!(scan.into_groups(), ["a", "b", "a", ""]);
}

#[test]
fn a_scan_finds_scopes_and_no_index() {
    let k = state_keys("users");
    let mut scan = GroupScan::start();
    assert!(!scan.absorb(0, &vec![k.active, k.phase, k.hash, k.cursor, k.target, k.verify]));
    assert_eq!(scan.into_groups(), ["users"]);
}

#[test]
fn batches_add_up() {
    let mut one = GroupScan::start();
    one.absorb(0, &texts(&["state:a", "x", "state:b", "state:c"]));
    let mut two = GroupScan::start();
    two.absorb(9, &texts(&["state:a", "x"]));
    two.absorb(0, &texts(&["state:b", "state:c"]));
    assert_eq!(one.into_groups(), two.into_groups());
}

#[test]
fn the_address_comes_from_the_configuration() {
    let config: Value = serde_json::from_str("{\"redis_url\": \"redis://db:1\"}").unwrap();
    assert_eq!(redis_url(Some(&config)), "redis://db:1");
}

#[test]
fn without_an_address_redis_is_local() {
    assert_eq!(redis_url(None), "redis://localhost:6379");
    for text in ["{}", "{\"redis_url\": 1}", "{\"redis_url\": null}", "\"redis://db:1\"", "[]"] {
        let config: Value = serde_json::from_str(text).unwrap();
        assert_eq!(redis_url(Some(&config)), "redis://localhost:6379");
    }
}

#[test]
fn a_connection_that_fails_says_where_and_why() {
    assert!(judge_connection("u", "5s", &ConnectAttempt::Connected).is_ok());
    assert_eq!(
        judge_connection("u", "5s", &ConnectAttempt::TimedOut).unwrap_err().message,
        "Redis connection timed out after 5s. Please ensure Redis is running at: u"
    );
    assert_eq!(
        judge_connection("u", "5s", &ConnectAttempt::Failed("no".to_string())).unwrap_err().message,
        "Failed to connect to Redis at u: no"
    );
}

#[test]
fn numbers_are_written_in_decimal() {
    for n in [0usize, 7, 10, 42, 100, 1234567890, usize::MAX] {
        assert_eq!(to_decimal(n), format!("{n}"));
    }
}
