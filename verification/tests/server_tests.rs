use miniredis::handle_req;
use miniredis::handle_req_now;
use miniredis::Database;

#[test]
pub fn test_get_and_set() {
    let mut db = Database::new();

    let set_command = b"*3\r\n$3\r\nset\r\n$3\r\nhey\r\n$5\r\nworld";
    handle_req(set_command, &mut db, 0, false);

    let get_command = b"*2\r\n$3\r\nGET\r\n$3\r\nhey\r\n";
    let res = handle_req(get_command, &mut db, 0, false);
    assert_eq!(res.as_slice(), b"$5\r\nworld\r\n");
}

#[test]
pub fn test_expiry() {
    let mut db = Database::new();

    let set_command = b"*4\r\n$3\r\nset\r\n$3\r\nhey\r\n$5\r\nworld\r\n$2\r\npx\r\n$3\r\n100";
    handle_req(set_command, &mut db, 1_000, false);

    let get_command = b"*2\r\n$3\r\nGET\r\n$3\r\nhey\r\n";
    let res = handle_req(get_command, &mut db, 1_000, false);
    assert_eq!(res.as_slice(), b"$5\r\nworld\r\n");

    let res = handle_req(get_command, &mut db, 1_105, false);
    assert_eq!(res.as_slice(), b"$-1\r\n");
}

#[test]
fn test_wire_scenario_uppercase() {
    let mut db = Database::new();
    let res = handle_req(b"*3\r\n$3\r\nSET\r\n$3\r\nhey\r\n$5\r\nworld\r\n", &mut db, 7, false);
    assert_eq!(res.as_slice(), b"+OK\r\n");
    let res = handle_req(b"*2\r\n$3\r\nGET\r\n$3\r\nhey\r\n", &mut db, 8, false);
    assert_eq!(res.as_slice(), b"$5\r\nworld\r\n");
}

#[test]
fn test_ping_regardless_of_state() {
    let mut db = Database::new();
    let res = handle_req(b"*1\r\n$4\r\nPING\r\n", &mut db, 0, false);
    assert_eq!(res.as_slice(), b"+PONG\r\n");
    handle_req(b"*3\r\n$3\r\nSET\r\n$1\r\na\r\n$1\r\nb\r\n", &mut db, 0, false);
    let res = handle_req(b"*1\r\n$4\r\nPING\r\n", &mut db, 99, true);
    assert_eq!(res.as_slice(), b"+PONG\r\n");
}

#[test]
fn test_ping_case_insensitive() {
    let mut db = Database::new();
    let res = handle_req(b"*1\r\n$4\r\npInG\r\n", &mut db, 0, false);
    assert_eq!(res.as_slice(), b"+PONG\r\n");
}

#[test]
fn test_echo() {
    let mut db = Database::new();
    let res = handle_req(b"*2\r\n$4\r\nECHO\r\n$3\r\nhey\r\n", &mut db, 0, false);
    assert_eq!(res.as_slice(), b"$3\r\nhey\r\n");
}

#[test]
fn test_echo_empty() {
    let mut db = Database::new();
    let res = handle_req(b"*2\r\n$4\r\nECHO\r\n$0\r\n\r\n", &mut db, 0, false);
    assert_eq!(res.as_slice(), b"$0\r\n\r\n");
}

#[test]
fn test_get_absent_key() {
    let mut db = Database::new();
    let res = handle_req(b"*2\r\n$3\r\nGET\r\n$5\r\nnever\r\n", &mut db, 0, false);
    assert_eq!(res.as_slice(), b"$-1\r\n");
}

#[test]
fn test_overwrite_returns_second_value() {
    let mut db = Database::new();
    handle_req(b"*3\r\n$3\r\nSET\r\n$1\r\nk\r\n$2\r\nv1\r\n", &mut db, 0, false);
    handle_req(b"*3\r\n$3\r\nSET\r\n$1\r\nk\r\n$2\r\nv2\r\n", &mut db, 1, false);
    let res = handle_req(b"*2\r\n$3\r\nGET\r\n$1\r\nk\r\n", &mut db, 2, false);
    assert_eq!(res.as_slice(), b"$2\r\nv2\r\n");
}

#[test]
fn test_distinct_keys_interleaved() {
    let mut db = Database::new();
    handle_req(b"*3\r\n$3\r\nSET\r\n$1\r\na\r\n$2\r\nv1\r\n", &mut db, 0, false);
    handle_req(b"*3\r\n$3\r\nSET\r\n$1\r\nb\r\n$2\r\nv2\r\n", &mut db, 1, false);
    handle_req(b"*3\r\n$3\r\nSET\r\n$1\r\nc\r\n$2\r\nv3\r\n", &mut db, 2, false);
    let res = handle_req(b"*2\r\n$3\r\nGET\r\n$1\r\na\r\n", &mut db, 3, false);
    assert_eq!(res.as_slice(), b"$2\r\nv1\r\n");
    let res = handle_req(b"*2\r\n$3\r\nGET\r\n$1\r\nb\r\n", &mut db, 3, false);
    assert_eq!(res.as_slice(), b"$2\r\nv2\r\n");
    let res = handle_req(b"*2\r\n$3\r\nGET\r\n$1\r\nc\r\n", &mut db, 3, false);
    assert_eq!(res.as_slice(), b"$2\r\nv3\r\n");
}

#[test]
fn test_unsupported_command_reply() {
    let mut db = Database::new();
    let res = handle_req(b"*1\r\n$4\r\nBLAH\r\n", &mut db, 0, false);
    assert_eq!(res.as_slice(), b"Incorrect or unsupported req");
}

#[test]
fn test_empty_request_reply() {
    let mut db = Database::new();
    let res = handle_req(b"", &mut db, 0, false);
    assert_eq!(res.as_slice(), b"Incorrect or unsupported req");
}

#[test]
fn test_info_master() {
    let mut db = Database::new();
    let res = handle_req(b"*1\r\n$4\r\nINFO\r\n", &mut db, 0, false);
    let expected: Vec<u8> = [
        &b"*3\r\n"[..],
        &b"$11\r\nrole:master\r\n"[..],
        &b"$54\r\nmaster_replid:8371b4fb1155b71f4a04d3e1bc3e18c4a990aeeb\r\n"[..],
        &b"$20\r\nmaster_repl_offset:0\r\n"[..],
    ]
    .concat();
    assert_eq!(res, expected);
}

#[test]
fn test_info_slave() {
    let mut db = Database::new();
    let res = handle_req(b"*2\r\n$4\r\nINFO\r\n$11\r\nreplication\r\n", &mut db, 0, true);
    assert_eq!(res.as_slice(), b"*1\r\n$10\r\nrole:slave\r\n");
}

#[test]
fn test_set_px_unparseable_means_no_expiry() {
    let mut db = Database::new();
    handle_req(
        b"*4\r\n$3\r\nSET\r\n$1\r\nk\r\n$1\r\nv\r\n$2\r\npx\r\n$3\r\nabc",
        &mut db,
        0,
        false,
    );
    let res = handle_req(b"*2\r\n$3\r\nGET\r\n$1\r\nk\r\n", &mut db, i64::MAX, false);
    assert_eq!(res.as_slice(), b"$1\r\nv\r\n");
}

#[test]
fn test_expiry_boundary() {
    let mut db = Database::new();
    handle_req(
        b"*4\r\n$3\r\nSET\r\n$1\r\nk\r\n$1\r\nv\r\n$2\r\npx\r\n$3\r\n100",
        &mut db,
        1_000,
        false,
    );
    let res = handle_req(b"*2\r\n$3\r\nGET\r\n$1\r\nk\r\n", &mut db, 1_100, false);
    assert_eq!(res.as_slice(), b"$1\r\nv\r\n");
    let res = handle_req(b"*2\r\n$3\r\nGET\r\n$1\r\nk\r\n", &mut db, 1_101, false);
    assert_eq!(res.as_slice(), b"$-1\r\n");
}

#[test]
fn test_negative_ttl_is_already_expired() {
    let mut db = Database::new();
    handle_req(
        b"*4\r\n$3\r\nSET\r\n$1\r\nk\r\n$1\r\nv\r\n$2\r\npx\r\n$2\r\n-5",
        &mut db,
        1_000,
        false,
    );
    let res = handle_req(b"*2\r\n$3\r\nGET\r\n$1\r\nk\r\n", &mut db, 1_000, false);
    assert_eq!(res.as_slice(), b"$-1\r\n");
}

#[test]
fn test_handle_req_now_ping() {
    let mut db = Database::new();
    let res = handle_req_now(b"*1\r\n$4\r\nPING\r\n", &mut db, false);
    assert_eq!(res.as_slice(), b"+PONG\r\n");
}

#[test]
fn test_handle_req_now_set_get() {
    let mut db = Database::new();
    let res = handle_req_now(b"*3\r\n$3\r\nSET\r\n$3\r\nkey\r\n$3\r\nval\r\n", &mut db, false);
    assert_eq!(res.as_slice(), b"+OK\r\n");
    let res = handle_req_now(b"*2\r\n$3\r\nGET\r\n$3\r\nkey\r\n", &mut db, false);
    assert_eq!(res.as_slice(), b"$3\r\nval\r\n");
}
