//! End-to-end command handling: parse, route, perform the step against a
//! stand-in engine, and render the reply.

use std::collections::HashMap;

use rockscached::command::Command;
use rockscached::db::{complete_delete, complete_put, Database, Step};
use rockscached::parser::parse;

/// Runs one raw command line against a stand-in engine that always
/// succeeds, the way the connection layer drives the library.
fn run(db: &mut Database, store: &mut HashMap<Vec<u8>, Vec<u8>>, line: &[u8]) -> Vec<u8> {
    let request = parse(line);
    let reads: Vec<Option<Vec<u8>>> = match &request {
        Ok(cmd) => cmd.keys_to_read().iter().map(|k| store.get(k).cloned()).collect(),
        Err(_) => Vec::new(),
    };
    let step = Command::handle(request, db, &reads);
    let response = match step {
        Step::Reply { response } => response,
        Step::Put { key, record, on_ok } => {
            store.insert(key, record);
            complete_put(true, on_ok)
        },
        Step::Delete { key } => {
            store.remove(&key);
            complete_delete(true)
        },
    };
    response.serialize()
}

#[test]
fn set_get_incr_delete_scenario() {
    let mut db = Database::new();
    let mut store: HashMap<Vec<u8>, Vec<u8>> = HashMap::new();
    assert_eq!(run(&mut db, &mut store, b"set foo 0 100\r\nbar\r\n"), b"STORED\r\n");
    assert_eq!(run(&mut db, &mut store, b"get foo\r\n"), b"VALUE foo 0 3\r\nbar\r\nEND\r\n");
    assert_eq!(
        run(&mut db, &mut store, b"incr foo 1\r\n"),
        b"CLIENT_ERROR cannot increment or decrement non-numeric value\r\n"
    );
    assert_eq!(run(&mut db, &mut store, b"delete foo\r\n"), b"STORED\r\n");
    assert_eq!(run(&mut db, &mut store, b"get foo\r\n"), b"END\r\n");
}

#[test]
fn counter_round_trip() {
    let mut db = Database::new();
    let mut store: HashMap<Vec<u8>, Vec<u8>> = HashMap::new();
    assert_eq!(run(&mut db, &mut store, b"set n 5 100\r\n41\r\n"), b"STORED\r\n");
    assert_eq!(run(&mut db, &mut store, b"incr n 1\r\n"), b"42\r\n");
    assert_eq!(run(&mut db, &mut store, b"get n\r\n"), b"VALUE n 5 2\r\n42\r\nEND\r\n");
    assert_eq!(run(&mut db, &mut store, b"decr n 2\r\n"), b"40\r\n");
    assert_eq!(run(&mut db, &mut store, b"get n\r\n"), b"VALUE n 5 2\r\n40\r\nEND\r\n");
}

#[test]
fn add_refuses_live_key_but_fills_absent_one() {
    let mut db = Database::new();
    let mut store: HashMap<Vec<u8>, Vec<u8>> = HashMap::new();
    assert_eq!(run(&mut db, &mut store, b"add k 0 100\r\nfirst\r\n"), b"STORED\r\n");
    assert_eq!(run(&mut db, &mut store, b"add k 0 100\r\nsecond\r\n"), b"NOT_STORED\r\n");
    assert_eq!(run(&mut db, &mut store, b"get k\r\n"), b"VALUE k 0 5\r\nfirst\r\nEND\r\n");
}

#[test]
fn append_and_prepend_build_the_payload() {
    let mut db = Database::new();
    let mut store: HashMap<Vec<u8>, Vec<u8>> = HashMap::new();
    assert_eq!(run(&mut db, &mut store, b"append k 0 100\r\nxy\r\n"), b"NOT_STORED\r\n");
    assert_eq!(run(&mut db, &mut store, b"set k 0 100\r\nmid\r\n"), b"STORED\r\n");
    assert_eq!(run(&mut db, &mut store, b"append k 0 100\r\ntail\r\n"), b"STORED\r\n");
    assert_eq!(run(&mut db, &mut store, b"prepend k 0 100\r\nhead\r\n"), b"STORED\r\n");
    assert_eq!(
        run(&mut db, &mut store, b"get k\r\n"),
        b"VALUE k 0 11\r\nheadmidtail\r\nEND\r\n"
    );
}

#[test]
fn gets_reports_cas_stamps() {
    let mut db = Database::new();
    let mut store: HashMap<Vec<u8>, Vec<u8>> = HashMap::new();
    assert_eq!(run(&mut db, &mut store, b"set a 0 100\r\nx\r\n"), b"STORED\r\n");
    assert_eq!(run(&mut db, &mut store, b"set b 0 100\r\ny\r\n"), b"STORED\r\n");
    assert_eq!(
        run(&mut db, &mut store, b"gets a b\r\n"),
        b"VALUE a 0 1 1\r\nx\r\nVALUE b 0 1 2\r\ny\r\nEND\r\n"
    );
}

#[test]
fn multiget_skips_missing_keys() {
    let mut db = Database::new();
    let mut store: HashMap<Vec<u8>, Vec<u8>> = HashMap::new();
    assert_eq!(run(&mut db, &mut store, b"set k1 0 100\r\na\r\n"), b"STORED\r\n");
    assert_eq!(run(&mut db, &mut store, b"set k3 0 100\r\nc\r\n"), b"STORED\r\n");
    assert_eq!(
        run(&mut db, &mut store, b"get k1 k2 k3\r\n"),
        b"VALUE k1 0 1\r\na\r\nVALUE k3 0 1\r\nc\r\nEND\r\n"
    );
}

#[test]
fn malformed_commands_reply_the_error_line() {
    let mut db = Database::new();
    let mut store: HashMap<Vec<u8>, Vec<u8>> = HashMap::new();
    assert_eq!(run(&mut db, &mut store, b"nonsense\r\n"), b"ERROR\r\n");
    assert_eq!(run(&mut db, &mut store, b"set k 0\r\nv\r\n"), b"ERROR\r\n");
    assert_eq!(run(&mut db, &mut store, b"no terminator"), b"ERROR\r\n");
}

#[test]
fn engine_write_failure_surfaces_as_server_error() {
    let mut db = Database::new();
    let request = parse(b"set k 0 100\r\nv\r\n");
    let reads: Vec<Option<Vec<u8>>> = Vec::new();
    let step = Command::handle(request, &mut db, &reads);
    match step {
        Step::Put { on_ok, .. } => {
            assert_eq!(complete_put(false, on_ok).serialize(), b"SERVER_ERROR\r\n");
        },
        other => panic!("expected a put step, got {:?}", other),
    }
}

#[test]
fn placeholder_command_is_not_implemented() {
    let mut db = Database::new();
    let reads: Vec<Option<Vec<u8>>> = Vec::new();
    let step = Command::handle(Ok(Command::Stats), &mut db, &reads);
    match step {
        Step::Reply { response } => assert_eq!(response.serialize(), b"NOT_IMPLEMENTED\r\n"),
        other => panic!("expected a reply step, got {:?}", other),
    }
}
