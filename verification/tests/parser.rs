//! The protocol decoder.

use rockscached::command::Command;
use rockscached::parser::parse;

#[test]
fn parse_invalid() {
    assert!(parse(b"INVALID").is_err());
}

#[test]
fn parse_for_get() {
    let result = parse(b"get myKey\r\n");
    assert_eq!(result.unwrap(), Command::Get { keys: vec![b"myKey".to_vec()] });
}

#[test]
fn parse_for_multiget() {
    let result = parse(b"get k1 k2 k3 k4\r\n");
    assert_eq!(
        result.unwrap(),
        Command::Get {
            keys: vec![b"k1".to_vec(), b"k2".to_vec(), b"k3".to_vec(), b"k4".to_vec()],
        }
    );
}

#[test]
fn parse_for_delete() {
    let result = parse(b"delete myKey\r\n");
    assert_eq!(result.unwrap(), Command::Delete { key: b"myKey".to_vec() });
}

#[test]
fn parse_for_set() {
    let result = parse(b"set myKey 0 60 19\r\nthe value to store\r\n");
    assert_eq!(
        result.unwrap(),
        Command::SetCmd {
            key: b"myKey".to_vec(),
            flags: 0,
            ttl: 60u64,
            value: b"the value to store".to_vec(),
        }
    );
}

#[test]
fn parse_for_add() {
    let result = parse(b"add myKey 0 60 19\r\nthe value to store\r\n");
    assert_eq!(
        result.unwrap(),
        Command::Add {
            key: b"myKey".to_vec(),
            flags: 0,
            ttl: 60u64,
            value: b"the value to store".to_vec(),
        }
    );
}

#[test]
fn parse_for_incr() {
    let result = parse(b"incr myKey 1234\r\n");
    assert_eq!(result.unwrap(), Command::Increment { key: b"myKey".to_vec(), value: 1234 });
}

#[test]
fn parse_for_decr() {
    let result = parse(b"decr myKey 1234\r\n");
    assert_eq!(result.unwrap(), Command::Decrement { key: b"myKey".to_vec(), value: 1234 });
}

#[test]
fn parse_for_gets() {
    let result = parse(b"gets a b\r\n");
    assert_eq!(result.unwrap(), Command::Gets { keys: vec![b"a".to_vec(), b"b".to_vec()] });
}

#[test]
fn parse_set_without_length_token() {
    let result = parse(b"set foo 7 100\r\nbar\r\n");
    assert_eq!(
        result.unwrap(),
        Command::SetCmd { key: b"foo".to_vec(), flags: 7, ttl: 100, value: b"bar".to_vec() }
    );
}

#[test]
fn parse_append_and_prepend() {
    assert_eq!(
        parse(b"append k 1 2\r\nxy\r\n").unwrap(),
        Command::Append { key: b"k".to_vec(), flags: 1, ttl: 2, value: b"xy".to_vec() }
    );
    assert_eq!(
        parse(b"prepend k 1 2\r\nxy\r\n").unwrap(),
        Command::Prepend { key: b"k".to_vec(), flags: 1, ttl: 2, value: b"xy".to_vec() }
    );
}

#[test]
fn parse_empty_value_block() {
    let result = parse(b"set k 0 1\r\n\r\n");
    assert_eq!(
        result.unwrap(),
        Command::SetCmd { key: b"k".to_vec(), flags: 0, ttl: 1, value: Vec::new() }
    );
}

#[test]
fn parse_allows_runs_of_separators() {
    let result = parse(b"get  a\t b\r\n");
    assert_eq!(result.unwrap(), Command::Get { keys: vec![b"a".to_vec(), b"b".to_vec()] });
}

#[test]
fn parse_rejects_malformed_lines() {
    assert!(parse(b"").is_err());
    assert!(parse(b"get\r\n").is_err());
    assert!(parse(b"get \r\n").is_err());
    assert!(parse(b"get k \r\n").is_err());
    assert!(parse(b" get k\r\n").is_err());
    assert!(parse(b"get k").is_err());
    assert!(parse(b"delete a b\r\n").is_err());
    assert!(parse(b"stats\r\n").is_err());
    assert!(parse(b"getset k\r\n").is_err());
}

#[test]
fn parse_rejects_bad_numbers() {
    assert!(parse(b"set k x 60\r\nv\r\n").is_err());
    assert!(parse(b"set k 0 x\r\nv\r\n").is_err());
    assert!(parse(b"set k 4294967296 60\r\nv\r\n").is_err());
    assert!(parse(b"incr k 18446744073709551616\r\n").is_err());
    assert!(parse(b"incr k 12x\r\n").is_err());
}

#[test]
fn parse_set_needs_terminated_value() {
    assert!(parse(b"set k 0 60\r\nvalue").is_err());
    assert!(parse(b"set k 0 60 5\r\n").is_err());
}

#[test]
fn parse_ignores_trailing_input() {
    let result = parse(b"get k\r\nleftover");
    assert_eq!(result.unwrap(), Command::Get { keys: vec![b"k".to_vec()] });
}
