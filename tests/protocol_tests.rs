use kv_actor::protocol::{encode_result, parse_request, ProtocolError};
use kv_actor::store::{CommandResult, Request};

fn is_get(r: &Result<Request, ProtocolError>, k: &str) -> bool {
    matches!(r, Ok(Request::Get { key }) if key == k)
}

fn is_put(r: &Result<Request, ProtocolError>, k: &str, v: &str) -> bool {
    matches!(r, Ok(Request::Put { key, val }) if key == k && val == v)
}

#[test]
fn parses_get() {
    assert!(is_get(&parse_request("GET foo"), "foo"));
    assert!(is_get(&parse_request("GET missing"), "missing"));
}

#[test]
fn parses_set() {
    assert!(is_put(&parse_request("SET foo bar"), "foo", "bar"));
    assert!(is_put(&parse_request("SET k v1"), "k", "v1"));
}

#[test]
fn parses_non_ascii_tokens() {
    assert!(is_put(&parse_request("SET clé välue"), "clé", "välue"));
}

#[test]
fn unknown_command_word() {
    assert_eq!(parse_request("FOOBAR").unwrap_err(), ProtocolError::UnknownCommand);
    assert_eq!(parse_request("").unwrap_err(), ProtocolError::UnknownCommand);
    assert_eq!(parse_request("get foo").unwrap_err(), ProtocolError::UnknownCommand);
    assert_eq!(parse_request("GETX foo").unwrap_err(), ProtocolError::UnknownCommand);
}

#[test]
fn bad_arguments() {
    assert_eq!(parse_request("GET").unwrap_err(), ProtocolError::BadArguments);
    assert_eq!(parse_request("GET ").unwrap_err(), ProtocolError::BadArguments);
    assert_eq!(parse_request("GET a b").unwrap_err(), ProtocolError::BadArguments);
    assert_eq!(parse_request("SET").unwrap_err(), ProtocolError::BadArguments);
    assert_eq!(parse_request("SET k").unwrap_err(), ProtocolError::BadArguments);
    assert_eq!(parse_request("SET k ").unwrap_err(), ProtocolError::BadArguments);
    assert_eq!(parse_request("SET  k v").unwrap_err(), ProtocolError::BadArguments);
    assert_eq!(parse_request("SET k v w").unwrap_err(), ProtocolError::BadArguments);
}

#[test]
fn request_line_round_trip() {
    let g = Request::Get { key: "abc".to_string() };
    assert_eq!(g.to_line(), "GET abc");
    assert!(is_get(&parse_request(&g.to_line()), "abc"));
    let p = Request::Put { key: "k".to_string(), val: "v".to_string() };
    assert_eq!(p.to_line(), "SET k v");
    assert!(is_put(&parse_request(&p.to_line()), "k", "v"));
    assert_eq!(p.key(), "k");
}

#[test]
fn encodes_results() {
    let ok = CommandResult::Found { key: "foo".to_string(), val: "bar".to_string() };
    assert_eq!(encode_result(&ok, "foo"), "OK foo bar");
    assert_eq!(encode_result(&CommandResult::NotFound, "missing"), "NOT_FOUND missing");
    let err = CommandResult::Failed { msg: "boom".to_string() };
    assert_eq!(encode_result(&err, "x"), "ERR boom");
}

#[test]
fn error_messages() {
    assert_eq!(ProtocolError::UnknownCommand.message(), "unknown command");
    assert_eq!(ProtocolError::BadArguments.message(), "bad arguments");
    assert_eq!(
        encode_result(&ProtocolError::BadArguments.to_result(), ""),
        "ERR bad arguments"
    );
}
