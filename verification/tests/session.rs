use redis_kv::config::Config;
use redis_kv::context::{AppContext, SessionAction};
use redis_kv::execute::Role;
use redis_kv::parser::RedisCommand;
use redis_kv::reply::Reply;

fn master() -> AppContext {
    AppContext::new(&Config::default())
}

fn replica() -> AppContext {
    AppContext::new(&Config { port: 6380, replica_of: Some(("localhost".to_string(), 6379)) })
}

fn respond(text: &str) -> SessionAction {
    SessionAction::Respond(text.as_bytes().to_vec())
}

fn abort(text: &str) -> SessionAction {
    SessionAction::Abort(text.as_bytes().to_vec())
}

#[test]
fn test_new_context() {
    let context = master();
    assert_eq!(context.role(), Role::Master);
    assert_eq!(context.replication().id, "8371b4fb1155b71f4a04d3e1bc3e18c4a990aeeb");
    assert_eq!(context.replication().id.len(), 40);
    assert_eq!(context.replication().offset, 0);
    assert_eq!(replica().role(), Role::Replica);
}

#[test]
fn test_session_ping() {
    let mut context = master();
    assert_eq!(context.handle("*1\r\n$4\r\nPING\r\n", 0), respond("+PONG\r\n"));
}

#[test]
fn test_session_echo() {
    let mut context = master();
    assert_eq!(
        context.handle("*2\r\n$4\r\nECHO\r\n$5\r\nhello\r\n", 0),
        respond("$5\r\nhello\r\n")
    );
}

#[test]
fn test_session_set_and_get() {
    let mut context = master();
    assert_eq!(
        context.handle("*3\r\n$3\r\nSET\r\n$3\r\nkey\r\n$5\r\nvalue\r\n", 10),
        respond("+OK\r\n")
    );
    assert_eq!(context.handle("*2\r\n$3\r\nGET\r\n$3\r\nkey\r\n", 10), respond("$5\r\nvalue\r\n"));
    assert_eq!(context.handle("*2\r\n$3\r\nGET\r\n$3\r\nkey\r\n", 99), respond("$5\r\nvalue\r\n"));
    assert_eq!(context.handle("*2\r\n$3\r\nGET\r\n$3\r\nnot\r\n", 99), respond("$-1\r\n"));
}

#[test]
fn test_session_set_with_px() {
    let mut context = master();
    assert_eq!(
        context.handle("*5\r\n$3\r\nSET\r\n$1\r\nk\r\n$1\r\nv\r\n$2\r\nPX\r\n$3\r\n100\r\n", 5000),
        respond("+OK\r\n")
    );
    assert_eq!(context.handle("*2\r\n$3\r\nGET\r\n$1\r\nk\r\n", 5099), respond("$1\r\nv\r\n"));
    assert_eq!(context.handle("*2\r\n$3\r\nGET\r\n$1\r\nk\r\n", 5100), respond("$-1\r\n"));
    assert_eq!(context.handle("*2\r\n$3\r\nGET\r\n$1\r\nk\r\n", 5100), respond("$-1\r\n"));
}

#[test]
fn test_session_info() {
    let mut context = master();
    assert_eq!(
        context.handle("*2\r\n$4\r\nINFO\r\n$11\r\nreplication\r\n", 0),
        respond(
            "$87\r\nrole:master\nmaster_replid:8371b4fb1155b71f4a04d3e1bc3e18c4a990aeeb\nmaster_repl_offset:0\r\n"
        )
    );
    let mut context = replica();
    assert_eq!(
        context.handle("*2\r\n$4\r\nINFO\r\n$11\r\nreplication\r\n", 0),
        respond("$11\r\nrole:slave\n\r\n")
    );
    assert_eq!(context.handle("*2\r\n$4\r\nINFO\r\n$6\r\nserver\r\n", 0), respond("$-1\r\n"));
}

#[test]
fn test_session_replconf_and_psync() {
    let mut context = master();
    assert_eq!(
        context.handle("*3\r\n$8\r\nREPLCONF\r\n$4\r\ncapa\r\n$6\r\npsync2\r\n", 0),
        respond("+OK\r\n")
    );
    let action = context.handle("*3\r\n$5\r\nPSYNC\r\n$1\r\n?\r\n$2\r\n-1\r\n", 0);
    let bytes = match action {
        SessionAction::Respond(bytes) => bytes,
        other => panic!("{:?}", other),
    };
    let head = b"+FULLRESYNC 8371b4fb1155b71f4a04d3e1bc3e18c4a990aeeb 0\r\n$88\r\nREDIS0011";
    assert_eq!(&bytes[..head.len()], head);
    assert_eq!(bytes.len(), head.len() - 9 + 88);
    assert_eq!(
        context.handle("*3\r\n$5\r\nPSYNC\r\n$1\r\nx\r\n$2\r\n-1\r\n", 0),
        respond("-unknown option 'x' to PSYNC\r\n")
    );
}

#[test]
fn test_session_peer_shutdown() {
    let mut context = master();
    assert_eq!(context.handle("", 0), SessionAction::Stop);
}

#[test]
fn test_session_errors_end_the_session() {
    let mut context = master();
    assert_eq!(context.handle("*1\r\n$3\r\nfoo\r\n", 0), abort("-unknown command 'foo'\r\n"));
    assert_eq!(
        context.handle("*2\r\n$4\r\nECHO\r\n$5\r\nabc\r\n", 0),
        abort("-malformed frame at '$5'\r\n")
    );
    assert_eq!(context.handle("*1\r\n$4\r\nECHO\r\n", 0), abort("-wrong number of arguments\r\n"));
    assert_eq!(context.handle("\r\n", 0), abort("-malformed frame at ''\r\n"));
}

#[test]
fn test_session_error_leaves_store() {
    let mut context = master();
    context.handle("*3\r\n$3\r\nSET\r\n$1\r\nk\r\n$1\r\nv\r\n", 0);
    assert_eq!(context.handle("nonsense", 0), abort("-malformed frame at 'nonsense'\r\n"));
    assert_eq!(context.handle("*2\r\n$3\r\nGET\r\n$1\r\nk\r\n", 0), respond("$1\r\nv\r\n"));
}

#[test]
fn test_execute_on_context() {
    let mut context = replica();
    assert_eq!(
        context.execute(RedisCommand::SetKey("a".to_string(), "b".to_string(), None), 1),
        vec![Reply::SimpleOk("OK".to_string())]
    );
    assert_eq!(
        context.execute(RedisCommand::Get("a".to_string()), 2),
        vec![Reply::BulkString(Some("b".to_string()))]
    );
    assert_eq!(context.role(), Role::Replica);
}
