use redis_kv::format::encode_request;
use redis_kv::parser::{
    parse_bulk_string, parse_bulk_string_array, parse_input, parse_integer_line, ProtocolError,
    RedisCommand,
};
use redis_kv::text::chars_of;

fn malformed(at: &str) -> Result<RedisCommand, ProtocolError> {
    Err(ProtocolError::Malformed(at.to_string()))
}

#[test]
fn test_decode_ping() {
    assert_eq!(parse_input("*1\r\n$4\r\nPING\r\n"), Ok(RedisCommand::Ping));
}

#[test]
fn test_decode_echo() {
    assert_eq!(
        parse_input("*2\r\n$4\r\nECHO\r\n$3\r\nhey\r\n"),
        Ok(RedisCommand::Echo("hey".to_string()))
    );
}

#[test]
fn test_decode_verbs_in_any_case() {
    assert_eq!(parse_input("*1\r\n$4\r\nping\r\n"), Ok(RedisCommand::Ping));
    assert_eq!(parse_input("*1\r\n$4\r\nPiNg\r\n"), Ok(RedisCommand::Ping));
    assert_eq!(
        parse_input("*2\r\n$3\r\ngEt\r\n$1\r\nk\r\n"),
        Ok(RedisCommand::Get("k".to_string()))
    );
}

#[test]
fn test_decode_without_last_terminator() {
    assert_eq!(parse_input("*1\r\n$4\r\nPING"), Ok(RedisCommand::Ping));
}

#[test]
fn test_decode_with_bare_line_feeds() {
    assert_eq!(parse_input("*2\n$4\nECHO\n$2\nhi\n"), Ok(RedisCommand::Echo("hi".to_string())));
}

#[test]
fn test_decode_get() {
    assert_eq!(
        parse_input("*2\r\n$3\r\nGET\r\n$3\r\nfoo\r\n"),
        Ok(RedisCommand::Get("foo".to_string()))
    );
}

#[test]
fn test_decode_set() {
    assert_eq!(
        parse_input("*3\r\n$3\r\nSET\r\n$3\r\nfoo\r\n$3\r\nbar\r\n"),
        Ok(RedisCommand::SetKey("foo".to_string(), "bar".to_string(), None))
    );
}

#[test]
fn test_decode_set_with_px() {
    assert_eq!(
        parse_input("*5\r\n$3\r\nSET\r\n$3\r\nfoo\r\n$3\r\nbar\r\n$2\r\npx\r\n$3\r\n100\r\n"),
        Ok(RedisCommand::SetKey("foo".to_string(), "bar".to_string(), Some(100)))
    );
}

#[test]
fn test_decode_set_with_px_in_upper_case() {
    assert_eq!(
        parse_input("*5\r\n$3\r\nSET\r\n$1\r\nk\r\n$1\r\nv\r\n$2\r\nPX\r\n$1\r\n0\r\n"),
        Ok(RedisCommand::SetKey("k".to_string(), "v".to_string(), Some(0)))
    );
}

#[test]
fn test_decode_set_with_largest_px() {
    assert_eq!(
        parse_input(
            "*5\r\n$3\r\nSET\r\n$1\r\nk\r\n$1\r\nv\r\n$2\r\npx\r\n$20\r\n18446744073709551615\r\n"
        ),
        Ok(RedisCommand::SetKey("k".to_string(), "v".to_string(), Some(u64::MAX)))
    );
}

#[test]
fn test_decode_set_px_not_a_number() {
    assert_eq!(
        parse_input("*5\r\n$3\r\nSET\r\n$1\r\nk\r\n$1\r\nv\r\n$2\r\npx\r\n$3\r\nabc\r\n"),
        malformed("abc")
    );
    assert_eq!(
        parse_input("*5\r\n$3\r\nSET\r\n$1\r\nk\r\n$1\r\nv\r\n$2\r\npx\r\n$2\r\n-5\r\n"),
        malformed("-5")
    );
    assert_eq!(
        parse_input(
            "*5\r\n$3\r\nSET\r\n$1\r\nk\r\n$1\r\nv\r\n$2\r\npx\r\n$20\r\n18446744073709551616\r\n"
        ),
        malformed("18446744073709551616")
    );
}

#[test]
fn test_decode_set_unknown_trailing_argument() {
    assert_eq!(
        parse_input("*5\r\n$3\r\nSET\r\n$1\r\nk\r\n$1\r\nv\r\n$2\r\nex\r\n$2\r\n10\r\n"),
        malformed("ex")
    );
}

#[test]
fn test_decode_set_ignores_half_a_pair() {
    assert_eq!(
        parse_input("*4\r\n$3\r\nSET\r\n$1\r\nk\r\n$1\r\nv\r\n$2\r\npx\r\n"),
        Ok(RedisCommand::SetKey("k".to_string(), "v".to_string(), None))
    );
}

#[test]
fn test_decode_set_needs_key_and_value() {
    assert_eq!(parse_input("*2\r\n$3\r\nSET\r\n$1\r\nk\r\n"), Err(ProtocolError::WrongArity));
    assert_eq!(parse_input("*1\r\n$3\r\nSET\r\n"), Err(ProtocolError::WrongArity));
}

#[test]
fn test_decode_info() {
    assert_eq!(
        parse_input("*2\r\n$4\r\nINFO\r\n$11\r\nreplication\r\n"),
        Ok(RedisCommand::Info("replication".to_string()))
    );
}

#[test]
fn test_decode_replconf() {
    assert_eq!(
        parse_input("*3\r\n$8\r\nREPLCONF\r\n$14\r\nlistening-port\r\n$4\r\n6380\r\n"),
        Ok(RedisCommand::ReplConf("listening-port".to_string(), "6380".to_string()))
    );
    assert_eq!(
        parse_input("*3\r\n$8\r\nreplconf\r\n$4\r\ncapa\r\n$6\r\npsync2\r\n"),
        Ok(RedisCommand::ReplConf("capa".to_string(), "psync2".to_string()))
    );
}

#[test]
fn test_decode_psync() {
    assert_eq!(
        parse_input("*3\r\n$5\r\nPSYNC\r\n$1\r\n?\r\n$2\r\n-1\r\n"),
        Ok(RedisCommand::PSync("?".to_string(), "-1".to_string()))
    );
}

#[test]
fn test_decode_missing_arguments() {
    assert_eq!(parse_input("*1\r\n$4\r\nECHO\r\n"), Err(ProtocolError::WrongArity));
    assert_eq!(parse_input("*1\r\n$3\r\nGET\r\n"), Err(ProtocolError::WrongArity));
    assert_eq!(parse_input("*1\r\n$4\r\nINFO\r\n"), Err(ProtocolError::WrongArity));
    assert_eq!(
        parse_input("*2\r\n$8\r\nREPLCONF\r\n$4\r\ncapa\r\n"),
        Err(ProtocolError::WrongArity)
    );
    assert_eq!(parse_input("*2\r\n$5\r\nPSYNC\r\n$1\r\n?\r\n"), Err(ProtocolError::WrongArity));
}

#[test]
fn test_decode_ignores_arguments_beyond_the_arity() {
    assert_eq!(parse_input("*2\r\n$4\r\nPING\r\n$1\r\nx\r\n"), Ok(RedisCommand::Ping));
    assert_eq!(
        parse_input("*3\r\n$4\r\nECHO\r\n$1\r\na\r\n$1\r\nb\r\n"),
        Ok(RedisCommand::Echo("a".to_string()))
    );
}

#[test]
fn test_decode_unknown_command() {
    assert_eq!(
        parse_input("*1\r\n$3\r\nFoo\r\n"),
        Err(ProtocolError::UnknownCommand("Foo".to_string()))
    );
    assert_eq!(
        parse_input("*1\r\n$0\r\n\r\n"),
        Err(ProtocolError::UnknownCommand(String::new()))
    );
}

#[test]
fn test_decode_length_mismatch() {
    assert_eq!(parse_input("*2\r\n$4\r\nECHO\r\n$5\r\nabc\r\n"), malformed("$5"));
    assert_eq!(parse_input("*1\r\n$5\r\nPING\r\n"), malformed("$5"));
    assert_eq!(parse_input("*1\r\n$3\r\nPING\r\n"), malformed("$3"));
}

#[test]
fn test_decode_checks_every_element() {
    assert_eq!(parse_input("*2\r\n$4\r\nPING\r\n$9\r\nx\r\n"), malformed("$9"));
    assert_eq!(parse_input("*3\r\n$4\r\nPING\r\n$1\r\nx\r\n3\r\nabc\r\n"), malformed("3"));
}

#[test]
fn test_decode_reports_first_bad_element() {
    assert_eq!(parse_input("*3\r\n$4\r\nECHO\r\n$7\r\na\r\n$8\r\nb\r\n"), malformed("$7"));
}

#[test]
fn test_decode_length_counts_bytes() {
    assert_eq!(
        parse_input("*2\r\n$4\r\nECHO\r\n$6\r\nh\u{e9}llo\r\n"),
        Ok(RedisCommand::Echo("h\u{e9}llo".to_string()))
    );
    assert_eq!(parse_input("*2\r\n$4\r\nECHO\r\n$5\r\nh\u{e9}llo\r\n"), malformed("$5"));
}

#[test]
fn test_decode_length_prefix_not_a_number() {
    assert_eq!(parse_input("*1\r\n$x\r\nPING\r\n"), malformed("$x"));
    assert_eq!(parse_input("*1\r\n$\r\nPING\r\n"), malformed("$"));
    assert_eq!(parse_input("*1\r\n$-4\r\nPING\r\n"), malformed("$-4"));
    assert_eq!(parse_input("*1\r\n4\r\nPING\r\n"), malformed("4"));
    assert_eq!(parse_input("*1\r\n\r\nPING\r\n"), malformed(""));
}

#[test]
fn test_decode_bad_header() {
    assert_eq!(parse_input(""), malformed(""));
    assert_eq!(parse_input("\r\n"), malformed(""));
    assert_eq!(parse_input("$4\r\nPING\r\n"), malformed("$4"));
    assert_eq!(parse_input("PING\r\n"), malformed("PING"));
    assert_eq!(parse_input("*\r\n"), malformed("*"));
    assert_eq!(parse_input("*x\r\n"), malformed("*x"));
    assert_eq!(parse_input("*-1\r\n"), malformed("*-1"));
    assert_eq!(parse_input("*0\r\n"), malformed("*0"));
    assert_eq!(parse_input("\u{e9}1\r\n$4\r\nPING\r\n"), malformed("\u{e9}1"));
    assert_eq!(parse_input("*99999999999999999999\r\n"), malformed("*99999999999999999999"));
}

#[test]
fn test_decode_wrong_number_of_elements() {
    assert_eq!(parse_input("*1\r\n"), Err(ProtocolError::WrongArity));
    assert_eq!(parse_input("*2\r\n$4\r\nPING\r\n"), Err(ProtocolError::WrongArity));
    assert_eq!(parse_input("*1\r\n$4\r\nPING\r\n$1\r\nx\r\n"), Err(ProtocolError::WrongArity));
    assert_eq!(parse_input("*1\r\n$4\r\n"), Err(ProtocolError::WrongArity));
    assert_eq!(
        parse_input("*18446744073709551615\r\n$4\r\nPING\r\n"),
        Err(ProtocolError::WrongArity)
    );
}

#[test]
fn test_decode_plus_sign_in_numbers() {
    assert_eq!(parse_input("*+1\r\n$+4\r\nPING\r\n"), Ok(RedisCommand::Ping));
}

#[test]
fn test_decode_what_encode_request_made() {
    let args = vec!["key".to_string(), "value".to_string(), "px".to_string(), "250".to_string()];
    assert_eq!(
        parse_input(&encode_request("SET", &args)),
        Ok(RedisCommand::SetKey("key".to_string(), "value".to_string(), Some(250)))
    );
    assert_eq!(parse_input(&encode_request("PING", &Vec::new())), Ok(RedisCommand::Ping));
}

#[test]
fn test_default_command_is_ping() {
    assert_eq!(RedisCommand::default(), RedisCommand::Ping);
}

#[test]
fn test_frame_elements() {
    let frame = match parse_bulk_string_array("*2\r\n$4\r\nECHO\r\n$3\r\nhey\r\n") {
        Ok(frame) => frame,
        Err(error) => panic!("{:?}", error),
    };
    assert_eq!(frame.len(), 2);
    assert_eq!(frame.text(0), "ECHO");
    assert_eq!(frame.text(1), "hey");
    assert_eq!(frame.element(1), ['h', 'e', 'y']);
}

#[test]
fn test_frame_errors() {
    assert!(matches!(parse_bulk_string_array("*1\r\n"), Err(ProtocolError::WrongArity)));
    assert!(matches!(
        parse_bulk_string_array("*1\r\n$2\r\nabc\r\n"),
        Err(ProtocolError::Malformed(at)) if at == "$2"
    ));
}

#[test]
fn test_parse_integer_line() {
    assert_eq!(parse_integer_line(&chars_of("$0")), Some(0));
    assert_eq!(parse_integer_line(&chars_of("$12")), Some(12));
    assert_eq!(parse_integer_line(&chars_of("$")), None);
    assert_eq!(parse_integer_line(&chars_of("12")), None);
    assert_eq!(parse_integer_line(&chars_of("*12")), None);
    assert_eq!(parse_integer_line(&chars_of("")), None);
}

#[test]
fn test_parse_bulk_string() {
    assert!(parse_bulk_string(&chars_of("$3"), &chars_of("hey")));
    assert!(parse_bulk_string(&chars_of("$0"), &chars_of("")));
    assert!(!parse_bulk_string(&chars_of("$5"), &chars_of("hey")));
    assert!(!parse_bulk_string(&chars_of("$2"), &chars_of("hey")));
    assert!(!parse_bulk_string(&chars_of("3"), &chars_of("hey")));
}

#[test]
fn test_error_messages() {
    assert_eq!(
        ProtocolError::UnknownCommand("foo".to_string()).message(),
        "unknown command 'foo'"
    );
    assert_eq!(ProtocolError::WrongArity.message(), "wrong number of arguments");
    assert_eq!(ProtocolError::Malformed("$5".to_string()).message(), "malformed frame at '$5'");
}

#[test]
fn test_decode_what_encode_request_made_of_odd_texts() {
    for text in ["", " ", "a\r", "\r", "\r\r", "h\u{e9}llo \u{1f600}", "*1", "$5", "+OK"] {
        let args = vec![text.to_string()];
        assert_eq!(
            parse_input(&encode_request("ECHO", &args)),
            Ok(RedisCommand::Echo(text.to_string()))
        );
        assert_eq!(
            parse_input(&encode_request("get", &args)),
            Ok(RedisCommand::Get(text.to_string()))
        );
    }
}

#[test]
fn test_line_feed_in_a_text_breaks_the_frame() {
    let args = vec!["a\nb".to_string()];
    assert_eq!(parse_input(&encode_request("ECHO", &args)), Err(ProtocolError::WrongArity));
}
