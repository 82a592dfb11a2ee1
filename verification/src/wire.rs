//! What a session answers to requests as they stand on the wire: laws that
//! span the whole way from the text of a request to the bytes of its
//! replies.

use crate::context::{context_after, session_action, ContextView, SessionActionView};
use crate::decimal::{decimal, is_digit, lemma_decimal_digits, lemma_parse_decimal};
use crate::execute::{
    empty_snapshot, lemma_full_resync_frames, lemma_get_after_expiry, lemma_get_after_set,
    lemma_ping_pong,
};
use crate::format::{array_items, bulk_string_line, crlf, request};
use crate::handshake::{
    handshake_request, handshake_step, option_arguments, HandshakeState, ReplConfOptionView,
};
use crate::parser::{decode, decode_command, decode_set, CommandView, ProtocolErrorView};
use crate::reply::{encode_replies, lemma_encode_one, null_bulk_string, ReplyView};
use crate::roundtrip::lemma_decode_request;
use crate::text::{contains_word, lowercase, occurs_at, single_line, utf8_len};
use vstd::prelude::*;
use vstd::utf8::*;

verus! {

/// A numeral fits on a line and is as long in bytes as it has digits, which
/// are no more than the number itself or one.
proof fn lemma_decimal_line(n: nat)
    ensures
        single_line(decimal(n)),
        utf8_len(decimal(n)) == decimal(n).len(),
        decimal(n).len() <= if n == 0 {
            1
        } else {
            n
        },
    decreases n,
{
    lemma_decimal_digits(n);
    let digits = decimal(n);
    assert forall|i: int| 0 <= i < digits.len() implies digits[i] != '\n' && '\0' <= digits[i]
        <= '\u{7f}' by {
        assert(is_digit(digits[i]));
    }
    is_ascii_chars_encode_utf8(digits);
    if n >= 10 {
        lemma_decimal_line(n / 10);
    }
}

/// The frame of `+OK`.
proof fn lemma_ok_frame()
    ensures
        encode_replies(seq![ReplyView::SimpleOk("OK"@)]) == encode_utf8("+OK\r\n"@),
{
    reveal_strlit("OK");
    reveal_strlit("+OK\r\n");
    lemma_encode_one(ReplyView::SimpleOk("OK"@));
    assert(seq!['+'] + "OK"@ + crlf() =~= "+OK\r\n"@);
    assert(encode_utf8("+OK\r\n"@) + Seq::<u8>::empty() =~= encode_utf8("+OK\r\n"@));
}

/// The frames of a bulk string and of the null bulk string.
proof fn lemma_bulk_frames(text: Seq<char>)
    ensures
        encode_replies(seq![ReplyView::BulkString(Some(text))]) == encode_utf8(
            bulk_string_line(text) + crlf(),
        ),
        encode_replies(seq![ReplyView::BulkString(None)]) == encode_utf8("$-1\r\n"@),
{
    reveal_strlit("$-1\r\n");
    lemma_encode_one(ReplyView::BulkString(Some(text)));
    lemma_encode_one(ReplyView::BulkString(None));
    let frame = encode_utf8(bulk_string_line(text) + crlf());
    assert(frame + Seq::<u8>::empty() =~= frame);
    assert(null_bulk_string() + crlf() =~= "$-1\r\n"@);
    assert(encode_utf8("$-1\r\n"@) + Seq::<u8>::empty() =~= encode_utf8("$-1\r\n"@));
}

/// The request `PING`, as it stands on the wire, is read as `PING`.
proof fn lemma_decode_ping()
    ensures
        request("PING"@, seq![]) == "*1\r\n$4\r\nPING\r\n"@,
        decode("*1\r\n$4\r\nPING\r\n"@) == Ok::<CommandView, ProtocolErrorView>(
            CommandView::Ping,
        ),
{
    reveal_strlit("PING");
    reveal_strlit("ping");
    reveal_strlit("*1\r\n$4\r\nPING\r\n");
    let elements = seq!["PING"@];
    assert(seq!["PING"@] + Seq::<Seq<char>>::empty() =~= elements);
    assert(elements.drop_last() =~= Seq::<Seq<char>>::empty());
    assert(array_items(elements.drop_last()) =~= Seq::<char>::empty());
    is_ascii_chars_encode_utf8("PING"@);
    assert(decimal(4) =~= seq!['4']);
    assert(decimal(1) =~= seq!['1']);
    assert(array_items(elements) =~= crlf() + bulk_string_line("PING"@));
    assert(request("PING"@, seq![]) =~= "*1\r\n$4\r\nPING\r\n"@);
    lemma_decode_request("PING"@, seq![]);
    assert(lowercase("PING"@) =~= lowercase("ping"@));
}

/// The request `GET key` is read as that command.
proof fn lemma_decode_get(key: Seq<char>)
    requires
        single_line(key),
        utf8_len(key) <= u64::MAX,
    ensures
        decode(request("GET"@, seq![key])) == Ok::<CommandView, ProtocolErrorView>(
            CommandView::Get(key),
        ),
        request("GET"@, seq![key]).len() > 0,
{
    reveal_strlit("GET");
    reveal_strlit("get");
    reveal_strlit("ping");
    reveal_strlit("echo");
    is_ascii_chars_encode_utf8("GET"@);
    lemma_decode_request("GET"@, seq![key]);
    let elements = seq!["GET"@] + seq![key];
    assert(lowercase("GET"@) =~= lowercase("get"@));
    assert(lowercase("GET"@).len() != lowercase("ping"@).len());
    assert(lowercase("GET"@).len() != lowercase("echo"@).len());
    assert(elements.drop_first() =~= seq![key]);
}

/// The request `SET key value`, with arguments behind it or without, is
/// read as a `SET` with those arguments.
proof fn lemma_decode_set(args: Seq<Seq<char>>)
    requires
        args.len() < u64::MAX,
        forall|i: int| 0 <= i < args.len() ==> single_line(#[trigger] args[i]),
        forall|i: int| 0 <= i < args.len() ==> utf8_len(#[trigger] args[i]) <= u64::MAX,
    ensures
        decode(request("SET"@, args)) == decode_set(args),
        request("SET"@, args).len() > 0,
{
    reveal_strlit("SET");
    reveal_strlit("set");
    reveal_strlit("get");
    reveal_strlit("ping");
    reveal_strlit("echo");
    is_ascii_chars_encode_utf8("SET"@);
    lemma_decode_request("SET"@, args);
    let elements = seq!["SET"@] + args;
    assert(lowercase("SET"@) =~= lowercase("set"@));
    assert(lowercase("SET"@).len() != lowercase("ping"@).len());
    assert(lowercase("SET"@).len() != lowercase("echo"@).len());
    assert(lowercase("SET"@)[0] != lowercase("get"@)[0]);
    assert(elements.drop_first() =~= args);
}

/// The request `SET key value PX d` is read as a `SET` with a time to live
/// of `d` milliseconds.
proof fn lemma_decode_set_px(key: Seq<char>, value: Seq<char>, d: u64)
    requires
        single_line(key),
        single_line(value),
        utf8_len(key) <= u64::MAX,
        utf8_len(value) <= u64::MAX,
    ensures
        decode(request("SET"@, seq![key, value, "PX"@, decimal(d as nat)])) == Ok::<
            CommandView,
            ProtocolErrorView,
        >(CommandView::SetKey(key, value, Some(d))),
        request("SET"@, seq![key, value, "PX"@, decimal(d as nat)]).len() > 0,
{
    reveal_strlit("PX");
    reveal_strlit("px");
    is_ascii_chars_encode_utf8("PX"@);
    lemma_decimal_line(d as nat);
    lemma_parse_decimal(d as nat, u64::MAX as nat);
    let args = seq![key, value, "PX"@, decimal(d as nat)];
    lemma_decode_set(args);
    assert(lowercase("PX"@) =~= lowercase("px"@));
}

/// The frame `*1\r\n$4\r\nPING\r\n` is answered with `+PONG\r\n`, whatever
/// the server holds, and leaves it as it was.
pub proof fn lemma_session_ping(context: ContextView, now: u64)
    ensures
        session_action(context, "*1\r\n$4\r\nPING\r\n"@, now) == SessionActionView::Respond(
            encode_utf8("+PONG\r\n"@),
        ),
        context_after(context, "*1\r\n$4\r\nPING\r\n"@, now) == context,
{
    reveal_strlit("*1\r\n$4\r\nPING\r\n");
    lemma_decode_ping();
    lemma_ping_pong(context.entries, context.role, context.replication, now);
}

/// A session that takes the request `SET key value` and then the request
/// `GET key` answers the first with `+OK` and the second with `value` as a
/// bulk string, at whatever times the two arrive. The key and the value can
/// be any texts that fit on a line.
pub proof fn lemma_session_set_then_get(
    context: ContextView,
    key: Seq<char>,
    value: Seq<char>,
    now: u64,
    later: u64,
)
    requires
        single_line(key),
        single_line(value),
        utf8_len(key) <= u64::MAX,
        utf8_len(value) <= u64::MAX,
    ensures
        ({
            let set = request("SET"@, seq![key, value]);
            let get = request("GET"@, seq![key]);
            &&& session_action(context, set, now) == SessionActionView::Respond(
                encode_utf8("+OK\r\n"@),
            )
            &&& session_action(context_after(context, set, now), get, later)
                == SessionActionView::Respond(encode_utf8(bulk_string_line(value) + crlf()))
        }),
{
    lemma_decode_set(seq![key, value]);
    lemma_decode_get(key);
    lemma_ok_frame();
    lemma_bulk_frames(value);
    lemma_get_after_set(
        context.entries,
        context.role,
        context.replication,
        key,
        value,
        None,
        now,
        later,
    );
}

/// A session that takes the request `SET key value PX d` at `now` answers
/// a `GET key` that arrives before `d` milliseconds have passed with
/// `value`; one that arrives when they have passed, or later, with the null
/// bulk string `$-1`; and so every `GET key` after that one, at whatever
/// time.
pub proof fn lemma_session_expiry(
    context: ContextView,
    key: Seq<char>,
    value: Seq<char>,
    d: u64,
    now: u64,
    sooner: u64,
    later: u64,
    again: u64,
)
    requires
        single_line(key),
        single_line(value),
        utf8_len(key) <= u64::MAX,
        utf8_len(value) <= u64::MAX,
        sooner < now + d,
        later >= now + d,
    ensures
        ({
            let set = request("SET"@, seq![key, value, "PX"@, decimal(d as nat)]);
            let get = request("GET"@, seq![key]);
            let written = context_after(context, set, now);
            let read = context_after(written, get, later);
            &&& session_action(written, get, sooner) == SessionActionView::Respond(
                encode_utf8(bulk_string_line(value) + crlf()),
            )
            &&& session_action(written, get, later) == SessionActionView::Respond(
                encode_utf8("$-1\r\n"@),
            )
            &&& session_action(read, get, again) == SessionActionView::Respond(
                encode_utf8("$-1\r\n"@),
            )
        }),
{
    lemma_decode_set_px(key, value, d);
    lemma_decode_get(key);
    lemma_bulk_frames(value);
    lemma_get_after_set(
        context.entries,
        context.role,
        context.replication,
        key,
        value,
        Some(d),
        now,
        sooner,
    );
    lemma_get_after_expiry(
        context.entries,
        context.role,
        context.replication,
        key,
        value,
        d,
        now,
        later,
        again,
    );
}

/// What a server answers to the request that a replica sends in `state`.
pub open spec fn master_answer(state: HandshakeState, master: ContextView) -> Seq<u8> {
    match state {
        HandshakeState::Start => encode_utf8("+PONG\r\n"@),
        HandshakeState::PingSent => encode_utf8("+OK\r\n"@),
        HandshakeState::PortAcked => encode_utf8("+OK\r\n"@),
        _ => encode_utf8("+FULLRESYNC "@ + master.replication.id + " 0\r\n"@) + encode_utf8(
            "$88\r\n"@,
        ) + empty_snapshot(),
    }
}

/// A server acknowledges `REPLCONF` with `+OK`, whatever is announced to it.
proof fn lemma_master_acknowledges(master: ContextView, args: Seq<Seq<char>>, now: u64)
    requires
        args.len() == 2,
        forall|i: int| 0 <= i < args.len() ==> single_line(#[trigger] args[i]),
        forall|i: int| 0 <= i < args.len() ==> utf8_len(#[trigger] args[i]) <= u64::MAX,
    ensures
        session_action(master, request("REPLCONF"@, args), now) == SessionActionView::Respond(
            encode_utf8("+OK\r\n"@),
        ),
        context_after(master, request("REPLCONF"@, args), now) == master,
{
    reveal_strlit("REPLCONF");
    reveal_strlit("replconf");
    reveal_strlit("ping");
    reveal_strlit("echo");
    reveal_strlit("get");
    reveal_strlit("set");
    reveal_strlit("info");
    is_ascii_chars_encode_utf8("REPLCONF"@);
    lemma_decode_request("REPLCONF"@, args);
    let elements = seq!["REPLCONF"@] + args;
    assert(elements.drop_first() =~= args);
    assert(lowercase("REPLCONF"@) =~= lowercase("replconf"@));
    assert(lowercase("REPLCONF"@).len() != lowercase("ping"@).len());
    assert(lowercase("REPLCONF"@).len() != lowercase("echo"@).len());
    assert(lowercase("REPLCONF"@).len() != lowercase("get"@).len());
    assert(lowercase("REPLCONF"@).len() != lowercase("set"@).len());
    assert(lowercase("REPLCONF"@).len() != lowercase("info"@).len());
    assert(decode_command(elements) == Ok::<CommandView, ProtocolErrorView>(
        CommandView::ReplConf(args[0], args[1]),
    ));
    assert(request("REPLCONF"@, args).len() > 0);
    lemma_ok_frame();
}

/// A server answers `PSYNC ? -1` with a full resynchronisation.
proof fn lemma_master_resyncs(master: ContextView, now: u64)
    ensures
        session_action(master, request("PSYNC"@, seq!["?"@, "-1"@]), now)
            == SessionActionView::Respond(master_answer(HandshakeState::CapaAcked, master)),
        context_after(master, request("PSYNC"@, seq!["?"@, "-1"@]), now) == master,
{
    reveal_strlit("PSYNC");
    reveal_strlit("psync");
    reveal_strlit("ping");
    reveal_strlit("echo");
    reveal_strlit("get");
    reveal_strlit("set");
    reveal_strlit("info");
    reveal_strlit("replconf");
    reveal_strlit("?");
    reveal_strlit("-1");
    is_ascii_chars_encode_utf8("PSYNC"@);
    is_ascii_chars_encode_utf8("?"@);
    is_ascii_chars_encode_utf8("-1"@);
    let args = seq!["?"@, "-1"@];
    lemma_decode_request("PSYNC"@, args);
    let elements = seq!["PSYNC"@] + args;
    assert(elements.drop_first() =~= args);
    assert(lowercase("PSYNC"@) =~= lowercase("psync"@));
    assert(lowercase("PSYNC"@).len() != lowercase("ping"@).len());
    assert(lowercase("PSYNC"@).len() != lowercase("echo"@).len());
    assert(lowercase("PSYNC"@).len() != lowercase("get"@).len());
    assert(lowercase("PSYNC"@).len() != lowercase("set"@).len());
    assert(lowercase("PSYNC"@).len() != lowercase("info"@).len());
    assert(lowercase("PSYNC"@).len() != lowercase("replconf"@).len());
    assert(decode_command(elements) == Ok::<CommandView, ProtocolErrorView>(
        CommandView::PSync("?"@, "-1"@),
    ));
    assert(request("PSYNC"@, args).len() > 0);
    lemma_full_resync_frames(master.entries, master.role, master.replication, "-1"@, now);
}

/// The answers `+PONG` and `+OK` are what a replica expects to `PING` and
/// to `REPLCONF`.
proof fn lemma_answers_expected()
    ensures
        contains_word("+PONG\r\n"@, "pong"@),
        contains_word("+OK\r\n"@, "ok"@),
{
    reveal_strlit("pong");
    reveal_strlit("ok");
    reveal_strlit("+PONG\r\n");
    reveal_strlit("+OK\r\n");
    let pong = "+PONG\r\n"@;
    let ok = "+OK\r\n"@;
    assert(lowercase(pong.subrange(1, 5)) =~= lowercase("pong"@));
    assert(occurs_at(pong, "pong"@, 1));
    assert(lowercase(ok.subrange(1, 3)) =~= lowercase("ok"@));
    assert(occurs_at(ok, "ok"@, 1));
}

/// A server takes a replica through the whole handshake: to each request
/// that the replica sends it answers what the replica expects, and stays as
/// it was. The answers to the first three requests are text, `+PONG` once
/// and `+OK` twice; the replica takes any answer to the fourth.
pub proof fn lemma_master_answers_handshake(
    master: ContextView,
    state: HandshakeState,
    port: u16,
    now: u64,
    resync: Seq<char>,
)
    requires
        state != HandshakeState::ResyncRequested,
    ensures
        session_action(master, handshake_request(state, port)->Some_0, now)
            == SessionActionView::Respond(master_answer(state, master)),
        context_after(master, handshake_request(state, port)->Some_0, now) == master,
        handshake_step(HandshakeState::Start, "+PONG\r\n"@) == Ok::<HandshakeState, Seq<char>>(
            HandshakeState::PingSent,
        ),
        handshake_step(HandshakeState::PingSent, "+OK\r\n"@) == Ok::<HandshakeState, Seq<char>>(
            HandshakeState::PortAcked,
        ),
        handshake_step(HandshakeState::PortAcked, "+OK\r\n"@) == Ok::<HandshakeState, Seq<char>>(
            HandshakeState::CapaAcked,
        ),
        handshake_step(HandshakeState::CapaAcked, resync) == Ok::<HandshakeState, Seq<char>>(
            HandshakeState::ResyncRequested,
        ),
{
    lemma_answers_expected();
    match state {
        HandshakeState::Start => {
            lemma_decode_ping();
            lemma_session_ping(master, now);
        },
        HandshakeState::PingSent => {
            reveal_strlit("listening-port");
            is_ascii_chars_encode_utf8("listening-port"@);
            lemma_decimal_line(port as nat);
            lemma_master_acknowledges(
                master,
                option_arguments(ReplConfOptionView::ListeningPort(port)),
                now,
            );
        },
        HandshakeState::PortAcked => {
            reveal_strlit("capa");
            reveal_strlit("psync2");
            is_ascii_chars_encode_utf8("capa"@);
            is_ascii_chars_encode_utf8("psync2"@);
            lemma_master_acknowledges(
                master,
                option_arguments(ReplConfOptionView::Capability("psync2"@)),
                now,
            );
        },
        _ => {
            lemma_master_resyncs(master, now);
        },
    }
}

} // verus!
