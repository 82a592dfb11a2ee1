//! The executor: what each command does to the store, and what it answers.

use crate::decimal::{decimal, push_decimal};
use crate::format::crlf;
use crate::parser::{CommandView, RedisCommand};
use crate::reply::{
    encode_replies, lemma_encode_one, lemma_encode_two, reply_views, Reply, ReplyView,
};
use crate::store::{after_get, after_set, lookup, Entry, Store};
use crate::text::str_eq;
use vstd::prelude::*;
use vstd::utf8::*;

verus! {

/// The part that this server plays in replication, fixed when it starts.
#[derive(Debug, Clone, Copy, PartialEq, Eq)]
pub enum Role {
    Master,
    Replica,
}

/// The identity under which a master replicates.
#[derive(Debug, Clone)]
pub struct Replication {
    pub id: String,
    pub offset: u32,
}

/// What a `Replication` holds.
pub struct ReplicationView {
    pub id: Seq<char>,
    pub offset: u32,
}

impl View for Replication {
    type V = ReplicationView;

    open spec fn view(&self) -> ReplicationView {
        ReplicationView { id: self.id@, offset: self.offset }
    }
}

/// The snapshot of an empty data set, in the format that a full
/// resynchronisation transfers.
pub open spec fn empty_snapshot() -> Seq<u8> {
    seq![
        0x52u8, 0x45, 0x44, 0x49, 0x53, 0x30, 0x30, 0x31, 0x31, 0xfa, 0x09, 0x72, 0x65, 0x64, 0x69,
        0x73, 0x2d, 0x76, 0x65, 0x72, 0x05, 0x37, 0x2e, 0x32, 0x2e, 0x30, 0xfa, 0x0a, 0x72, 0x65,
        0x64, 0x69, 0x73, 0x2d, 0x62, 0x69, 0x74, 0x73, 0xc0, 0x40, 0xfa, 0x05, 0x63, 0x74, 0x69,
        0x6d, 0x65, 0xc2, 0x6d, 0x08, 0xbc, 0x65, 0xfa, 0x08, 0x75, 0x73, 0x65, 0x64, 0x2d, 0x6d,
        0x65, 0x6d, 0xc2, 0xb0, 0xc4, 0x10, 0x00, 0xfa, 0x08, 0x61, 0x6f, 0x66, 0x2d, 0x62, 0x61,
        0x73, 0x65, 0xc0, 0x00, 0xff, 0xf0, 0x6e, 0x3b, 0xfe, 0xc0, 0xff, 0x5a, 0xa2,
    ]
}

/// The name under which `INFO` reports a role.
pub open spec fn role_name(role: Role) -> Seq<char> {
    match role {
        Role::Master => "master"@,
        Role::Replica => "slave"@,
    }
}

/// The lines that `INFO replication` reports of a master beyond its role.
pub open spec fn master_lines(replication: ReplicationView) -> Seq<char> {
    "master_replid:"@ + replication.id + "\nmaster_repl_offset:"@ + decimal(
        replication.offset as nat,
    )
}

/// The text that `INFO replication` reports: the role on a line of its
/// own, and behind it, of a master only, its identity and its offset.
pub open spec fn info_text(role: Role, replication: ReplicationView) -> Seq<char> {
    "role:"@ + role_name(role) + "\n"@ + match role {
        Role::Master => master_lines(replication),
        Role::Replica => Seq::empty(),
    }
}

/// The line that opens a full resynchronisation.
pub open spec fn full_resync_line(replication: ReplicationView) -> Seq<char> {
    "FULLRESYNC "@ + replication.id + " 0"@
}

/// The text that refuses an option of `PSYNC`.
pub open spec fn psync_refusal(option: Seq<char>) -> Seq<char> {
    "unknown option '"@ + option + "' to PSYNC"@
}

/// What `INFO <section>` is answered: the report on replication, or
/// nothing for any other section.
pub open spec fn info_reply(section: Seq<char>, role: Role, replication: ReplicationView) -> ReplyView {
    if section == "replication"@ {
        ReplyView::BulkString(Some(info_text(role, replication)))
    } else {
        ReplyView::BulkString(None)
    }
}

/// What `PSYNC <option> <value>` is answered. To the option `?`: the line
/// that opens a full resynchronisation, and directly behind it the snapshot
/// of an empty data set. To any other option: a refusal.
pub open spec fn psync_replies(option: Seq<char>, replication: ReplicationView) -> Seq<ReplyView> {
    if option == "?"@ {
        seq![
            ReplyView::SimpleOk(full_resync_line(replication)),
            ReplyView::InlineBytes(empty_snapshot()),
        ]
    } else {
        seq![ReplyView::Error(psync_refusal(option))]
    }
}

/// What the server answers to `command` at `now`, with `entries` in its
/// store.
pub open spec fn replies(
    command: CommandView,
    entries: Map<Seq<char>, Entry>,
    role: Role,
    replication: ReplicationView,
    now: u64,
) -> Seq<ReplyView> {
    match command {
        CommandView::Ping => seq![ReplyView::SimpleOk("PONG"@)],
        CommandView::Echo(text) => seq![ReplyView::BulkString(Some(text))],
        CommandView::Get(key) => seq![ReplyView::BulkString(lookup(entries, key, now))],
        CommandView::SetKey(_, _, _) => seq![ReplyView::SimpleOk("OK"@)],
        CommandView::Info(section) => seq![info_reply(section, role, replication)],
        CommandView::ReplConf(_, _) => seq![ReplyView::SimpleOk("OK"@)],
        CommandView::PSync(option, _) => psync_replies(option, replication),
    }
}

/// What `command` at `now` leaves in the store that held `entries`.
pub open spec fn entries_after(
    command: CommandView,
    entries: Map<Seq<char>, Entry>,
    now: u64,
) -> Map<Seq<char>, Entry> {
    match command {
        CommandView::Get(key) => after_get(entries, key, now),
        CommandView::SetKey(key, value, ttl) => after_set(entries, key, value, now, ttl),
        _ => entries,
    }
}

/// After `SET key value`, a `GET key` is answered with `value` itself, at
/// the time of the `SET` or at any other, as long as the time to live of the
/// value, if it was given one, has not run out. The `GET` leaves the store
/// as the `SET` left it.
pub proof fn lemma_get_after_set(
    entries: Map<Seq<char>, Entry>,
    role: Role,
    replication: ReplicationView,
    key: Seq<char>,
    value: Seq<char>,
    ttl: Option<u64>,
    now: u64,
    later: u64,
)
    requires
        ttl matches Some(millis) ==> later < now + millis,
    ensures
        ({
            let written = entries_after(CommandView::SetKey(key, value, ttl), entries, now);
            &&& replies(CommandView::Get(key), written, role, replication, later)
                == seq![ReplyView::BulkString(Some(value))]
            &&& entries_after(CommandView::Get(key), written, later) == written
        }),
{
}

/// Once the `d` milliseconds of `SET key value PX d` have passed, a `GET key`
/// is answered with the null bulk string, and so is every `GET key` after
/// it, at whatever time.
pub proof fn lemma_get_after_expiry(
    entries: Map<Seq<char>, Entry>,
    role: Role,
    replication: ReplicationView,
    key: Seq<char>,
    value: Seq<char>,
    d: u64,
    now: u64,
    later: u64,
    again: u64,
)
    requires
        later >= now + d,
    ensures
        ({
            let written = entries_after(CommandView::SetKey(key, value, Some(d)), entries, now);
            let read = entries_after(CommandView::Get(key), written, later);
            &&& replies(CommandView::Get(key), written, role, replication, later)
                == seq![ReplyView::BulkString(None)]
            &&& replies(CommandView::Get(key), read, role, replication, again)
                == seq![ReplyView::BulkString(None)]
            &&& !read.contains_key(key)
        }),
{
}

/// `PING` is answered with `+PONG`, whatever the store holds, whatever the
/// role and whatever the time, and it leaves the store as it was.
pub proof fn lemma_ping_pong(
    entries: Map<Seq<char>, Entry>,
    role: Role,
    replication: ReplicationView,
    now: u64,
)
    ensures
        replies(CommandView::Ping, entries, role, replication, now)
            == seq![ReplyView::SimpleOk("PONG"@)],
        encode_replies(replies(CommandView::Ping, entries, role, replication, now))
            == encode_utf8("+PONG\r\n"@),
        entries_after(CommandView::Ping, entries, now) == entries,
{
    reveal_strlit("PONG");
    reveal_strlit("+PONG\r\n");
    lemma_encode_one(ReplyView::SimpleOk("PONG"@));
    assert(seq!['+'] + "PONG"@ + crlf() =~= "+PONG\r\n"@);
    assert(encode_utf8("+PONG\r\n"@) + Seq::<u8>::empty() =~= encode_utf8("+PONG\r\n"@));
}

/// A master reports to `INFO replication` its role, its replication
/// identity and its offset, each on a line of its own; a replica reports
/// its role and nothing else.
pub proof fn lemma_info_replication(
    entries: Map<Seq<char>, Entry>,
    replication: ReplicationView,
    now: u64,
)
    ensures
        replies(CommandView::Info("replication"@), entries, Role::Master, replication, now)
            == seq![
            ReplyView::BulkString(
                Some(
                    "role:master\nmaster_replid:"@ + replication.id + "\nmaster_repl_offset:"@
                        + decimal(replication.offset as nat),
                ),
            ),
        ],
        replies(CommandView::Info("replication"@), entries, Role::Replica, replication, now)
            == seq![ReplyView::BulkString(Some("role:slave\n"@))],
{
    reveal_strlit("role:");
    reveal_strlit("master");
    reveal_strlit("slave");
    reveal_strlit("\n");
    reveal_strlit("master_replid:");
    reveal_strlit("role:master\nmaster_replid:");
    reveal_strlit("role:slave\n");
    assert(info_text(Role::Master, replication) =~= "role:master\nmaster_replid:"@
        + replication.id + "\nmaster_repl_offset:"@ + decimal(replication.offset as nat));
    assert(info_text(Role::Replica, replication) =~= "role:slave\n"@);
}

/// `PSYNC ? <value>` is answered with the line `+FULLRESYNC <id> 0` and,
/// directly behind it, the snapshot of an empty data set with its length in
/// front: the header announces 88 bytes, and 88 bytes follow it.
pub proof fn lemma_full_resync_frames(
    entries: Map<Seq<char>, Entry>,
    role: Role,
    replication: ReplicationView,
    value: Seq<char>,
    now: u64,
)
    ensures
        encode_replies(replies(CommandView::PSync("?"@, value), entries, role, replication, now))
            == encode_utf8("+FULLRESYNC "@ + replication.id + " 0\r\n"@) + encode_utf8(
            "$88\r\n"@,
        ) + empty_snapshot(),
        empty_snapshot().len() == 88,
{
    reveal_strlit("FULLRESYNC ");
    reveal_strlit("+FULLRESYNC ");
    reveal_strlit(" 0");
    reveal_strlit(" 0\r\n");
    reveal_strlit("$88\r\n");
    let line = ReplyView::SimpleOk(full_resync_line(replication));
    let block = ReplyView::InlineBytes(empty_snapshot());
    lemma_encode_two(line, block);
    assert(seq!['+'] + full_resync_line(replication) + crlf() =~= "+FULLRESYNC "@
        + replication.id + " 0\r\n"@);
    assert(decimal(88) =~= seq!['8', '8']) by {
        reveal_with_fuel(decimal, 2);
    }
    assert(seq!['$'] + decimal(88) + crlf() =~= "$88\r\n"@);
    let text = encode_utf8("+FULLRESYNC "@ + replication.id + " 0\r\n"@);
    let header = encode_utf8("$88\r\n"@);
    assert((text + Seq::<u8>::empty()) + (header + empty_snapshot()) =~= text + header
        + empty_snapshot());
}

/// Two `SET`s of one key leave under the key exactly one of the two values,
/// whole: the value of the `SET` that is carried out last, in whichever
/// order the two are carried out. The store is then as if the other `SET` had
/// never been, and every other key is as it was.
pub proof fn lemma_last_set_wins(
    entries: Map<Seq<char>, Entry>,
    key: Seq<char>,
    value: Seq<char>,
    ttl: Option<u64>,
    now: u64,
    other_value: Seq<char>,
    other_ttl: Option<u64>,
    other_now: u64,
)
    ensures
        ({
            let set = CommandView::SetKey(key, value, ttl);
            let other = CommandView::SetKey(key, other_value, other_ttl);
            let set_last = entries_after(set, entries_after(other, entries, other_now), now);
            let other_last = entries_after(other, entries_after(set, entries, now), other_now);
            &&& set_last.contains_key(key) && set_last[key].payload == value
            &&& other_last.contains_key(key) && other_last[key].payload == other_value
            &&& set_last == entries_after(set, entries, now)
            &&& other_last == entries_after(other, entries, other_now)
            &&& set_last.remove(key) == entries.remove(key)
            &&& other_last.remove(key) == entries.remove(key)
        }),
{
    let set = CommandView::SetKey(key, value, ttl);
    let other = CommandView::SetKey(key, other_value, other_ttl);
    let set_last = entries_after(set, entries_after(other, entries, other_now), now);
    let other_last = entries_after(other, entries_after(set, entries, now), other_now);
    assert(set_last =~= entries_after(set, entries, now));
    assert(other_last =~= entries_after(other, entries, other_now));
    assert(set_last.remove(key) =~= entries.remove(key));
    assert(other_last.remove(key) =~= entries.remove(key));
}

/// The snapshot of an empty data set.
pub fn serialize_rdb() -> (bytes: Vec<u8>)
    ensures
        bytes@ == empty_snapshot(),
{
    let bytes: Vec<u8> = vec![
        0x52u8, 0x45, 0x44, 0x49, 0x53, 0x30, 0x30, 0x31, 0x31, 0xfa, 0x09, 0x72, 0x65, 0x64, 0x69,
        0x73, 0x2d, 0x76, 0x65, 0x72, 0x05, 0x37, 0x2e, 0x32, 0x2e, 0x30, 0xfa, 0x0a, 0x72, 0x65,
        0x64, 0x69, 0x73, 0x2d, 0x62, 0x69, 0x74, 0x73, 0xc0, 0x40, 0xfa, 0x05, 0x63, 0x74, 0x69,
        0x6d, 0x65, 0xc2, 0x6d, 0x08, 0xbc, 0x65, 0xfa, 0x08, 0x75, 0x73, 0x65, 0x64, 0x2d, 0x6d,
        0x65, 0x6d, 0xc2, 0xb0, 0xc4, 0x10, 0x00, 0xfa, 0x08, 0x61, 0x6f, 0x66, 0x2d, 0x62, 0x61,
        0x73, 0x65, 0xc0, 0x00, 0xff, 0xf0, 0x6e, 0x3b, 0xfe, 0xc0, 0xff, 0x5a, 0xa2,
    ];
    assert(bytes@ =~= empty_snapshot());
    bytes
}

/// `GET <key>`.
pub fn execute_get_command(store: &mut Store, key: &str, now: u64) -> (reply: Reply)
    ensures
        reply@ == ReplyView::BulkString(lookup(old(store)@, key@, now)),
        final(store)@ == after_get(old(store)@, key@, now),
{
    Reply::BulkString(store.get(key, now))
}

/// `SET <key> <value>`, with a time to live in milliseconds or without.
pub fn execute_set_command(
    store: &mut Store,
    key: String,
    value: String,
    ttl: Option<u64>,
    now: u64,
) -> (reply: Reply)
    ensures
        reply@ == ReplyView::SimpleOk("OK"@),
        final(store)@ == after_set(old(store)@, key@, value@, now, ttl),
{
    store.set(key, value, now, ttl);
    Reply::SimpleOk(String::from_str("OK"))
}

/// `REPLCONF <name> <value>`: acknowledged, whatever is announced.
pub fn execute_replconf_command(name: &str, value: &str) -> (reply: Reply)
    ensures
        reply@ == ReplyView::SimpleOk("OK"@),
{
    Reply::SimpleOk(String::from_str("OK"))
}

/// `INFO <section>`.
pub fn execute_info_command(section: &str, role: Role, replication: &Replication) -> (reply: Reply)
    ensures
        reply@ == info_reply(section@, role, replication@),
{
    if !str_eq(section, "replication") {
        return Reply::BulkString(None);
    }
    let mut text = String::from_str("role:");
    match role {
        Role::Master => {
            text.append("master");
            text.append("\n");
            text.append("master_replid:");
            text.append(replication.id.as_str());
            text.append("\nmaster_repl_offset:");
            push_decimal(&mut text, replication.offset as u128);
        },
        Role::Replica => {
            text.append("slave");
            text.append("\n");
        },
    }
    assert(text@ =~= info_text(role, replication@));
    Reply::BulkString(Some(text))
}

/// `PSYNC <option> <value>`.
pub fn execute_psync_command(option: &str, replication: &Replication) -> (out: Vec<Reply>)
    ensures
        reply_views(out@) == psync_replies(option@, replication@),
{
    let mut out: Vec<Reply> = Vec::new();
    if !str_eq(option, "?") {
        let mut text = String::from_str("unknown option '");
        text.append(option);
        text.append("' to PSYNC");
        assert(text@ =~= psync_refusal(option@));
        out.push(Reply::Error(text));
        assert(reply_views(out@) =~= seq![ReplyView::Error(psync_refusal(option@))]);
        return out;
    }
    let mut line = String::from_str("FULLRESYNC ");
    line.append(replication.id.as_str());
    line.append(" 0");
    assert(line@ =~= full_resync_line(replication@));
    out.push(Reply::SimpleOk(line));
    out.push(Reply::InlineBytes(serialize_rdb()));
    assert(reply_views(out@) =~= seq![
        ReplyView::SimpleOk(full_resync_line(replication@)),
        ReplyView::InlineBytes(empty_snapshot()),
    ]);
    out
}

/// Carries out `command` at `now` and returns what is to be answered.
pub fn execute_command(
    command: RedisCommand,
    store: &mut Store,
    role: Role,
    replication: &Replication,
    now: u64,
) -> (out: Vec<Reply>)
    ensures
        reply_views(out@) == replies(command@, old(store)@, role, replication@, now),
        final(store)@ == entries_after(command@, old(store)@, now),
{
    let mut out: Vec<Reply> = Vec::new();
    match command {
        RedisCommand::Ping => {
            out.push(Reply::SimpleOk(String::from_str("PONG")));
        },
        RedisCommand::Echo(text) => {
            out.push(Reply::BulkString(Some(text)));
        },
        RedisCommand::Get(key) => {
            out.push(execute_get_command(store, key.as_str(), now));
        },
        RedisCommand::SetKey(key, value, ttl) => {
            out.push(execute_set_command(store, key, value, ttl, now));
        },
        RedisCommand::Info(section) => {
            out.push(execute_info_command(section.as_str(), role, replication));
        },
        RedisCommand::ReplConf(name, value) => {
            out.push(execute_replconf_command(name.as_str(), value.as_str()));
        },
        RedisCommand::PSync(option, _) => {
            return execute_psync_command(option.as_str(), replication);
        },
    }
    assert(reply_views(out@) =~= replies(command@, old(store)@, role, replication@, now));
    out
}

} // verus!
