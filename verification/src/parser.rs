//! Requests: from the text of a request frame to a typed command.
//!
//! A request is an array of bulk strings. Its first line is `*<n>` with
//! `n >= 1`; then each of the `n` elements takes two lines, `$<len>` and a
//! line of exactly `len` bytes. The first element names the command.

use crate::decimal::{parse_u64, parse_unsigned};
use crate::text::{chars_of, eq_ignore_case, same_word, split_lines, utf8_len, utf8_len_of, Lines};
use vstd::prelude::*;

verus! {

/// An option that a replica announces to its master with `REPLCONF`.
#[derive(Debug, Clone, PartialEq, Eq)]
pub enum ReplConfOption {
    ListeningPort(u16),
    Capability(String),
}

/// A request, decoded.
#[derive(Debug, Clone, Default, PartialEq, Eq)]
pub enum RedisCommand {
    #[default]
    Ping,
    Echo(String),
    Get(String),
    /// Key, value, and the time to live in milliseconds if one was given.
    SetKey(String, String, Option<u64>),
    Info(String),
    ReplConf(String, String),
    PSync(String, String),
}

/// Why a request could not be decoded.
#[derive(Debug, Clone, PartialEq, Eq)]
pub enum ProtocolError {
    /// The frame is not an array of bulk strings, or an argument has no
    /// meaning; the text is the line or the argument at fault.
    Malformed(String),
    /// The number of elements is not the number that was announced, or is
    /// too small for the command.
    WrongArity,
    /// The command name is not one of the known verbs.
    UnknownCommand(String),
}

/// What a `RedisCommand` holds.
pub enum CommandView {
    Ping,
    Echo(Seq<char>),
    Get(Seq<char>),
    SetKey(Seq<char>, Seq<char>, Option<u64>),
    Info(Seq<char>),
    ReplConf(Seq<char>, Seq<char>),
    PSync(Seq<char>, Seq<char>),
}

/// What a `ProtocolError` holds.
pub enum ProtocolErrorView {
    Malformed(Seq<char>),
    WrongArity,
    UnknownCommand(Seq<char>),
}

impl View for RedisCommand {
    type V = CommandView;

    open spec fn view(&self) -> CommandView {
        match self {
            RedisCommand::Ping => CommandView::Ping,
            RedisCommand::Echo(text) => CommandView::Echo(text@),
            RedisCommand::Get(key) => CommandView::Get(key@),
            RedisCommand::SetKey(key, value, ttl) => CommandView::SetKey(key@, value@, *ttl),
            RedisCommand::Info(section) => CommandView::Info(section@),
            RedisCommand::ReplConf(name, value) => CommandView::ReplConf(name@, value@),
            RedisCommand::PSync(name, value) => CommandView::PSync(name@, value@),
        }
    }
}

impl View for ProtocolError {
    type V = ProtocolErrorView;

    open spec fn view(&self) -> ProtocolErrorView {
        match self {
            ProtocolError::Malformed(text) => ProtocolErrorView::Malformed(text@),
            ProtocolError::WrongArity => ProtocolErrorView::WrongArity,
            ProtocolError::UnknownCommand(name) => ProtocolErrorView::UnknownCommand(name@),
        }
    }
}

/// The outcome of decoding, as the contracts speak of it.
pub type Decoded = Result<CommandView, ProtocolErrorView>;

/// The view of an outcome of decoding.
pub open spec fn decoded(r: Result<RedisCommand, ProtocolError>) -> Decoded {
    match r {
        Ok(command) => Ok(command@),
        Err(error) => Err(error@),
    }
}

/// The text that reports `error` to the peer.
pub open spec fn error_message(error: ProtocolErrorView) -> Seq<char> {
    match error {
        ProtocolErrorView::Malformed(text) => "malformed frame at '"@ + text + "'"@,
        ProtocolErrorView::WrongArity => "wrong number of arguments"@,
        ProtocolErrorView::UnknownCommand(name) => "unknown command '"@ + name + "'"@,
    }
}

impl ProtocolError {
    /// The text that reports this error to the peer.
    pub fn message(&self) -> (text: String)
        ensures
            text@ == error_message(self@),
    {
        match self {
            ProtocolError::Malformed(at) => {
                let mut text = String::from_str("malformed frame at '");
                text.append(at.as_str());
                text.append("'");
                text
            },
            ProtocolError::WrongArity => String::from_str("wrong number of arguments"),
            ProtocolError::UnknownCommand(name) => {
                let mut text = String::from_str("unknown command '");
                text.append(name.as_str());
                text.append("'");
                text
            },
        }
    }
}

/// The number that follows the sign `sigil` on `line`, if the line has
/// that shape.
pub open spec fn header_number(line: Seq<char>, sigil: char) -> Option<nat> {
    if line.len() > 0 && line[0] == sigil {
        parse_unsigned(line.drop_first(), u64::MAX as nat)
    } else {
        None
    }
}

/// The number of elements that the array header `line` announces: `*<n>`
/// with `n >= 1`.
pub open spec fn array_header(line: Seq<char>) -> Option<nat> {
    match header_number(line, '*') {
        Some(n) => if n >= 1 {
            Some(n)
        } else {
            None
        },
        None => None,
    }
}

/// The length in bytes that the bulk string header `line` announces:
/// `$<len>`.
pub open spec fn bulk_header(line: Seq<char>) -> Option<nat> {
    header_number(line, '$')
}

/// Element `i` of the frame `lines` is a bulk string: its header announces
/// the length in bytes of the line that follows.
pub open spec fn element_ok(lines: Seq<Seq<char>>, i: int) -> bool {
    bulk_header(lines[2 * i + 1]) == Some(utf8_len(lines[2 * i + 2]))
}

/// Element `k` is the first of the `n` elements that is no bulk string.
pub open spec fn is_first_bad(lines: Seq<Seq<char>>, n: nat, k: int) -> bool {
    &&& 0 <= k < n
    &&& !element_ok(lines, k)
    &&& forall|j: int| 0 <= j < k ==> element_ok(lines, j)
}

/// The texts of the `n` elements of the frame `lines`.
pub open spec fn frame_elements(lines: Seq<Seq<char>>, n: nat) -> Seq<Seq<char>> {
    Seq::new(n, |i: int| lines[2 * i + 2])
}

/// The elements of the request frame that `lines` holds.
///
/// Without a header `*<n>`, `n >= 1`, the frame is malformed at its first
/// line. With any number of lines after it but `2 * n`, the arity is wrong.
/// Otherwise each element must be a bulk string, and the frame is malformed
/// at the header of the first that is none.
pub open spec fn decode_frame(lines: Seq<Seq<char>>) -> Result<
    Seq<Seq<char>>,
    ProtocolErrorView,
> {
    if lines.len() == 0 {
        Err(ProtocolErrorView::Malformed(Seq::empty()))
    } else {
        match array_header(lines[0]) {
            None => Err(ProtocolErrorView::Malformed(lines[0])),
            Some(n) => if lines.len() != 2 * n + 1 {
                Err(ProtocolErrorView::WrongArity)
            } else if exists|k: int| is_first_bad(lines, n, k) {
                let k = choose|k: int| is_first_bad(lines, n, k);
                Err(ProtocolErrorView::Malformed(lines[2 * k + 1]))
            } else {
                Ok(frame_elements(lines, n))
            },
        }
    }
}

/// A command made of one argument, by `make`.
pub open spec fn decode_one(
    args: Seq<Seq<char>>,
    make: spec_fn(Seq<char>) -> CommandView,
) -> Decoded {
    if args.len() >= 1 {
        Ok(make(args[0]))
    } else {
        Err(ProtocolErrorView::WrongArity)
    }
}

/// A command made of a pair of arguments, by `make`.
pub open spec fn decode_pair(
    args: Seq<Seq<char>>,
    make: spec_fn(Seq<char>, Seq<char>) -> CommandView,
) -> Decoded {
    if args.len() >= 2 {
        Ok(make(args[0], args[1]))
    } else {
        Err(ProtocolErrorView::WrongArity)
    }
}

/// `SET key value`, with the pair `px <milliseconds>` behind it or without.
/// Fewer than two arguments after the value are no pair, and are ignored.
pub open spec fn decode_set(args: Seq<Seq<char>>) -> Decoded {
    if args.len() < 2 {
        Err(ProtocolErrorView::WrongArity)
    } else if args.len() < 4 {
        Ok(CommandView::SetKey(args[0], args[1], None))
    } else if same_word(args[2], "px"@) {
        match parse_unsigned(args[3], u64::MAX as nat) {
            Some(millis) => Ok(CommandView::SetKey(args[0], args[1], Some(millis as u64))),
            None => Err(ProtocolErrorView::Malformed(args[3])),
        }
    } else {
        Err(ProtocolErrorView::Malformed(args[2]))
    }
}

/// The command that the elements of a request stand for. The first element
/// is the verb, in any mix of upper and lower case; the others are its
/// arguments. Arguments that a verb does not read are ignored.
pub open spec fn decode_command(elements: Seq<Seq<char>>) -> Decoded {
    let verb = elements[0];
    let args = elements.drop_first();
    if same_word(verb, "ping"@) {
        Ok(CommandView::Ping)
    } else if same_word(verb, "echo"@) {
        decode_one(args, |text: Seq<char>| CommandView::Echo(text))
    } else if same_word(verb, "get"@) {
        decode_one(args, |key: Seq<char>| CommandView::Get(key))
    } else if same_word(verb, "set"@) {
        decode_set(args)
    } else if same_word(verb, "info"@) {
        decode_one(args, |section: Seq<char>| CommandView::Info(section))
    } else if same_word(verb, "replconf"@) {
        decode_pair(args, |name: Seq<char>, value: Seq<char>| CommandView::ReplConf(name, value))
    } else if same_word(verb, "psync"@) {
        decode_pair(args, |name: Seq<char>, value: Seq<char>| CommandView::PSync(name, value))
    } else {
        Err(ProtocolErrorView::UnknownCommand(verb))
    }
}

/// The command that the request `input` stands for.
pub open spec fn decode(input: Seq<char>) -> Decoded {
    match decode_frame(split_lines(input)) {
        Ok(elements) => decode_command(elements),
        Err(error) => Err(error),
    }
}

/// Among the first `k + 1` elements of which element `k` is no bulk string,
/// one is the first that is none.
proof fn lemma_first_bad_exists(lines: Seq<Seq<char>>, n: nat, k: int)
    requires
        0 <= k < n,
        !element_ok(lines, k),
    ensures
        exists|first: int| is_first_bad(lines, n, first),
    decreases k,
{
    if forall|j: int| 0 <= j < k ==> element_ok(lines, j) {
        assert(is_first_bad(lines, n, k));
    } else {
        let j = choose|j: int| 0 <= j < k && !element_ok(lines, j);
        lemma_first_bad_exists(lines, n, j);
    }
}

/// A request is malformed when the length that the header of one of its
/// elements announces is not the length in bytes of the line that follows:
/// a frame whose header and number of lines are in order is then refused,
/// whatever else it holds.
pub proof fn lemma_length_mismatch_is_malformed(input: Seq<char>, n: nat, k: int)
    requires
        split_lines(input).len() == 2 * n + 1,
        array_header(split_lines(input)[0]) == Some(n),
        0 <= k < n,
        bulk_header(split_lines(input)[2 * k + 1]) != Some(utf8_len(split_lines(input)[2 * k + 2])),
    ensures
        decode(input) matches Err(ProtocolErrorView::Malformed(_)),
{
    lemma_first_bad_exists(split_lines(input), n, k);
}

/// Reads the number behind the sign `sigil` on `line`.
fn parse_header(line: &[char], sigil: char) -> (r: Option<u64>)
    ensures
        match r {
            Some(n) => header_number(line@, sigil) == Some(n as nat),
            None => header_number(line@, sigil) is None,
        },
{
    if line.len() > 0 && line[0] == sigil {
        let digits = vstd::slice::slice_subrange(line, 1, line.len());
        assert(digits@ =~= line@.drop_first());
        parse_u64(digits)
    } else {
        None
    }
}

/// Reads the length that a bulk string header announces.
pub fn parse_integer_line(line: &[char]) -> (r: Option<u64>)
    ensures
        match r {
            Some(n) => bulk_header(line@) == Some(n as nat),
            None => bulk_header(line@) is None,
        },
{
    parse_header(line, '$')
}

/// Tells whether `content` is the bulk string that `header` announces.
pub fn parse_bulk_string(header: &[char], content: &[char]) -> (ok: bool)
    ensures
        ok == (bulk_header(header@) == Some(utf8_len(content@))),
{
    match parse_integer_line(header) {
        Some(len) => len as u128 == utf8_len_of(content),
        None => false,
    }
}

/// A request frame whose elements are known to be bulk strings.
pub struct Frame<'a> {
    lines: Lines<'a>,
    count: usize,
}

impl<'a> Frame<'a> {
    #[verifier::type_invariant]
    spec fn wf(&self) -> bool {
        &&& self.count >= 1
        &&& self.lines@.len() == 2 * self.count + 1
    }

    /// The texts of the elements, the verb first.
    pub closed spec fn view(&self) -> Seq<Seq<char>> {
        frame_elements(self.lines@, self.count as nat)
    }

    /// The number of elements, which is at least one.
    pub fn len(&self) -> (n: usize)
        ensures
            n == self@.len(),
            n >= 1,
    {
        proof {
            use_type_invariant(self);
        }
        self.count
    }

    /// The characters of element `i`.
    pub fn element(&self, i: usize) -> (chars: &[char])
        requires
            i < self@.len(),
        ensures
            chars@ == self@[i as int],
    {
        proof {
            use_type_invariant(self);
        }
        let lines: usize = self.lines.len();
        assert(2 * i + 2 < lines);
        self.lines.line(2 * i + 2)
    }

    /// Element `i` as a string of its own.
    pub fn text(&self, i: usize) -> (s: String)
        requires
            i < self@.len(),
        ensures
            s@ == self@[i as int],
    {
        proof {
            use_type_invariant(self);
        }
        let lines: usize = self.lines.len();
        assert(2 * i + 2 < lines);
        self.lines.text(2 * i + 2)
    }
}

/// Splits `input` into lines and reads them as a request frame.
pub fn parse_bulk_string_array<'a>(input: &'a str) -> (r: Result<Frame<'a>, ProtocolError>)
    ensures
        match r {
            Ok(frame) => decode_frame(split_lines(input@)) == Ok::<
                Seq<Seq<char>>,
                ProtocolErrorView,
            >(frame@),
            Err(error) => decode_frame(split_lines(input@)) == Err::<
                Seq<Seq<char>>,
                ProtocolErrorView,
            >(error@),
        },
{
    let lines = Lines::new(input);
    let total: usize = lines.len();
    if total == 0 {
        return Err(ProtocolError::Malformed(String::new()));
    }
    let announced: u64 = match parse_header(lines.line(0), '*') {
        Some(n) => n,
        None => {
            return Err(ProtocolError::Malformed(lines.text(0)));
        },
    };
    if announced < 1 {
        return Err(ProtocolError::Malformed(lines.text(0)));
    }
    if total as u128 != 2 * (announced as u128) + 1 {
        return Err(ProtocolError::WrongArity);
    }
    let count: usize = (total - 1) / 2;
    let mut k: usize = 0;
    while k < count
        invariant
            lines@ == split_lines(input@),
            array_header(lines@[0]) == Some(count as nat),
            total == lines@.len(),
            total == 2 * count + 1,
            k <= count,
            forall|j: int| 0 <= j < k ==> element_ok(lines@, j),
        decreases count - k,
    {
        if !parse_bulk_string(lines.line(2 * k + 1), lines.line(2 * k + 2)) {
            proof {
                assert(is_first_bad(lines@, count as nat, k as int));
                let chosen = choose|c: int| is_first_bad(lines@, count as nat, c);
                assert(chosen == k);
            }
            return Err(ProtocolError::Malformed(lines.text(2 * k + 1)));
        }
        k += 1;
    }
    Ok(Frame { lines, count })
}

/// Tells whether `word` is `keyword`, ASCII case ignored.
fn is_word(word: &[char], keyword: &str) -> (r: bool)
    ensures
        r == same_word(word@, keyword@),
{
    let letters = chars_of(keyword);
    eq_ignore_case(word, letters.as_slice())
}

/// `ECHO <text>`.
pub fn parse_echo_command(frame: &Frame) -> (r: Result<RedisCommand, ProtocolError>)
    ensures
        decoded(r) == decode_one(frame@.drop_first(), |text: Seq<char>| CommandView::Echo(text)),
{
    if frame.len() >= 2 {
        Ok(RedisCommand::Echo(frame.text(1)))
    } else {
        Err(ProtocolError::WrongArity)
    }
}

/// `GET <key>`.
pub fn parse_get_command(frame: &Frame) -> (r: Result<RedisCommand, ProtocolError>)
    ensures
        decoded(r) == decode_one(frame@.drop_first(), |key: Seq<char>| CommandView::Get(key)),
{
    if frame.len() >= 2 {
        Ok(RedisCommand::Get(frame.text(1)))
    } else {
        Err(ProtocolError::WrongArity)
    }
}

/// `INFO <section>`.
pub fn parse_info_command(frame: &Frame) -> (r: Result<RedisCommand, ProtocolError>)
    ensures
        decoded(r) == decode_one(
            frame@.drop_first(),
            |section: Seq<char>| CommandView::Info(section),
        ),
{
    if frame.len() >= 2 {
        Ok(RedisCommand::Info(frame.text(1)))
    } else {
        Err(ProtocolError::WrongArity)
    }
}

/// The pair of arguments that stands at elements `at` and `at + 1`, if the
/// frame is long enough to hold one there.
pub fn parse_argument(frame: &Frame, at: usize) -> (r: Option<(String, String)>)
    ensures
        match r {
            Some((name, value)) => at + 1 < frame@.len() && name@ == frame@[at as int] && value@
                == frame@[at + 1],
            None => at + 1 >= frame@.len(),
        },
{
    let elements: usize = frame.len();
    if at < elements && at + 1 < elements {
        Some((frame.text(at), frame.text(at + 1)))
    } else {
        None
    }
}

/// `REPLCONF <name> <value>`.
pub fn parse_replconf_command(frame: &Frame) -> (r: Result<RedisCommand, ProtocolError>)
    ensures
        decoded(r) == decode_pair(
            frame@.drop_first(),
            |name: Seq<char>, value: Seq<char>| CommandView::ReplConf(name, value),
        ),
{
    let elements: usize = frame.len();
    match parse_argument(frame, 1) {
        Some((name, value)) => Ok(RedisCommand::ReplConf(name, value)),
        None => Err(ProtocolError::WrongArity),
    }
}

/// `PSYNC <name> <value>`.
pub fn parse_psync_command(frame: &Frame) -> (r: Result<RedisCommand, ProtocolError>)
    ensures
        decoded(r) == decode_pair(
            frame@.drop_first(),
            |name: Seq<char>, value: Seq<char>| CommandView::PSync(name, value),
        ),
{
    let elements: usize = frame.len();
    match parse_argument(frame, 1) {
        Some((name, value)) => Ok(RedisCommand::PSync(name, value)),
        None => Err(ProtocolError::WrongArity),
    }
}

/// `SET <key> <value>`, with `px <milliseconds>` behind it or without.
pub fn parse_set_command(frame: &Frame) -> (r: Result<RedisCommand, ProtocolError>)
    ensures
        decoded(r) == decode_set(frame@.drop_first()),
{
    if frame.len() < 3 {
        return Err(ProtocolError::WrongArity);
    }
    let key = frame.text(1);
    let value = frame.text(2);
    match parse_argument(frame, 3) {
        Some((name, millis)) => if is_word(frame.element(3), "px") {
            match parse_u64(frame.element(4)) {
                Some(ttl) => Ok(RedisCommand::SetKey(key, value, Some(ttl))),
                None => Err(ProtocolError::Malformed(millis)),
            }
        } else {
            Err(ProtocolError::Malformed(name))
        },
        None => Ok(RedisCommand::SetKey(key, value, None)),
    }
}

/// Reads the elements of `frame` as a command.
pub fn parse_command(frame: &Frame) -> (r: Result<RedisCommand, ProtocolError>)
    ensures
        decoded(r) == decode_command(frame@),
{
    let elements: usize = frame.len();
    let verb = frame.element(0);
    if is_word(verb, "ping") {
        Ok(RedisCommand::Ping)
    } else if is_word(verb, "echo") {
        parse_echo_command(frame)
    } else if is_word(verb, "get") {
        parse_get_command(frame)
    } else if is_word(verb, "set") {
        parse_set_command(frame)
    } else if is_word(verb, "info") {
        parse_info_command(frame)
    } else if is_word(verb, "replconf") {
        parse_replconf_command(frame)
    } else if is_word(verb, "psync") {
        parse_psync_command(frame)
    } else {
        Err(ProtocolError::UnknownCommand(frame.text(0)))
    }
}

/// Decodes one request.
pub fn parse_input(input: &str) -> (r: Result<RedisCommand, ProtocolError>)
    ensures
        decoded(r) == decode(input@),
{
    match parse_bulk_string_array(input) {
        Ok(frame) => parse_command(&frame),
        Err(error) => Err(error),
    }
}

} // verus!
