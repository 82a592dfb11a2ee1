//! The textual frames of the wire protocol.

use crate::decimal::{decimal, push_decimal};
use crate::text::{split_lines, utf8_len, Lines};
use vstd::prelude::*;

verus! {

/// The line terminator of the protocol.
pub open spec fn crlf() -> Seq<char> {
    seq!['\r', '\n']
}

/// A text with its length in bytes in front: `$<len>\r\n<text>`.
pub open spec fn bulk_string_line(line: Seq<char>) -> Seq<char> {
    seq!['$'] + decimal(utf8_len(line)) + crlf() + line
}

/// A simple string that reports success: `+<text>`.
pub open spec fn success_simple_string(line: Seq<char>) -> Seq<char> {
    seq!['+'] + line
}

/// A simple string that reports an error: `-<text>`.
pub open spec fn error_simple_string(line: Seq<char>) -> Seq<char> {
    seq!['-'] + line
}

/// The items of an array, each one behind a line terminator.
pub open spec fn array_items(items: Seq<Seq<char>>) -> Seq<char>
    decreases items.len(),
{
    if items.len() == 0 {
        seq![]
    } else {
        array_items(items.drop_last()) + crlf() + bulk_string_line(items.last())
    }
}

/// An array of bulk strings: `*<count>`, then `\r\n$<len>\r\n<text>` for
/// each item. The last item is not terminated.
pub open spec fn resp_array(items: Seq<Seq<char>>) -> Seq<char> {
    seq!['*'] + decimal(items.len()) + array_items(items)
}

/// A request frame: the array of the verb and its arguments, terminated.
pub open spec fn request(verb: Seq<char>, args: Seq<Seq<char>>) -> Seq<char> {
    resp_array(seq![verb] + args) + crlf()
}

/// The number of bytes of `line` in UTF-8.
pub fn byte_len(line: &str) -> (n: usize)
    ensures
        n == utf8_len(line@),
{
    line.as_bytes().len()
}

/// Appends the line terminator to `out`.
pub fn push_crlf(out: &mut String)
    ensures
        final(out)@ == old(out)@ + crlf(),
{
    proof {
        reveal_strlit("\r\n");
    }
    out.append("\r\n");
    assert(out@ =~= old(out)@ + crlf());
}

/// Appends `$<len>\r\n<line>` to `out`.
fn push_bulk_string_line(out: &mut String, line: &str)
    ensures
        final(out)@ == old(out)@ + bulk_string_line(line@),
{
    proof {
        reveal_strlit("$");
    }
    out.append("$");
    push_decimal(out, byte_len(line) as u128);
    push_crlf(out);
    out.append(line);
    assert(out@ =~= old(out)@ + bulk_string_line(line@));
}

/// Frames `line` as a bulk string, without the terminator that follows it.
pub fn format_bulk_string_line(line: &str) -> (out: String)
    ensures
        out@ == bulk_string_line(line@),
{
    let mut out = String::new();
    push_bulk_string_line(&mut out, line);
    assert(out@ =~= bulk_string_line(line@));
    out
}

/// Frames `line` as a simple string that reports success.
pub fn format_success_simple_string(line: &str) -> (out: String)
    ensures
        out@ == success_simple_string(line@),
{
    proof {
        reveal_strlit("+");
    }
    let mut out = String::from_str("+");
    out.append(line);
    assert(out@ =~= success_simple_string(line@));
    out
}

/// Frames `line` as a simple string that reports an error.
pub fn format_error_simple_string(line: &str) -> (out: String)
    ensures
        out@ == error_simple_string(line@),
{
    proof {
        reveal_strlit("-");
    }
    let mut out = String::from_str("-");
    out.append(line);
    assert(out@ =~= error_simple_string(line@));
    out
}

/// Frames the lines of `value` as an array of bulk strings.
pub fn format_resp_array(value: &str) -> (out: String)
    ensures
        out@ == resp_array(split_lines(value@)),
{
    proof {
        reveal_strlit("*");
    }
    let lines = Lines::new(value);
    let count: usize = lines.len();
    let mut out = String::from_str("*");
    push_decimal(&mut out, count as u128);
    let mut i: usize = 0;
    while i < count
        invariant
            count == lines@.len(),
            i <= count,
            out@ == seq!['*'] + decimal(count as nat) + array_items(lines@.take(i as int)),
        decreases count - i,
    {
        push_crlf(&mut out);
        push_bulk_string_line(&mut out, lines.slice(i));
        proof {
            let next = lines@.take(i + 1);
            assert(next.drop_last() =~= lines@.take(i as int));
            assert(array_items(next) == array_items(lines@.take(i as int)) + crlf()
                + bulk_string_line(lines@[i as int]));
            assert(out@ =~= seq!['*'] + decimal(count as nat) + array_items(next));
        }
        i += 1;
    }
    proof {
        assert(lines@.take(i as int) =~= lines@);
    }
    out
}

/// Frames a request: `verb` and `args` as an array of bulk strings, each
/// of them terminated.
pub fn encode_request(verb: &str, args: &Vec<String>) -> (out: String)
    ensures
        out@ == request(verb@, args.deep_view()),
{
    proof {
        reveal_strlit("*");
    }
    let ghost items = seq![verb@] + args.deep_view();
    let count: u128 = args.len() as u128 + 1;
    let mut out = String::from_str("*");
    push_decimal(&mut out, count);
    push_crlf(&mut out);
    push_bulk_string_line(&mut out, verb);
    proof {
        let first = items.take(1);
        assert(first.drop_last() =~= Seq::<Seq<char>>::empty());
        assert(array_items(first.drop_last()) =~= Seq::<char>::empty());
        assert(array_items(first) =~= crlf() + bulk_string_line(verb@));
        assert(out@ =~= seq!['*'] + decimal(count as nat) + array_items(first));
    }
    let mut i: usize = 0;
    while i < args.len()
        invariant
            count == args.len() + 1,
            items == seq![verb@] + args.deep_view(),
            i <= args.len(),
            out@ == seq!['*'] + decimal(count as nat) + array_items(items.take(i + 1)),
        decreases args.len() - i,
    {
        push_crlf(&mut out);
        push_bulk_string_line(&mut out, args[i].as_str());
        proof {
            let next = items.take(i + 2);
            assert(next.drop_last() =~= items.take(i + 1));
            assert(next.last() == args[i as int]@);
            assert(array_items(next) == array_items(items.take(i + 1)) + crlf()
                + bulk_string_line(args[i as int]@));
            assert(out@ =~= seq!['*'] + decimal(count as nat) + array_items(next));
        }
        i += 1;
    }
    push_crlf(&mut out);
    proof {
        assert(items.take(i + 1) =~= items);
        assert(out@ =~= request(verb@, args.deep_view()));
    }
    out
}

} // verus!
