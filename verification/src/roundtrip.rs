//! Decoding undoes encoding: the frame that the request encoder writes for
//! a verb and its arguments is read back as that verb with those arguments.

use crate::decimal::{decimal, is_digit, lemma_decimal_digits, lemma_parse_decimal};
use crate::format::{array_items, bulk_string_line, crlf, request};
use crate::parser::{
    array_header, decode, decode_command, decode_frame, element_ok, frame_elements,
    header_number, is_first_bad, ProtocolErrorView,
};
use crate::text::{lemma_split_lines_append, single_line, split_lines, utf8_len};
use vstd::prelude::*;

verus! {

/// The header line of an array of `n` elements.
pub open spec fn array_header_line(n: nat) -> Seq<char> {
    seq!['*'] + decimal(n)
}

/// The header line of the bulk string `text`.
pub open spec fn bulk_header_line(text: Seq<char>) -> Seq<char> {
    seq!['$'] + decimal(utf8_len(text))
}

/// The lines of a frame of `elements`, of which the first `k` are written
/// out: the array header, then header and content of each element.
pub open spec fn frame_lines(elements: Seq<Seq<char>>, k: nat) -> Seq<Seq<char>> {
    Seq::new(
        2 * k + 1,
        |i: int|
            if i == 0 {
                array_header_line(elements.len())
            } else if i % 2 == 1 {
                bulk_header_line(elements[(i - 1) / 2])
            } else {
                elements[(i - 2) / 2]
            },
    )
}

/// The text of a frame of `elements`, of which the first `k` are written
/// out, each line terminated.
pub open spec fn frame_text(elements: Seq<Seq<char>>, k: nat) -> Seq<char> {
    array_header_line(elements.len()) + array_items(elements.take(k as int)) + crlf()
}

/// A header line holds no line feed, and is read back as the number that it
/// was written for.
proof fn lemma_header_line(sigil: char, n: nat)
    requires
        sigil != '\n',
        n <= u64::MAX,
    ensures
        single_line(seq![sigil] + decimal(n)),
        header_number(seq![sigil] + decimal(n), sigil) == Some(n),
{
    lemma_decimal_digits(n);
    lemma_parse_decimal(n, u64::MAX as nat);
    let line = seq![sigil] + decimal(n);
    assert(line.drop_first() =~= decimal(n));
    assert forall|i: int| 0 <= i < line.len() implies line[i] != '\n' by {
        if i > 0 {
            assert(line[i] == decimal(n)[i - 1]);
            assert(is_digit(decimal(n)[i - 1]));
        }
    }
}

/// The text of a frame falls into the lines of the frame.
proof fn lemma_frame_lines(elements: Seq<Seq<char>>, k: nat)
    requires
        k <= elements.len(),
        elements.len() <= u64::MAX,
        forall|i: int| 0 <= i < elements.len() ==> single_line(#[trigger] elements[i]),
        forall|i: int| 0 <= i < elements.len() ==> utf8_len(#[trigger] elements[i]) <= u64::MAX,
    ensures
        split_lines(frame_text(elements, k)) == frame_lines(elements, k),
    decreases k,
{
    let header = array_header_line(elements.len());
    lemma_header_line('*', elements.len());
    if k == 0 {
        assert(elements.take(0) =~= Seq::<Seq<char>>::empty());
        assert(frame_text(elements, 0) =~= Seq::<char>::empty() + header + seq!['\r', '\n']);
        lemma_split_lines_append(Seq::<char>::empty(), header);
        assert(split_lines(Seq::<char>::empty()) =~= Seq::<Seq<char>>::empty());
        assert(split_lines(Seq::<char>::empty()).push(header) =~= frame_lines(elements, 0));
    } else {
        let before = (k - 1) as nat;
        let element = elements[before as int];
        let size = bulk_header_line(element);
        lemma_frame_lines(elements, before);
        lemma_header_line('$', utf8_len(element));
        let text = frame_text(elements, before);
        let written = elements.take(k as int);
        assert(written.drop_last() =~= elements.take(before as int));
        assert(written.last() == element);
        assert(array_items(written) == array_items(elements.take(before as int)) + crlf()
            + bulk_string_line(element));
        assert(text.last() == '\n');
        lemma_split_lines_append(text, size);
        let partly = text + size + seq!['\r', '\n'];
        assert(partly.last() == '\n');
        lemma_split_lines_append(partly, element);
        assert(frame_text(elements, k) =~= partly + element + seq!['\r', '\n']);
        assert(frame_lines(elements, before).push(size).push(element) =~= frame_lines(
            elements,
            k,
        ));
    }
}

/// The request that is written for `verb` and `args` is read back as the
/// command that `verb` and `args` stand for, as long as no line feed stands
/// in any of them: a line feed would end the line that carries the text.
pub proof fn lemma_decode_request(verb: Seq<char>, args: Seq<Seq<char>>)
    requires
        single_line(verb),
        forall|i: int| 0 <= i < args.len() ==> single_line(#[trigger] args[i]),
        utf8_len(verb) <= u64::MAX,
        forall|i: int| 0 <= i < args.len() ==> utf8_len(#[trigger] args[i]) <= u64::MAX,
        args.len() < u64::MAX,
    ensures
        decode_frame(split_lines(request(verb, args))) == Ok::<Seq<Seq<char>>, ProtocolErrorView>(
            seq![verb] + args,
        ),
        decode(request(verb, args)) == decode_command(seq![verb] + args),
{
    let elements = seq![verb] + args;
    let n = elements.len();
    assert forall|i: int| 0 <= i < n implies single_line(#[trigger] elements[i]) && utf8_len(
        elements[i],
    ) <= u64::MAX by {
        if i > 0 {
            assert(elements[i] == args[i - 1]);
        }
    }
    lemma_frame_lines(elements, n);
    assert(elements.take(n as int) =~= elements);
    assert(request(verb, args) =~= frame_text(elements, n));
    let lines = frame_lines(elements, n);
    lemma_header_line('*', n);
    assert(array_header(lines[0]) == Some(n));
    assert forall|k: int| 0 <= k < n implies element_ok(lines, k) by {
        lemma_header_line('$', utf8_len(elements[k]));
        assert(lines[2 * k + 1] == bulk_header_line(elements[k]));
        assert(lines[2 * k + 2] == elements[k]);
    }
    assert(!exists|k: int| is_first_bad(lines, n, k));
    assert(frame_elements(lines, n) =~= elements);
}

} // verus!
