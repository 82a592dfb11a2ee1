//! Replies: what the server answers, and the bytes that carry it.

use crate::decimal::{decimal, lemma_parse_decimal, parse_unsigned, push_decimal};
use crate::format::{
    bulk_string_line, crlf, error_simple_string, format_bulk_string_line,
    format_error_simple_string, format_success_simple_string, push_crlf, success_simple_string,
};
use vstd::prelude::*;
use vstd::utf8::*;

verus! {

/// An answer to one request.
#[derive(Debug, Clone, PartialEq, Eq)]
pub enum Reply {
    /// A line of text that reports success: `+<text>`.
    SimpleOk(String),
    /// A line of text that reports a failure: `-<text>`.
    Error(String),
    /// A text with its length in front, or the null of the protocol.
    BulkString(Option<String>),
    /// Bytes with their length in front and no terminator behind.
    InlineBytes(Vec<u8>),
}

/// What a `Reply` holds.
pub enum ReplyView {
    SimpleOk(Seq<char>),
    Error(Seq<char>),
    BulkString(Option<Seq<char>>),
    InlineBytes(Seq<u8>),
}

impl View for Reply {
    type V = ReplyView;

    open spec fn view(&self) -> ReplyView {
        match self {
            Reply::SimpleOk(text) => ReplyView::SimpleOk(text@),
            Reply::Error(text) => ReplyView::Error(text@),
            Reply::BulkString(Some(text)) => ReplyView::BulkString(Some(text@)),
            Reply::BulkString(None) => ReplyView::BulkString(None),
            Reply::InlineBytes(bytes) => ReplyView::InlineBytes(bytes@),
        }
    }
}

/// The views of a list of replies.
pub open spec fn reply_views(replies: Seq<Reply>) -> Seq<ReplyView> {
    Seq::new(replies.len(), |i: int| replies[i]@)
}

/// The null bulk string, `$-1`.
pub open spec fn null_bulk_string() -> Seq<char> {
    seq!['$', '-', '1']
}

/// The text that opens the frame of `reply`, terminator included.
pub open spec fn reply_text(reply: ReplyView) -> Seq<char> {
    match reply {
        ReplyView::SimpleOk(text) => success_simple_string(text) + crlf(),
        ReplyView::Error(text) => error_simple_string(text) + crlf(),
        ReplyView::BulkString(Some(text)) => bulk_string_line(text) + crlf(),
        ReplyView::BulkString(None) => null_bulk_string() + crlf(),
        ReplyView::InlineBytes(bytes) => seq!['$'] + decimal(bytes.len()) + crlf(),
    }
}

/// The bytes that follow the text of the frame of `reply`, as they are.
pub open spec fn reply_payload(reply: ReplyView) -> Seq<u8> {
    match reply {
        ReplyView::InlineBytes(bytes) => bytes,
        _ => Seq::empty(),
    }
}

/// The bytes of the frame of `reply`: its text in UTF-8, then its payload.
pub open spec fn encode_reply(reply: ReplyView) -> Seq<u8> {
    encode_utf8(reply_text(reply)) + reply_payload(reply)
}

/// The frames of `replies`, one behind the other.
pub open spec fn encode_replies(replies: Seq<ReplyView>) -> Seq<u8>
    decreases replies.len(),
{
    if replies.len() == 0 {
        Seq::empty()
    } else {
        encode_replies(replies.drop_last()) + encode_reply(replies.last())
    }
}

/// One reply is framed as itself.
pub proof fn lemma_encode_one(reply: ReplyView)
    ensures
        encode_replies(seq![reply]) == encode_reply(reply),
{
    let one = seq![reply];
    assert(one.drop_last() =~= Seq::<ReplyView>::empty());
    assert(encode_replies(one.drop_last()) =~= Seq::<u8>::empty());
    assert(encode_replies(one) =~= encode_reply(reply));
}

/// Two replies are framed one directly behind the other.
pub proof fn lemma_encode_two(first: ReplyView, second: ReplyView)
    ensures
        encode_replies(seq![first, second]) == encode_reply(first) + encode_reply(second),
{
    let two = seq![first, second];
    assert(two.drop_last() =~= seq![first]);
    lemma_encode_one(first);
}

/// The frame of a block of bytes is its header, `$<len>` and a terminator,
/// and then the bytes themselves, unchanged and unterminated; the length
/// that the header announces, read back, is the number of the bytes.
pub proof fn lemma_inline_bytes_frame(bytes: Seq<u8>)
    ensures
        encode_reply(ReplyView::InlineBytes(bytes)) == encode_utf8(
            seq!['$'] + decimal(bytes.len()) + crlf(),
        ) + bytes,
        parse_unsigned(decimal(bytes.len()), bytes.len()) == Some(bytes.len()),
{
    lemma_parse_decimal(bytes.len(), bytes.len());
}

impl Reply {
    /// The text that opens the frame, terminator included.
    fn text(&self) -> (out: String)
        ensures
            out@ == reply_text(self@),
    {
        let mut out = match self {
            Reply::SimpleOk(text) => format_success_simple_string(text.as_str()),
            Reply::Error(text) => format_error_simple_string(text.as_str()),
            Reply::BulkString(Some(text)) => format_bulk_string_line(text.as_str()),
            Reply::BulkString(None) => {
                proof {
                    reveal_strlit("$-1");
                }
                let null = String::from_str("$-1");
                assert(null@ =~= null_bulk_string());
                null
            },
            Reply::InlineBytes(bytes) => {
                proof {
                    reveal_strlit("$");
                }
                let mut header = String::from_str("$");
                push_decimal(&mut header, bytes.len() as u128);
                assert(header@ =~= seq!['$'] + decimal(bytes@.len()));
                header
            },
        };
        push_crlf(&mut out);
        out
    }

    /// The bytes of the frame.
    pub fn encode(&self) -> (out: Vec<u8>)
        ensures
            out@ == encode_reply(self@),
    {
        let text = self.text();
        let mut out: Vec<u8> = text.as_str().as_bytes_vec();
        match self {
            Reply::InlineBytes(bytes) => {
                let mut payload: Vec<u8> = vstd::slice::slice_to_vec(bytes.as_slice());
                out.append(&mut payload);
            },
            _ => {
                assert(out@ + Seq::<u8>::empty() =~= out@);
            },
        }
        out
    }
}

/// The frames of `replies`, one behind the other.
pub fn encode_all(replies: &Vec<Reply>) -> (out: Vec<u8>)
    ensures
        out@ == encode_replies(reply_views(replies@)),
{
    let mut out: Vec<u8> = Vec::new();
    let mut i: usize = 0;
    while i < replies.len()
        invariant
            i <= replies.len(),
            out@ == encode_replies(reply_views(replies@).take(i as int)),
        decreases replies.len() - i,
    {
        let mut frame = replies[i].encode();
        out.append(&mut frame);
        proof {
            let next = reply_views(replies@).take(i + 1);
            assert(next.drop_last() =~= reply_views(replies@).take(i as int));
            assert(next.last() == replies@[i as int]@);
        }
        i += 1;
    }
    proof {
        assert(reply_views(replies@).take(i as int) =~= reply_views(replies@));
    }
    out
}

} // verus!
