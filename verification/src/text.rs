//! Text as sequences of characters: ASCII case folding, UTF-8 lengths, and
//! the splitting of a buffer into lines.

use vstd::prelude::*;
use vstd::utf8::*;

verus! {

/// The ASCII lower-case form of `c`; characters outside `A..=Z` are unchanged.
pub open spec fn lower(c: char) -> char {
    if 'A' <= c <= 'Z' {
        ((c as u8) + 32) as char
    } else {
        c
    }
}

/// `s` with every ASCII upper-case letter replaced by its lower-case form.
pub open spec fn lowercase(s: Seq<char>) -> Seq<char> {
    Seq::new(s.len(), |i: int| lower(s[i]))
}

/// `a` and `b` are the same word when ASCII case is ignored.
pub open spec fn same_word(a: Seq<char>, b: Seq<char>) -> bool {
    lowercase(a) == lowercase(b)
}

/// `needle` stands in `haystack` at index `i`, ASCII case ignored.
pub open spec fn occurs_at(haystack: Seq<char>, needle: Seq<char>, i: int) -> bool {
    0 <= i <= haystack.len() - needle.len() && same_word(
        haystack.subrange(i, i + needle.len()),
        needle,
    )
}

/// `needle` occurs in `haystack` as a contiguous run, ASCII case ignored.
pub open spec fn contains_word(haystack: Seq<char>, needle: Seq<char>) -> bool {
    exists|i: int| occurs_at(haystack, needle, i)
}

/// The number of bytes that `s` occupies in UTF-8.
pub open spec fn utf8_len(s: Seq<char>) -> nat {
    encode_utf8(s).len()
}

/// The number of bytes that `c` occupies in UTF-8.
pub open spec fn utf8_width(c: char) -> nat {
    if c as u32 <= 0x7F {
        1
    } else if c as u32 <= 0x7FF {
        2
    } else if c as u32 <= 0xFFFF {
        3
    } else {
        4
    }
}

/// Where the first line of `s` ends: the index of its first line feed, or
/// the length of `s` when it holds none.
pub open spec fn line_end(s: Seq<char>) -> int
    decreases s.len(),
{
    if s.len() == 0 || s[0] == '\n' {
        0
    } else {
        1 + line_end(s.drop_first())
    }
}

/// `line` without one trailing carriage return.
pub open spec fn strip_cr(line: Seq<char>) -> Seq<char> {
    if line.len() > 0 && line.last() == '\r' {
        line.drop_last()
    } else {
        line
    }
}

/// The lines of `s`. A line ends at a line feed; a carriage return directly
/// before that line feed belongs to the terminator. The last line needs no
/// terminator, and without one it is kept as it is. An empty buffer has no
/// lines.
pub open spec fn split_lines(s: Seq<char>) -> Seq<Seq<char>>
    decreases s.len(),
{
    let end = line_end(s);
    if s.len() == 0 {
        seq![]
    } else if 0 <= end < s.len() {
        seq![strip_cr(s.take(end))] + split_lines(s.skip(end + 1))
    } else {
        seq![s]
    }
}

/// `s` holds no line feed.
pub open spec fn single_line(s: Seq<char>) -> bool {
    forall|i: int| 0 <= i < s.len() ==> s[i] != '\n'
}

/// `line_end` lies within the sequence; no line feed stands before it, and
/// one stands at it unless the sequence ends there.
pub proof fn lemma_line_end_first(s: Seq<char>)
    ensures
        0 <= line_end(s) <= s.len(),
        forall|j: int| 0 <= j < line_end(s) ==> s[j] != '\n',
        line_end(s) < s.len() ==> s[line_end(s)] == '\n',
    decreases s.len(),
{
    if s.len() != 0 && s[0] != '\n' {
        let t = s.drop_first();
        lemma_line_end_first(t);
        assert forall|j: int| 0 <= j < line_end(s) implies s[j] != '\n' by {
            if j > 0 {
                assert(s[j] == t[j - 1]);
            }
        }
    }
}

/// `line_end` is the one index before which no line feed stands and at which
/// one does, unless the sequence ends there.
pub proof fn lemma_line_end_is(s: Seq<char>, k: int)
    requires
        0 <= k <= s.len(),
        forall|j: int| 0 <= j < k ==> s[j] != '\n',
        k < s.len() ==> s[k] == '\n',
    ensures
        line_end(s) == k,
    decreases s.len(),
{
    if s.len() != 0 && s[0] != '\n' {
        let t = s.drop_first();
        assert forall|j: int| 0 <= j < k - 1 implies t[j] != '\n' by {
            assert(t[j] == s[j + 1]);
        }
        lemma_line_end_is(t, k - 1);
    }
}

/// A line with its terminator, appended to a text that is empty or ends
/// with a line feed, adds that line to the lines of the text.
pub proof fn lemma_split_lines_append(s: Seq<char>, line: Seq<char>)
    requires
        s.len() == 0 || s.last() == '\n',
        single_line(line),
    ensures
        split_lines(s + line + seq!['\r', '\n']) == split_lines(s).push(line),
    decreases s.len(),
{
    let tail = line + seq!['\r', '\n'];
    let whole = s + line + seq!['\r', '\n'];
    assert(whole =~= s + tail);
    if s.len() == 0 {
        assert(whole =~= tail);
        let end = line.len() as int + 1;
        lemma_line_end_is(tail, end);
        assert(tail.take(end) =~= line.push('\r'));
        assert(strip_cr(line.push('\r')) =~= line);
        assert(tail.skip(end + 1) =~= Seq::<char>::empty());
        assert(split_lines(tail.skip(end + 1)) =~= Seq::<Seq<char>>::empty());
        assert(split_lines(tail) =~= seq![line]);
        assert(split_lines(s).push(line) =~= seq![line]);
    } else {
        lemma_line_end_first(s);
        let end = line_end(s);
        assert(end < s.len()) by {
            if end == s.len() {
                assert(s[s.len() - 1] != '\n');
            }
        }
        lemma_line_end_is(whole, end);
        assert(whole.take(end) =~= s.take(end));
        let rest = s.skip(end + 1);
        assert(whole.skip(end + 1) =~= rest + line + seq!['\r', '\n']);
        assert(rest.len() == 0 || rest.last() == '\n') by {
            if rest.len() > 0 {
                assert(rest.last() == s.last());
            }
        }
        lemma_split_lines_append(rest, line);
        let head = seq![strip_cr(s.take(end))];
        assert(head + split_lines(rest).push(line) =~= (head + split_lines(rest)).push(line));
    }
}

/// The UTF-8 encoding of a concatenation is the concatenation of the
/// encodings.
pub proof fn lemma_encode_utf8_concat(a: Seq<char>, b: Seq<char>)
    ensures
        encode_utf8(a + b) == encode_utf8(a) + encode_utf8(b),
    decreases a.len(),
{
    if a.len() == 0 {
        assert(a + b =~= b);
        assert(encode_utf8(a) + encode_utf8(b) =~= encode_utf8(b));
    } else {
        assert((a + b).drop_first() =~= a.drop_first() + b);
        lemma_encode_utf8_concat(a.drop_first(), b);
        assert(encode_utf8(a + b) =~= encode_utf8(a) + encode_utf8(b));
    }
}

/// The UTF-8 length of a concatenation is the sum of the lengths.
pub proof fn lemma_utf8_len_concat(a: Seq<char>, b: Seq<char>)
    ensures
        utf8_len(a + b) == utf8_len(a) + utf8_len(b),
{
    lemma_encode_utf8_concat(a, b);
}

/// The UTF-8 length of a single character is its width, and its encoding
/// is that of the character alone.
pub proof fn lemma_utf8_len_single(c: char)
    ensures
        utf8_len(seq![c]) == utf8_width(c),
        encode_utf8(seq![c]) == encode_scalar(c as u32),
{
    let s = seq![c];
    assert(s.drop_first() =~= Seq::<char>::empty());
    assert(encode_utf8(s.drop_first()) =~= Seq::<u8>::empty());
    assert(encode_utf8(s) =~= encode_scalar(c as u32));
}

/// The first `k` characters of `s` are encoded by the first bytes of the
/// encoding of `s`, the others by the rest, and the two parts meet on a
/// character boundary.
pub proof fn lemma_utf8_prefix(s: Seq<char>, k: int)
    requires
        0 <= k <= s.len(),
    ensures
        utf8_len(s.take(k)) + utf8_len(s.skip(k)) == utf8_len(s),
        encode_utf8(s).subrange(0, utf8_len(s.take(k)) as int) == encode_utf8(s.take(k)),
        encode_utf8(s).subrange(utf8_len(s.take(k)) as int, utf8_len(s) as int) == encode_utf8(
            s.skip(k),
        ),
        is_char_boundary(encode_utf8(s), utf8_len(s.take(k)) as int),
    decreases k,
{
    let head = s.take(k);
    let tail = s.skip(k);
    assert(head + tail =~= s);
    lemma_encode_utf8_concat(head, tail);
    let bytes = encode_utf8(s);
    let at = utf8_len(head) as int;
    assert(bytes.subrange(0, at) =~= encode_utf8(head));
    assert(bytes.subrange(at, utf8_len(s) as int) =~= encode_utf8(tail));
    encode_utf8_valid_utf8(s);
    if k > 0 {
        let rest = s.drop_first();
        encode_utf8_first_scalar(s);
        assert(pop_first_scalar(bytes) =~= encode_utf8(rest));
        assert(head =~= seq![s[0]] + rest.take(k - 1));
        lemma_encode_utf8_concat(seq![s[0]], rest.take(k - 1));
        lemma_utf8_len_single(s[0]);
        lemma_utf8_prefix(rest, k - 1);
        assert(at == length_of_first_scalar(bytes) + utf8_len(rest.take(k - 1)));
    } else {
        assert(head =~= Seq::<char>::empty());
    }
}

/// The characters of `text`.
pub fn chars_of(text: &str) -> (out: Vec<char>)
    ensures
        out@ == text@,
{
    let mut out: Vec<char> = Vec::new();
    for c in it: text.chars()
        invariant
            out@ == it.seq().take(it.index() as int),
            it.seq() == text@,
    {
        out.push(c);
    }
    out
}

/// Splits `text` behind its first `k` characters, which take `at` bytes.
fn split_chars<'a>(text: &'a str, Ghost(k): Ghost<int>, at: usize) -> (parts: (&'a str, &'a str))
    requires
        0 <= k <= text@.len(),
        at == utf8_len(text@.take(k)),
    ensures
        parts.0@ == text@.take(k),
        parts.1@ == text@.skip(k),
{
    proof {
        lemma_utf8_prefix(text@, k);
    }
    let parts = text.split_at(at);
    proof {
        encode_utf8_decode_utf8(parts.0@);
        encode_utf8_decode_utf8(parts.1@);
        encode_utf8_decode_utf8(text@.take(k));
        encode_utf8_decode_utf8(text@.skip(k));
    }
    parts
}

/// Tells whether `a` and `b` are the same text.
pub fn str_eq(a: &str, b: &str) -> (r: bool)
    ensures
        r == (a@ == b@),
{
    let x = a.as_bytes();
    let y = b.as_bytes();
    proof {
        encode_utf8_decode_utf8(a@);
        encode_utf8_decode_utf8(b@);
    }
    if x.len() != y.len() {
        return false;
    }
    let mut i: usize = 0;
    while i < x.len()
        invariant
            x@ == encode_utf8(a@),
            y@ == encode_utf8(b@),
            x@.len() == y@.len(),
            i <= x@.len(),
            forall|j: int| 0 <= j < i ==> x@[j] == y@[j],
        decreases x@.len() - i,
    {
        if x[i] != y[i] {
            return false;
        }
        i += 1;
    }
    assert(x@ =~= y@);
    true
}

/// The ASCII lower-case form of `c`.
pub fn to_lower(c: char) -> (r: char)
    ensures
        r == lower(c),
{
    if c >= 'A' && c <= 'Z' {
        let b: u8 = c as u8;
        (b + 32) as char
    } else {
        c
    }
}

/// Compares two words, ASCII case ignored.
pub fn eq_ignore_case(a: &[char], b: &[char]) -> (r: bool)
    ensures
        r == same_word(a@, b@),
{
    if a.len() != b.len() {
        assert(lowercase(a@).len() != lowercase(b@).len());
        return false;
    }
    let mut i: usize = 0;
    while i < a.len()
        invariant
            a@.len() == b@.len(),
            i <= a@.len(),
            forall|j: int| 0 <= j < i ==> lower(a@[j]) == lower(b@[j]),
        decreases a@.len() - i,
    {
        if to_lower(a[i]) != to_lower(b[i]) {
            assert(lowercase(a@)[i as int] != lowercase(b@)[i as int]);
            return false;
        }
        i += 1;
    }
    assert(lowercase(a@) =~= lowercase(b@));
    true
}

/// Tells whether `needle` occurs in `haystack`, ASCII case ignored.
pub fn contains_ignore_case(haystack: &str, needle: &str) -> (r: bool)
    ensures
        r == contains_word(haystack@, needle@),
{
    let h = chars_of(haystack);
    let n = chars_of(needle);
    if n.len() > h.len() {
        return false;
    }
    let last: usize = h.len() - n.len();
    let mut i: usize = 0;
    loop
        invariant
            n@ == needle@,
            h@ == haystack@,
            last + n.len() == h.len(),
            i <= last,
            forall|j: int| 0 <= j < i ==> !occurs_at(h@, n@, j),
        decreases last - i,
    {
        let window = vstd::slice::slice_subrange(h.as_slice(), i, i + n.len());
        if eq_ignore_case(window, n.as_slice()) {
            assert(occurs_at(h@, n@, i as int));
            return true;
        }
        if i == last {
            return false;
        }
        i += 1;
    }
}

/// The number of bytes that `c` occupies in UTF-8.
pub fn utf8_width_of(c: char) -> (n: usize)
    ensures
        n == utf8_width(c),
{
    let code: u32 = c as u32;
    if code <= 0x7F {
        1
    } else if code <= 0x7FF {
        2
    } else if code <= 0xFFFF {
        3
    } else {
        4
    }
}

/// The number of bytes that `chars` occupies in UTF-8.
pub fn utf8_len_of(chars: &[char]) -> (n: u128)
    ensures
        n == utf8_len(chars@),
{
    let mut n: u128 = 0;
    let mut i: usize = 0;
    while i < chars.len()
        invariant
            i <= chars@.len(),
            n == utf8_len(chars@.take(i as int)),
            n <= 4 * i,
        decreases chars@.len() - i,
    {
        let c: char = chars[i];
        let w: u128 = utf8_width_of(c) as u128;
        proof {
            lemma_utf8_len_single(c);
            lemma_utf8_len_concat(chars@.take(i as int), seq![c]);
            assert(chars@.take(i as int) + seq![c] =~= chars@.take(i + 1));
        }
        n = n + w;
        i += 1;
    }
    proof {
        assert(chars@.take(i as int) =~= chars@);
    }
    n
}

/// A run of characters in a buffer: from the character `start` up to the
/// character `end`, which is from the byte `start_byte` of the buffer in
/// UTF-8 up to the byte `end_byte`.
struct Span {
    start: usize,
    end: usize,
    start_byte: usize,
    end_byte: usize,
}

/// The runs `spans` cut out of `chars`.
spec fn span_lines(chars: Seq<char>, spans: Seq<Span>) -> Seq<Seq<char>> {
    Seq::new(spans.len(), |i: int| chars.subrange(spans[i].start as int, spans[i].end as int))
}

/// `span` lies within `chars`, and its bytes are those of its characters.
spec fn span_fits(chars: Seq<char>, span: Span) -> bool {
    &&& span.start <= span.end <= chars.len()
    &&& span.start_byte == utf8_len(chars.take(span.start as int))
    &&& span.end_byte == utf8_len(chars.take(span.end as int))
}

/// A buffer of text together with its division into lines.
pub struct Lines<'a> {
    source: &'a str,
    chars: Vec<char>,
    spans: Vec<Span>,
}

impl<'a> Lines<'a> {
    #[verifier::type_invariant]
    spec fn wf(&self) -> bool {
        &&& self.chars@ == self.source@
        &&& forall|i: int|
            0 <= i < self.spans@.len() ==> span_fits(self.chars@, #[trigger] self.spans@[i])
    }

    /// The lines, in the order in which they stand in the buffer.
    pub closed spec fn view(&self) -> Seq<Seq<char>> {
        span_lines(self.chars@, self.spans@)
    }

    /// Splits `source` into its lines.
    pub fn new(source: &'a str) -> (lines: Lines<'a>)
        ensures
            lines@ == split_lines(source@),
    {
        let chars = chars_of(source);
        let n: usize = chars.len();
        let total: usize = source.as_bytes().len();
        let mut spans: Vec<Span> = Vec::new();
        let mut start: usize = 0;
        let mut start_byte: usize = 0;
        let mut bytes: usize = 0;
        let mut i: usize = 0;
        proof {
            assert(chars@.skip(0) =~= chars@);
            assert(span_lines(chars@, spans@) + split_lines(chars@) =~= split_lines(chars@));
            assert(chars@.take(0) =~= Seq::<char>::empty());
        }
        while i < n
            invariant
                n == chars@.len(),
                total == utf8_len(chars@),
                start <= i <= n,
                start_byte == utf8_len(chars@.take(start as int)),
                bytes == utf8_len(chars@.take(i as int)),
                forall|j: int| start <= j < i ==> chars@[j] != '\n',
                forall|k: int| 0 <= k < spans@.len() ==> span_fits(chars@, #[trigger] spans@[k]),
                split_lines(chars@) == span_lines(chars@, spans@) + split_lines(
                    chars@.skip(start as int),
                ),
            decreases n - i,
        {
            let c: char = chars[i];
            let width: usize = utf8_width_of(c);
            proof {
                lemma_utf8_len_single(c);
                lemma_utf8_len_concat(chars@.take(i as int), seq![c]);
                assert(chars@.take(i as int) + seq![c] =~= chars@.take(i + 1));
                lemma_utf8_prefix(chars@, i + 1);
            }
            if c == '\n' {
                let stripped: bool = i > start && chars[i - 1] == '\r';
                let end: usize = if stripped {
                    (i - 1) as usize
                } else {
                    i
                };
                proof {
                    if stripped {
                        lemma_utf8_len_single('\r');
                        lemma_utf8_len_concat(chars@.take(i - 1), seq!['\r']);
                        assert(chars@.take(i - 1) + seq!['\r'] =~= chars@.take(i as int));
                    }
                }
                let end_byte: usize = if stripped {
                    (bytes - 1) as usize
                } else {
                    bytes
                };
                proof {
                    let rest = chars@.skip(start as int);
                    lemma_line_end_is(rest, i - start);
                    assert(rest.take(i - start) =~= chars@.subrange(start as int, i as int));
                    assert(strip_cr(chars@.subrange(start as int, i as int)) =~= chars@.subrange(
                        start as int,
                        end as int,
                    ));
                    assert(rest.skip(i - start + 1) =~= chars@.skip(i + 1));
                    let line = chars@.subrange(start as int, end as int);
                    let done = span_lines(chars@, spans@);
                    let span = Span { start, end, start_byte, end_byte };
                    let more = span_lines(chars@, spans@.push(span));
                    assert(more =~= done.push(line));
                    assert(done.push(line) + split_lines(chars@.skip(i + 1)) =~= done + (seq![line]
                        + split_lines(chars@.skip(i + 1))));
                }
                spans.push(Span { start, end, start_byte, end_byte });
                start = i + 1;
                start_byte = bytes + width;
            }
            bytes = bytes + width;
            i += 1;
        }
        proof {
            let rest = chars@.skip(start as int);
            let done = span_lines(chars@, spans@);
            if start < n {
                lemma_line_end_is(rest, n - start);
                assert(rest =~= chars@.subrange(start as int, n as int));
                let span = Span { start, end: n, start_byte, end_byte: bytes };
                let more = span_lines(chars@, spans@.push(span));
                assert(more =~= done.push(rest));
                assert(done.push(rest) =~= done + seq![rest]);
            } else {
                assert(done + split_lines(rest) =~= done);
            }
        }
        if start < n {
            spans.push(Span { start, end: n, start_byte, end_byte: bytes });
        }
        Lines { source, chars, spans }
    }

    /// The number of lines.
    pub fn len(&self) -> (n: usize)
        ensures
            n == self@.len(),
    {
        self.spans.len()
    }

    /// The characters of line `i`.
    pub fn line(&self, i: usize) -> (chars: &[char])
        requires
            i < self@.len(),
        ensures
            chars@ == self@[i as int],
    {
        proof {
            use_type_invariant(self);
        }
        let span = &self.spans[i];
        vstd::slice::slice_subrange(self.chars.as_slice(), span.start, span.end)
    }

    /// Line `i` as a slice of the buffer.
    pub fn slice(&self, i: usize) -> (s: &'a str)
        requires
            i < self@.len(),
        ensures
            s@ == self@[i as int],
    {
        proof {
            use_type_invariant(self);
        }
        let span = &self.spans[i];
        let (head, _) = split_chars(self.source, Ghost(span.end as int), span.end_byte);
        proof {
            assert(head@.take(span.start as int) =~= self.chars@.take(span.start as int));
        }
        let (_, line) = split_chars(head, Ghost(span.start as int), span.start_byte);
        proof {
            assert(line@ =~= self.chars@.subrange(span.start as int, span.end as int));
        }
        line
    }

    /// Line `i` as a string of its own.
    pub fn text(&self, i: usize) -> (s: String)
        requires
            i < self@.len(),
        ensures
            s@ == self@[i as int],
    {
        String::from_str(self.slice(i))
    }
}

} // verus!
