//! Reading source text byte by byte.
//!
//! Everything the assembler's grammar accepts is ASCII, so the parsers walk
//! the bytes of a `&str` and never decode a character. This module holds the
//! facts that let them speak of characters all the same: as long as every
//! byte before a position is ASCII, that position is a character boundary and
//! bytes and characters have the same indices.

use vstd::prelude::*;
use vstd::utf8::{
    char_is_scalar, encode_scalar, encode_utf8, encode_utf8_decode_utf8, encode_utf8_valid_utf8,
    has_width_1_encoding, has_width_2_encoding, has_width_3_encoding, is_ascii_chars,
    is_ascii_chars_encode_utf8, is_char_boundary, is_char_boundary_iff_not_is_continuation_byte,
    is_char_boundary_start_end_of_seq, is_continuation_byte, leading_byte_width_1,
};

verus! {

/// Whether `c` is an ASCII character.
pub open spec fn is_ascii_char(c: char) -> bool {
    c <= '\u{7f}'
}

/// Whether the first `n` characters of `chars` exist and are ASCII.
pub open spec fn ascii_prefix(chars: Seq<char>, n: int) -> bool {
    &&& 0 <= n <= chars.len()
    &&& forall|i: int| 0 <= i < n ==> is_ascii_char(#[trigger] chars[i])
}

/// Every character lies in the range of the type.
pub proof fn lemma_char_range(c: char)
    ensures
        '\0' <= c <= '\u{10ffff}',
{
}

/// The encoding of a sequence is the encoding of its parts, one after the
/// other.
proof fn lemma_encode_concat(a: Seq<char>, b: Seq<char>)
    ensures
        encode_utf8(a + b) == encode_utf8(a) + encode_utf8(b),
    decreases a.len(),
{
    if a.len() == 0 {
        assert(a + b =~= b);
        assert(encode_utf8(a) + encode_utf8(b) =~= encode_utf8(b));
    } else {
        lemma_encode_concat(a.drop_first(), b);
        assert((a + b).drop_first() =~= a.drop_first() + b);
        assert((a + b)[0] == a[0]);
        assert(encode_utf8(a + b) =~= encode_scalar(a[0] as u32) + (encode_utf8(a.drop_first())
            + encode_utf8(b)));
        assert(encode_utf8(a) + encode_utf8(b) =~= encode_scalar(a[0] as u32) + (encode_utf8(
            a.drop_first(),
        ) + encode_utf8(b)));
    }
}

/// The first byte of an encoding is ASCII exactly where the first character
/// is, and then it is that character.
proof fn lemma_first_byte(chars: Seq<char>)
    requires
        chars.len() > 0,
    ensures
        encode_utf8(chars).len() > 0,
        is_ascii_char(chars[0]) <==> encode_utf8(chars)[0] < 0x80,
        is_ascii_char(chars[0]) ==> encode_utf8(chars)[0] == chars[0] as u8,
        !is_continuation_byte(encode_utf8(chars)[0]),
{
    lemma_char_range(chars[0]);
    let c = chars[0] as u32;
    char_is_scalar(chars[0]);
    let rest = encode_utf8(chars.drop_first());
    assert(encode_utf8(chars) == encode_scalar(c) + rest);
    assert(encode_scalar(c).len() > 0);
    assert(encode_utf8(chars)[0] == encode_scalar(c)[0]);
    if has_width_1_encoding(c) {
        assert(leading_byte_width_1(c) == c as u8 && leading_byte_width_1(c) < 0x80)
            by (bit_vector)
            requires
                0 <= c <= 0x7f,
        ;
    } else if has_width_2_encoding(c) {
        let x = ((c >> 6) & 0x1F) as u8;
        assert(0xC0u8 | x >= 0xC0) by (bit_vector);
    } else if has_width_3_encoding(c) {
        let x = ((c >> 12) & 0x0F) as u8;
        assert(0xE0u8 | x >= 0xE0) by (bit_vector);
    } else {
        let x = ((c >> 18) & 0x7) as u8;
        assert(0xF0u8 | x >= 0xF0) by (bit_vector);
    }
}

/// Where the first `n` characters of `chars` are ASCII, the first `n` bytes
/// of the encoding are those characters, what follows encodes the rest, and
/// `n` is a character boundary.
proof fn lemma_ascii_prefix(chars: Seq<char>, n: int)
    requires
        ascii_prefix(chars, n),
    ensures
        n <= encode_utf8(chars).len(),
        forall|i: int| 0 <= i < n ==> #[trigger] encode_utf8(chars)[i] == chars[i] as u8,
        encode_utf8(chars).subrange(0, n) == encode_utf8(chars.subrange(0, n)),
        encode_utf8(chars).subrange(n, encode_utf8(chars).len() as int) == encode_utf8(
            chars.subrange(n, chars.len() as int),
        ),
        n == chars.len() <==> n == encode_utf8(chars).len(),
        is_char_boundary(encode_utf8(chars), n),
{
    let head = chars.subrange(0, n);
    let tail = chars.subrange(n, chars.len() as int);
    let bytes = encode_utf8(chars);
    assert(chars =~= head + tail);
    lemma_encode_concat(head, tail);
    assert(is_ascii_chars(head)) by {
        assert forall|i: int| 0 <= i < head.len() implies '\0' <= #[trigger] head[i]
            <= '\u{7f}' by {
            assert(head[i] == chars[i]);
            lemma_char_range(chars[i]);
        }
    }
    is_ascii_chars_encode_utf8(head);
    assert(encode_utf8(head).len() == n);
    assert forall|i: int| 0 <= i < n implies #[trigger] bytes[i] == chars[i] as u8 by {
        assert(bytes[i] == encode_utf8(head)[i]);
        assert(head[i] == chars[i]);
    }
    assert(bytes.subrange(0, n) =~= encode_utf8(head));
    assert(bytes.subrange(n, bytes.len() as int) =~= encode_utf8(tail));
    encode_utf8_valid_utf8(chars);
    if tail.len() == 0 {
        assert(encode_utf8(tail).len() == 0);
        is_char_boundary_start_end_of_seq(bytes);
    } else {
        lemma_first_byte(tail);
        assert(bytes[n] == encode_utf8(tail)[0]);
        is_char_boundary_iff_not_is_continuation_byte(bytes, n);
    }
}

/// The byte at position `pos` of `input`, where it is ASCII; `None` at the
/// end of the input and before any other character.
pub(crate) fn peek(input: &str, pos: usize) -> (next: Option<u8>)
    requires
        ascii_prefix(input@, pos as int),
    ensures
        match next {
            Some(b) => pos < input@.len() && pos < usize::MAX && is_ascii_char(input@[pos as int])
                && input@[pos as int] == b as char && b < 0x80,
            None => pos == input@.len() || !is_ascii_char(input@[pos as int]),
        },
{
    let bytes = input.as_bytes();
    proof {
        lemma_ascii_prefix(input@, pos as int);
        if pos < input@.len() {
            let tail = input@.subrange(pos as int, input@.len() as int);
            lemma_first_byte(tail);
            assert(tail[0] == input@[pos as int]);
            assert(bytes@[pos as int] == encode_utf8(tail)[0]);
        }
    }
    if pos < bytes.len() {
        let b = bytes[pos];
        if b < 0x80 {
            proof {
                lemma_char_range(input@[pos as int]);
            }
            Some(b)
        } else {
            None
        }
    } else {
        None
    }
}

/// What is left of `input` from position `pos` on.
pub(crate) fn rest(input: &str, pos: usize) -> (tail: &str)
    requires
        ascii_prefix(input@, pos as int),
    ensures
        tail@ == input@.subrange(pos as int, input@.len() as int),
{
    proof {
        lemma_ascii_prefix(input@, pos as int);
    }
    let (_, tail) = input.split_at(pos);
    proof {
        let expected = input@.subrange(pos as int, input@.len() as int);
        assert(encode_utf8(tail@) == encode_utf8(expected));
        encode_utf8_decode_utf8(tail@);
        encode_utf8_decode_utf8(expected);
    }
    tail
}

/// The part of `input` from position `from` up to position `to`.
pub(crate) fn part(input: &str, from: usize, to: usize) -> (piece: &str)
    requires
        from <= to,
        ascii_prefix(input@, to as int),
    ensures
        piece@ == input@.subrange(from as int, to as int),
{
    proof {
        lemma_ascii_prefix(input@, to as int);
    }
    let (head, _) = input.split_at(to);
    proof {
        let expected = input@.subrange(0, to as int);
        assert(encode_utf8(head@) == encode_utf8(expected));
        encode_utf8_decode_utf8(head@);
        encode_utf8_decode_utf8(expected);
        assert(head@ == expected);
    }
    let piece = rest(head, from);
    assert(piece@ =~= input@.subrange(from as int, to as int));
    piece
}

/// Whether `a` and `b` are the same text.
pub fn same_text(a: &str, b: &str) -> (same: bool)
    ensures
        same == (a@ == b@),
{
    let x = a.as_bytes();
    let y = b.as_bytes();
    proof {
        encode_utf8_decode_utf8(a@);
        encode_utf8_decode_utf8(b@);
    }
    if x.len() != y.len() {
        return false;
    }
    let mut i: usize = 0;
    while i < x.len()
        invariant
            i <= x.len(),
            x.len() == y.len(),
            x@ == encode_utf8(a@),
            y@ == encode_utf8(b@),
            forall|k: int| 0 <= k < i ==> x[k] == y[k],
        decreases x.len() - i,
    {
        if x[i] != y[i] {
            return false;
        }
        i += 1;
    }
    assert(x@ =~= y@);
    true
}

/// A kind of character that source text is made of.
#[derive(Debug, Clone, Copy, PartialEq, Eq, Structural)]
pub enum CharClass {
    /// A blank, a tab, a line feed or a carriage return.
    Space,
    /// A decimal digit.
    Digit,
    /// A letter of the English alphabet, small or capital.
    Letter,
    /// A letter or a digit.
    LetterOrDigit,
}

impl CharClass {
    /// Whether `c` is of this kind.
    pub open spec fn holds(self, c: char) -> bool {
        match self {
            CharClass::Space => c == ' ' || c == '\t' || c == '\n' || c == '\r',
            CharClass::Digit => '0' <= c <= '9',
            CharClass::Letter => 'a' <= c <= 'z' || 'A' <= c <= 'Z',
            CharClass::LetterOrDigit => 'a' <= c <= 'z' || 'A' <= c <= 'Z' || '0' <= c <= '9',
        }
    }

    /// Whether the ASCII character with code `b` is of this kind.
    pub(crate) fn has(self, b: u8) -> (member: bool)
        requires
            b < 0x80,
        ensures
            member == self.holds(b as char),
    {
        let c = b as char;
        match self {
            CharClass::Space => c == ' ' || c == '\t' || c == '\n' || c == '\r',
            CharClass::Digit => '0' <= c && c <= '9',
            CharClass::Letter => ('a' <= c && c <= 'z') || ('A' <= c && c <= 'Z'),
            CharClass::LetterOrDigit => ('a' <= c && c <= 'z') || ('A' <= c && c <= 'Z') || ('0'
                <= c && c <= '9'),
        }
    }
}

/// Where the longest run of characters of `class` that begins at `from`
/// ends.
pub open spec fn span(s: Seq<char>, class: CharClass, from: int) -> int
    decreases s.len() - from,
{
    if 0 <= from < s.len() && class.holds(s[from]) {
        span(s, class, from + 1)
    } else {
        from
    }
}

/// A run ends at or behind its beginning, within the text, and holds
/// characters of its class only.
pub proof fn lemma_span(s: Seq<char>, class: CharClass, from: int)
    requires
        0 <= from <= s.len(),
    ensures
        from <= span(s, class, from) <= s.len(),
        forall|i: int| from <= i < span(s, class, from) ==> class.holds(#[trigger] s[i]),
        span(s, class, from) < s.len() ==> !class.holds(s[span(s, class, from)]),
    decreases s.len() - from,
{
    if from < s.len() && class.holds(s[from]) {
        lemma_span(s, class, from + 1);
    }
}

/// Finds where the run of characters of `class` that begins at `from`
/// ends.
pub(crate) fn scan(input: &str, class: CharClass, from: usize) -> (end: usize)
    requires
        ascii_prefix(input@, from as int),
    ensures
        end == span(input@, class, from as int),
        from <= end <= input@.len(),
        ascii_prefix(input@, end as int),
{
    let mut end = from;
    loop
        invariant
            from <= end <= input@.len(),
            ascii_prefix(input@, end as int),
            span(input@, class, from as int) == span(input@, class, end as int),
        ensures
            end == span(input@, class, from as int),
        decreases input@.len() - end,
    {
        match peek(input, end) {
            Some(b) => {
                if class.has(b) {
                    end += 1;
                } else {
                    break;
                }
            },
            None => {
                proof {
                    if end < input@.len() {
                        lemma_char_range(input@[end as int]);
                    }
                }
                break;
            },
        }
    }
    end
}

/// Whether position `pos` is the end of `input`.
pub(crate) fn at_end(input: &str, pos: usize) -> (ended: bool)
    requires
        ascii_prefix(input@, pos as int),
    ensures
        ended == (pos == input@.len()),
        !ended ==> pos < usize::MAX,
{
    proof {
        lemma_ascii_prefix(input@, pos as int);
    }
    pos == input.as_bytes().len()
}

/// The small letter of a capital letter, and any other character itself.
pub open spec fn lower(c: char) -> char {
    if 'A' <= c <= 'Z' {
        ((c as u32) + 32) as char
    } else {
        c
    }
}

/// `s` with its capital letters made small.
pub open spec fn lowercase(s: Seq<char>) -> Seq<char> {
    Seq::new(s.len(), |i: int| lower(s[i]))
}

/// Whether `text`, its capital letters made small, is the ASCII text
/// `word`.
pub(crate) fn is_word(text: &str, word: &str) -> (same: bool)
    requires
        ascii_prefix(word@, word@.len() as int),
    ensures
        same == (lowercase(text@) == word@),
{
    let mut i: usize = 0;
    loop
        invariant
            ascii_prefix(word@, word@.len() as int),
            ascii_prefix(text@, i as int),
            ascii_prefix(word@, i as int),
            forall|k: int| 0 <= k < i ==> lower(text@[k]) == word@[k],
        decreases word@.len() - i,
    {
        if at_end(word, i) {
            let same = at_end(text, i);
            proof {
                if same {
                    assert(lowercase(text@) =~= word@);
                } else {
                    assert(lowercase(text@).len() != word@.len());
                }
            }
            return same;
        }
        let expected = peek(word, i);
        match peek(text, i) {
            Some(b) => {
                let small = if 65 <= b && b <= 90 {
                    b + 32
                } else {
                    b
                };
                assert(small as char == lower(text@[i as int]));
                if expected != Some(small) {
                    assert(lowercase(text@)[i as int] != word@[i as int]);
                    return false;
                }
            },
            None => {
                proof {
                    if i < text@.len() {
                        lemma_char_range(text@[i as int]);
                        assert(lowercase(text@)[i as int] != word@[i as int]);
                    } else {
                        assert(lowercase(text@).len() != word@.len());
                    }
                }
                return false;
            },
        }
        i += 1;
    }
}

} // verus!
