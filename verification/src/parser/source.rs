//! A source text laid out for parsing: its characters, the byte offset of
//! each position, and the runs and tags that stand in it.

use vstd::prelude::*;
use vstd::utf8::encode_scalar;
use vstd::utf8::encode_utf8;
use vstd::utf8::encode_utf8_decode_utf8;
use vstd::utf8::encode_utf8_first_scalar;
use vstd::utf8::encode_utf8_valid_utf8;
use vstd::utf8::is_char_boundary;
use vstd::utf8::pop_first_scalar;

verus! {

/// The number of bytes that the first `chars` characters of `text` occupy in
/// UTF-8.
pub open spec fn byte_offset(text: Seq<char>, chars: int) -> nat {
    encode_utf8(text.take(chars)).len()
}

/// The number of bytes of the UTF-8 encoding of `c`.
pub open spec fn utf8_width(c: char) -> nat {
    encode_scalar(c as u32).len()
}

/// A text is encoded piece by piece.
proof fn lemma_encode_concat(a: Seq<char>, b: Seq<char>)
    ensures
        encode_utf8(a + b) =~= encode_utf8(a) + encode_utf8(b),
    decreases a.len(),
{
    if a.len() == 0 {
        assert(a + b =~= b);
    } else {
        assert((a + b).drop_first() =~= a.drop_first() + b);
        lemma_encode_concat(a.drop_first(), b);
    }
}

/// Each further character moves the byte offset by its own width.
pub proof fn lemma_byte_offset_step(text: Seq<char>, chars: int)
    requires
        0 <= chars < text.len(),
    ensures
        byte_offset(text, chars + 1) == byte_offset(text, chars) + utf8_width(text[chars]),
        byte_offset(text, 0) == 0,
{
    let one = seq![text[chars]];
    assert(text.take(chars + 1) =~= text.take(chars) + one);
    lemma_encode_concat(text.take(chars), one);
    assert(one.drop_first() =~= Seq::<char>::empty());
    assert(encode_utf8(one) =~= encode_scalar(text[chars] as u32)) by {
        reveal_with_fuel(encode_utf8, 2);
    }
    assert(text.take(0) =~= Seq::<char>::empty());
}

/// Byte offsets grow with the number of characters.
pub proof fn lemma_byte_offset_monotonic(text: Seq<char>, i: int, j: int)
    requires
        0 <= i <= j <= text.len(),
    ensures
        byte_offset(text, i) <= byte_offset(text, j),
    decreases j - i,
{
    if i < j {
        lemma_byte_offset_monotonic(text, i, j - 1);
        lemma_byte_offset_step(text, j - 1);
    }
}

/// The byte offset of a character position is a character boundary of the
/// encoded text.
proof fn lemma_offset_is_boundary(text: Seq<char>, chars: int)
    requires
        0 <= chars <= text.len(),
    ensures
        is_char_boundary(encode_utf8(text), byte_offset(text, chars) as int),
        byte_offset(text, chars) <= encode_utf8(text).len(),
    decreases chars,
{
    broadcast use encode_utf8_valid_utf8;

    let bytes = encode_utf8(text);
    assert(text.take(text.len() as int) =~= text);
    lemma_byte_offset_monotonic(text, chars, text.len() as int);
    if chars == 0 {
        assert(text.take(0) =~= Seq::<char>::empty());
    } else {
        let rest = text.drop_first();
        encode_utf8_first_scalar(text);
        assert(pop_first_scalar(bytes) =~= encode_utf8(rest));
        assert(text.take(chars) =~= seq![text[0]] + rest.take(chars - 1));
        lemma_encode_concat(seq![text[0]], rest.take(chars - 1));
        assert(seq![text[0]].drop_first() =~= Seq::<char>::empty());
        assert(encode_utf8(seq![text[0]]) =~= encode_scalar(text[0] as u32)) by {
            reveal_with_fuel(encode_utf8, 2);
        }
        lemma_offset_is_boundary(rest, chars - 1);
    }
}

/// The bytes before the offset of a character position encode the characters
/// before that position, and the bytes from it on encode the others.
proof fn lemma_split_at_offset(text: Seq<char>, chars: int)
    requires
        0 <= chars <= text.len(),
    ensures
        encode_utf8(text).subrange(0, byte_offset(text, chars) as int) =~= encode_utf8(
            text.take(chars),
        ),
        encode_utf8(text).subrange(
            byte_offset(text, chars) as int,
            encode_utf8(text).len() as int,
        ) =~= encode_utf8(text.skip(chars)),
{
    assert(text =~= text.take(chars) + text.skip(chars));
    lemma_encode_concat(text.take(chars), text.skip(chars));
}

/// The width in bytes of the UTF-8 encoding of `c`.
pub fn char_width(c: char) -> (width: usize)
    ensures
        width == utf8_width(c),
        1 <= width <= 4,
{
    let code = c as u32;
    if code < 0x80 {
        1
    } else if code < 0x800 {
        2
    } else if code < 0x10000 {
        3
    } else {
        4
    }
}

/// A class of characters that a run is made of.
#[derive(Debug, Clone, Copy, PartialEq, Eq)]
pub enum CharClass {
    /// Space, tab, carriage return and line feed.
    Whitespace,
    /// The ASCII letters and digits.
    Alphanumeric,
    /// The ASCII digits.
    Digit,
    /// Every character but the single quote.
    Unquoted,
}

impl CharClass {
    /// Whether `c` belongs to the class.
    pub open spec fn has(self, c: char) -> bool {
        match self {
            CharClass::Whitespace => c == ' ' || c == '\t' || c == '\r' || c == '\n',
            CharClass::Alphanumeric => ('a' <= c <= 'z') || ('A' <= c <= 'Z') || ('0' <= c <= '9'),
            CharClass::Digit => '0' <= c <= '9',
            CharClass::Unquoted => c != '\'',
        }
    }

    /// Whether `c` belongs to the class.
    pub fn contains(self, c: char) -> (has: bool)
        ensures
            has == self.has(c),
    {
        match self {
            CharClass::Whitespace => c == ' ' || c == '\t' || c == '\r' || c == '\n',
            CharClass::Alphanumeric => ('a' <= c && c <= 'z') || ('A' <= c && c <= 'Z') || ('0'
                <= c && c <= '9'),
            CharClass::Digit => '0' <= c && c <= '9',
            CharClass::Unquoted => c != '\'',
        }
    }
}

/// The end of the longest run of characters of `class` that starts at `pos`.
pub open spec fn run_end(text: Seq<char>, pos: int, class: CharClass) -> int
    decreases text.len() - pos,
{
    if 0 <= pos < text.len() && class.has(text[pos]) {
        run_end(text, pos + 1, class)
    } else {
        pos
    }
}

/// The run that `run_end` delimits consists of characters of the class, and
/// is not followed by another one.
pub proof fn lemma_run_end(text: Seq<char>, pos: int, class: CharClass)
    requires
        0 <= pos <= text.len(),
    ensures
        pos <= run_end(text, pos, class) <= text.len(),
        forall|i: int| pos <= i < run_end(text, pos, class) ==> class.has(#[trigger] text[i]),
        run_end(text, pos, class) < text.len() ==> !class.has(text[run_end(text, pos, class)]),
    decreases text.len() - pos,
{
    if pos < text.len() && class.has(text[pos]) {
        lemma_run_end(text, pos + 1, class);
    }
}

/// A run of characters of a class that ends at `end` is what `run_end` finds
/// from any position within it.
pub proof fn lemma_run(text: Seq<char>, pos: int, end: int, class: CharClass)
    requires
        0 <= pos <= end <= text.len(),
        forall|i: int| pos <= i < end ==> class.has(#[trigger] text[i]),
        end < text.len() ==> !class.has(text[end]),
    ensures
        run_end(text, pos, class) == end,
    decreases end - pos,
{
    if pos < end {
        assert(class.has(text[pos]));
        lemma_run(text, pos + 1, end, class);
    }
}

/// The code of `c`, or of its lower-case form if `c` is an ASCII capital.
pub open spec fn folded(c: char) -> int {
    if 'A' <= c <= 'Z' {
        c as int + 32
    } else {
        c as int
    }
}

/// Whether `tag` stands at `pos` of `text`, letter case apart (`fold`) or
/// exactly.
pub open spec fn stands_at(text: Seq<char>, pos: int, tag: Seq<char>, fold: bool) -> bool {
    &&& 0 <= pos
    &&& pos + tag.len() <= text.len()
    &&& forall|i: int|
        0 <= i < tag.len() ==> if fold {
            folded(#[trigger] text[pos + i]) == folded(tag[i])
        } else {
            text[pos + i] == tag[i]
        }
}

/// The code of `c`, or of its lower-case form if `c` is an ASCII capital.
fn fold(c: char) -> (code: u32)
    ensures
        code == folded(c),
{
    if 'A' <= c && c <= 'Z' {
        c as u32 + 32
    } else {
        c as u32
    }
}

/// A source text prepared for parsing: its characters, and for each position
/// between them the byte offset in the UTF-8 text.
pub struct Source<'a> {
    text: &'a str,
    chars: Vec<char>,
    offsets: Vec<usize>,
}

impl<'a> View for Source<'a> {
    type V = Seq<char>;

    closed spec fn view(&self) -> Seq<char> {
        self.chars@
    }
}

impl<'a> Source<'a> {
    /// The characters are those of the text, and the offset table is complete.
    #[verifier::type_invariant]
    spec fn well_formed(&self) -> bool {
        &&& self.chars@ == self.text@
        &&& self.offsets@.len() == self.chars@.len() + 1
        &&& forall|i: int|
            0 <= i <= self.chars@.len() ==> #[trigger] self.offsets@[i] == byte_offset(
                self.chars@,
                i,
            )
    }

    /// Prepares `text` for parsing.
    pub fn new(text: &'a str) -> (source: Self)
        ensures
            source@ == text@,
    {
        let mut chars: Vec<char> = Vec::new();
        let mut offsets: Vec<usize> = Vec::new();
        let total: usize = text.as_bytes().len();
        let mut offset: usize = 0;
        offsets.push(offset);
        proof {
            assert(text@.take(0) =~= Seq::<char>::empty());
            assert(text@.take(text@.len() as int) =~= text@);
        }
        for c in it: text.chars()
            invariant
                it.seq() == text@,
                total == byte_offset(text@, text@.len() as int),
                chars@ == text@.take(it.index() as int),
                offsets@.len() == it.index() + 1,
                offset == byte_offset(text@, it.index() as int),
                forall|i: int|
                    0 <= i <= it.index() ==> #[trigger] offsets@[i] == byte_offset(text@, i),
        {
            let ghost k = it.index() as int;
            proof {
                lemma_byte_offset_step(text@, k);
                lemma_byte_offset_monotonic(text@, k + 1, text@.len() as int);
                assert(text@.take(k + 1) =~= text@.take(k).push(text@[k]));
            }
            let width = char_width(c);
            offset = offset + width;
            chars.push(c);
            offsets.push(offset);
        }
        proof {
            assert(text@.take(text@.len() as int) =~= text@);
            assert forall|i: int| 0 <= i <= chars@.len() implies #[trigger] offsets@[i]
                == byte_offset(chars@, i) by {}
        }
        Source { text, chars, offsets }
    }

    /// The number of characters of the text.
    pub fn len(&self) -> (len: usize)
        ensures
            len == self@.len(),
    {
        self.chars.len()
    }

    /// The character at position `pos`.
    pub fn char_at(&self, pos: usize) -> (c: char)
        requires
            pos < self@.len(),
        ensures
            c == self@[pos as int],
    {
        self.chars[pos]
    }

    /// The byte offset in the text of the character position `pos`.
    pub fn offset(&self, pos: usize) -> (offset: usize)
        requires
            pos <= self@.len(),
        ensures
            offset == byte_offset(self@, pos as int),
    {
        proof {
            use_type_invariant(self);
        }
        self.offsets[pos]
    }

    /// The text from the character position `pos` on.
    pub fn rest(&self, pos: usize) -> (rest: &'a str)
        requires
            pos <= self@.len(),
        ensures
            rest@ == self@.skip(pos as int),
    {
        proof {
            use_type_invariant(self);
            lemma_offset_is_boundary(self.text@, pos as int);
            lemma_split_at_offset(self.text@, pos as int);
        }
        let (_, rest) = self.text.split_at(self.offsets[pos]);
        proof {
            encode_utf8_decode_utf8(rest@);
            encode_utf8_decode_utf8(self.text@.skip(pos as int));
        }
        rest
    }

    /// The characters from position `from` up to position `to`, as a string.
    pub fn slice(&self, from: usize, to: usize) -> (slice: String)
        requires
            from <= to <= self@.len(),
        ensures
            slice@ == self@.subrange(from as int, to as int),
    {
        proof {
            use_type_invariant(self);
            lemma_offset_is_boundary(self.text@, to as int);
            lemma_split_at_offset(self.text@, to as int);
        }
        let (head, _) = self.text.split_at(self.offsets[to]);
        proof {
            encode_utf8_decode_utf8(head@);
            encode_utf8_decode_utf8(self.text@.take(to as int));
            assert(head@ == self.text@.take(to as int));
            assert(head@.take(from as int) =~= self.text@.take(from as int));
            lemma_offset_is_boundary(head@, from as int);
            lemma_split_at_offset(head@, from as int);
        }
        let (_, tail) = head.split_at(self.offsets[from]);
        proof {
            encode_utf8_decode_utf8(tail@);
            encode_utf8_decode_utf8(head@.skip(from as int));
            assert(head@.skip(from as int) =~= self@.subrange(from as int, to as int));
        }
        tail.to_owned()
    }

    /// The end of the longest run of characters of `class` from `pos` on.
    pub fn scan(&self, pos: usize, class: CharClass) -> (end: usize)
        requires
            pos <= self@.len(),
        ensures
            end == run_end(self@, pos as int, class),
            pos <= end <= self@.len(),
    {
        let mut end = pos;
        while end < self.chars.len() && class.contains(self.chars[end])
            invariant
                pos <= end <= self.chars@.len(),
                run_end(self.chars@, pos as int, class) == run_end(self.chars@, end as int, class),
            decreases self.chars@.len() - end,
        {
            end += 1;
        }
        end
    }

    /// Whether `tag` stands at `pos`, letter case apart (`fold`) or exactly.
    pub fn starts_with(&self, pos: usize, tag: &str, fold: bool) -> (found: bool)
        requires
            pos <= self@.len(),
        ensures
            found == stands_at(self@, pos as int, tag@, fold),
            found ==> pos + tag@.len() <= usize::MAX,
    {
        let len = tag.unicode_len();
        let total = self.chars.len();
        if len > total - pos {
            return false;
        }
        let mut i: usize = 0;
        while i < len
            invariant
                0 <= i <= len,
                len == tag@.len(),
                total == self.chars@.len(),
                pos + len <= total,
                forall|j: int|
                    0 <= j < i ==> if fold {
                        folded(#[trigger] self.chars@[pos + j]) == folded(tag@[j])
                    } else {
                        self.chars@[pos + j] == tag@[j]
                    },
            decreases len - i,
        {
            let here = self.chars[pos + i];
            let there = tag.get_char(i);
            let same = if fold {
                self::fold(here) == self::fold(there)
            } else {
                here == there
            };
            if !same {
                assert(!stands_at(self@, pos as int, tag@, fold)) by {
                    let _ = self.chars@[pos + i];
                }
                return false;
            }
            i += 1;
        }
        true
    }
}

} // verus!
