//! Conversions between character offsets (what an editor shows) and UTF-8
//! byte offsets (what the compiler uses).

use vstd::prelude::*;
use vstd::std_specs::iter::IteratorSpec;
use vstd::string::StringSliceAdditionalSpecFns;
use vstd::utf8::*;

verus! {

/// Number of bytes in the UTF-8 encoding of `c`.
pub open spec fn char_width(c: char) -> nat {
    if (c as u32) < 0x80 {
        1
    } else if (c as u32) < 0x800 {
        2
    } else if (c as u32) < 0x10000 {
        3
    } else {
        4
    }
}

/// Number of bytes in the UTF-8 encoding of `s`.
pub open spec fn utf8_len(s: Seq<char>) -> nat
    decreases s.len(),
{
    if s.len() == 0 {
        0
    } else {
        utf8_len(s.drop_last()) + char_width(s.last())
    }
}

/// Byte offset of character `c` of `s`, or the byte length of `s` when `c`
/// is past its last character.
pub open spec fn byte_offset_of_char(s: Seq<char>, c: int) -> nat {
    if 0 <= c < s.len() {
        utf8_len(s.take(c))
    } else {
        utf8_len(s)
    }
}

/// Number of characters of `s` whose encoding starts before byte `b`.
pub open spec fn chars_starting_before(s: Seq<char>, b: int) -> nat
    decreases s.len(),
{
    if s.len() == 0 {
        0
    } else {
        chars_starting_before(s.drop_last(), b) + if utf8_len(s.drop_last()) < b {
            1nat
        } else {
            0nat
        }
    }
}

proof fn lemma_width_is_encoding_len(c: char)
    ensures
        encode_scalar(c as u32).len() == char_width(c),
        1 <= char_width(c) <= 4,
{
    broadcast use char_is_scalar;

}

proof fn lemma_utf8_len_front(s: Seq<char>)
    requires
        s.len() > 0,
    ensures
        utf8_len(s) == char_width(s[0]) + utf8_len(s.drop_first()),
    decreases s.len(),
{
    if s.len() > 1 {
        lemma_utf8_len_front(s.drop_last());
        assert(s.drop_last().drop_first() =~= s.drop_first().drop_last());
        assert(s.drop_first().last() == s.last());
        assert(s.drop_last()[0] == s[0]);
    } else {
        assert(s.drop_last() =~= Seq::<char>::empty());
        assert(s.drop_first() =~= Seq::<char>::empty());
    }
}

/// The byte length used in the contracts is the length of the UTF-8
/// encoding.
pub proof fn lemma_utf8_len_is_encoding_len(s: Seq<char>)
    ensures
        encode_utf8(s).len() == utf8_len(s),
    decreases s.len(),
{
    if s.len() > 0 {
        lemma_utf8_len_front(s);
        lemma_width_is_encoding_len(s[0]);
        lemma_utf8_len_is_encoding_len(s.drop_first());
    }
}

/// A text has at most as many characters as bytes.
pub proof fn lemma_len_le_utf8_len(s: Seq<char>)
    ensures
        s.len() <= utf8_len(s),
    decreases s.len(),
{
    if s.len() > 0 {
        lemma_len_le_utf8_len(s.drop_last());
        lemma_width_is_encoding_len(s.last());
    }
}

proof fn lemma_prefix_step(s: Seq<char>, j: int)
    requires
        0 <= j < s.len(),
    ensures
        utf8_len(s.take(j + 1)) == utf8_len(s.take(j)) + char_width(s[j]),
{
    assert(s.take(j + 1).drop_last() =~= s.take(j));
    assert(s.take(j + 1).last() == s[j]);
}

proof fn lemma_prefix_strictly_increasing(s: Seq<char>, j: int, k: int)
    requires
        0 <= j < k <= s.len(),
    ensures
        utf8_len(s.take(j)) < utf8_len(s.take(k)),
    decreases k - j,
{
    lemma_prefix_step(s, k - 1);
    lemma_width_is_encoding_len(s[k - 1]);
    if j < k - 1 {
        lemma_prefix_strictly_increasing(s, j, k - 1);
    }
}

proof fn lemma_prefix_bounded(s: Seq<char>, j: int)
    requires
        0 <= j <= s.len(),
    ensures
        utf8_len(s.take(j)) <= utf8_len(s),
{
    assert(s.take(s.len() as int) =~= s);
    if j < s.len() {
        lemma_prefix_strictly_increasing(s, j, s.len() as int);
    }
}

proof fn lemma_count_step(s: Seq<char>, j: int, b: int)
    requires
        0 <= j < s.len(),
    ensures
        chars_starting_before(s.take(j + 1), b) == chars_starting_before(s.take(j), b) + if utf8_len(
            s.take(j),
        ) < b {
            1nat
        } else {
            0nat
        },
{
    assert(s.take(j + 1).drop_last() =~= s.take(j));
}

proof fn lemma_count_at_char_start(s: Seq<char>, c: int, k: int)
    requires
        0 <= c <= s.len(),
        0 <= k <= s.len(),
    ensures
        chars_starting_before(s.take(k), utf8_len(s.take(c)) as int) == if k <= c {
            k
        } else {
            c
        },
    decreases k,
{
    if k == 0 {
        assert(s.take(0) =~= Seq::<char>::empty());
    } else {
        lemma_count_at_char_start(s, c, k - 1);
        lemma_count_step(s, k - 1, utf8_len(s.take(c)) as int);
        if k - 1 < c {
            lemma_prefix_strictly_increasing(s, k - 1, c);
        } else if k - 1 > c {
            lemma_prefix_strictly_increasing(s, c, k - 1);
        }
    }
}

/// Converting a character offset within a text to a byte offset and back
/// gives the character offset again.
pub proof fn lemma_char_byte_round_trip(s: Seq<char>, c: int)
    requires
        0 <= c <= s.len(),
    ensures
        chars_starting_before(s, byte_offset_of_char(s, c) as int) == c,
{
    assert(s.take(s.len() as int) =~= s);
    lemma_count_at_char_start(s, c, s.len() as int);
}

fn utf8_width(c: char) -> (r: usize)
    ensures
        r == char_width(c),
{
    let v = c as u32;
    if v < 0x80 {
        1
    } else if v < 0x800 {
        2
    } else if v < 0x10000 {
        3
    } else {
        4
    }
}

/// Byte offset of the character at `char_position` in `text`; a position
/// past the end gives the byte length of `text`.
pub fn char_to_byte_position(text: &str, char_position: usize) -> (r: usize)
    requires
        utf8_len(text@) <= usize::MAX,
    ensures
        r == byte_offset_of_char(text@, char_position as int),
        char_position >= text@.len() ==> r == text.spec_bytes().len(),
{
    proof {
        lemma_utf8_len_is_encoding_len(text@);
        assert(text.spec_bytes() == encode_utf8(text@));
    }
    let mut it = text.chars();
    let mut i: usize = 0;
    let mut pos: usize = 0;
    loop
        invariant
            it.remaining() == text@.skip(i as int),
            0 <= i <= text@.len(),
            i <= char_position,
            pos == utf8_len(text@.take(i as int)),
            utf8_len(text@) <= usize::MAX,
            text.spec_bytes().len() == utf8_len(text@),
        decreases text@.len() - i,
    {
        if i == char_position {
            proof {
                assert(text@.take(text@.len() as int) =~= text@);
            }
            return pos;
        }
        match it.next() {
            Some(c) => {
                proof {
                    assert(text@.skip(i as int)[0] == text@[i as int]);
                    lemma_prefix_step(text@, i as int);
                    lemma_prefix_bounded(text@, i + 1);
                    assert(text@.skip(i as int).drop_first() =~= text@.skip(i + 1));
                }
                pos = pos + utf8_width(c);
                i = i + 1;
            },
            None => {
                proof {
                    assert(text@.take(i as int) =~= text@);
                }
                return pos;
            },
        }
    }
}

/// Number of characters of `text` whose encoding starts before
/// `byte_position`.
pub fn byte_position_to_char_position(text: &str, byte_position: usize) -> (r: usize)
    requires
        utf8_len(text@) <= usize::MAX,
    ensures
        r == chars_starting_before(text@, byte_position as int),
        r <= text@.len(),
{
    let mut it = text.chars();
    let mut i: usize = 0;
    let mut pos: usize = 0;
    let mut count: usize = 0;
    proof {
        lemma_len_le_utf8_len(text@);
    }
    loop
        invariant
            it.remaining() == text@.skip(i as int),
            0 <= i <= text@.len(),
            pos == utf8_len(text@.take(i as int)),
            count == chars_starting_before(text@.take(i as int), byte_position as int),
            count <= i,
            utf8_len(text@) <= usize::MAX,
            text@.len() <= usize::MAX,
        decreases text@.len() - i,
    {
        match it.next() {
            Some(c) => {
                proof {
                    assert(text@.skip(i as int)[0] == text@[i as int]);
                    lemma_prefix_step(text@, i as int);
                    lemma_prefix_bounded(text@, i + 1);
                    lemma_count_step(text@, i as int, byte_position as int);
                    assert(text@.skip(i as int).drop_first() =~= text@.skip(i + 1));
                }
                if pos < byte_position {
                    count = count + 1;
                }
                pos = pos + utf8_width(c);
                i = i + 1;
            },
            None => {
                proof {
                    assert(text@.take(i as int) =~= text@);
                }
                return count;
            },
        }
    }
}

} // verus!
