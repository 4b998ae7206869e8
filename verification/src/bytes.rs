//! Byte-level views of character sequences: UTF-8 widths and byte offsets.

use vstd::prelude::*;
use vstd::utf8::*;

verus! {

/// Number of bytes in the UTF-8 encoding of `s` (what `str::len` returns).
pub open spec fn byte_len(s: Seq<char>) -> nat {
    encode_utf8(s).len()
}

/// The character index of `s` at which byte offset `b` starts a character,
/// or `None` when `b` falls inside a character or past the end.
pub open spec fn char_index_of_byte(s: Seq<char>, b: int) -> Option<nat>
    decreases s.len(),
{
    if b == 0 {
        Some(0)
    } else if s.len() == 0 || b < 0 {
        None
    } else {
        match char_index_of_byte(s.drop_first(), b - encode_scalar(s[0] as u32).len()) {
            Some(k) => Some(k + 1),
            None => None,
        }
    }
}

/// Encoding distributes over concatenation.
pub proof fn lemma_encode_utf8_concat(a: Seq<char>, b: Seq<char>)
    ensures
        encode_utf8(a + b) == encode_utf8(a) + encode_utf8(b),
    decreases a.len(),
{
    if a.len() == 0 {
        assert(a + b =~= b);
    } else {
        lemma_encode_utf8_concat(a.drop_first(), b);
        assert((a + b).drop_first() =~= a.drop_first() + b);
        assert(encode_utf8(a + b) =~= encode_scalar(a[0] as u32) + encode_utf8(a.drop_first() + b));
    }
}

/// The byte length of a prefix grows by the width of the next character.
pub proof fn lemma_byte_len_take_step(s: Seq<char>, i: int)
    requires
        0 <= i < s.len(),
    ensures
        byte_len(s.take(i + 1)) == byte_len(s.take(i)) + encode_scalar(s[i] as u32).len(),
{
    lemma_encode_utf8_concat(s.take(i), seq![s[i]]);
    assert(s.take(i + 1) =~= s.take(i) + seq![s[i]]);
    lemma_encode_single(s[i]);
}

/// A single character encodes to its scalar encoding.
pub proof fn lemma_encode_single(c: char)
    ensures
        encode_utf8(seq![c]) == encode_scalar(c as u32),
{
    assert(seq![c].drop_first() =~= Seq::<char>::empty());
    reveal_with_fuel(encode_utf8, 2);
    assert(encode_utf8(seq![c]) =~= encode_scalar(c as u32));
}

/// Every character takes at most four bytes.
pub proof fn lemma_byte_len_at_most_four(s: Seq<char>)
    ensures
        byte_len(s) <= 4 * s.len(),
    decreases s.len(),
{
    if s.len() > 0 {
        lemma_byte_len_at_most_four(s.drop_first());
        char_is_scalar(s[0]);
        lemma_encode_utf8_concat(seq![s[0]], s.drop_first());
        assert(seq![s[0]] + s.drop_first() =~= s);
        lemma_encode_single(s[0]);
    }
}

/// Number of bytes that `c` takes in UTF-8.
pub fn utf8_width(c: char) -> (w: usize)
    ensures
        w == encode_scalar(c as u32).len(),
        1 <= w <= 4,
{
    proof {
        char_is_scalar(c);
    }
    let v = c as u32;
    if v <= 0x7f {
        1
    } else if v <= 0x7ff {
        2
    } else if v <= 0xffff {
        3
    } else {
        4
    }
}

/// Byte length of the UTF-8 encoding of `s`.
pub fn byte_length(s: &[char]) -> (n: usize)
    requires
        byte_len(s@) <= usize::MAX,
    ensures
        n == byte_len(s@),
{
    let mut n: usize = 0;
    let mut i: usize = 0;
    while i < s.len()
        invariant
            i <= s@.len(),
            n == byte_len(s@.take(i as int)),
            byte_len(s@) <= usize::MAX,
        decreases s.len() - i,
    {
        proof {
            lemma_byte_len_take_step(s@, i as int);
            lemma_byte_len_prefix_le(s@, i + 1);
        }
        n = n + utf8_width(s[i]);
        i = i + 1;
    }
    assert(s@.take(s@.len() as int) =~= s@);
    n
}

/// A prefix never encodes to more bytes than the whole sequence.
pub proof fn lemma_byte_len_prefix_le(s: Seq<char>, k: int)
    requires
        0 <= k <= s.len(),
    ensures
        byte_len(s.take(k)) <= byte_len(s),
{
    lemma_encode_utf8_concat(s.take(k), s.skip(k));
    assert(s.take(k) + s.skip(k) =~= s);
}

proof fn lemma_char_index_of_byte_shift(s: Seq<char>, i: int, b: int)
    requires
        0 <= i <= s.len(),
        b >= byte_len(s.take(i)),
        forall|j: int| 0 <= j < i ==> byte_len(s.take(j)) != b,
    ensures
        char_index_of_byte(s, b) == match char_index_of_byte(s.skip(i), b - byte_len(s.take(i))) {
            Some(k) => Some((k + i) as nat),
            None => None::<nat>,
        },
    decreases i,
{
    if i == 0 {
        assert(s.skip(0) =~= s);
        assert(s.take(0) =~= Seq::<char>::empty());
    } else {
        assert(s.take(0) =~= Seq::<char>::empty());
        assert(byte_len(s.take(0)) == 0);
        assert(b != 0);
        let t = s.drop_first();
        let w = encode_scalar(s[0] as u32).len();
        lemma_byte_len_take_step(s, 0);
        assert(s.take(1) =~= seq![s[0]]);
        lemma_encode_single(s[0]);
        assert forall|j: int| 0 <= j < i - 1 implies byte_len(t.take(j)) + w != b by {
            lemma_encode_utf8_concat(seq![s[0]], t.take(j));
            assert(seq![s[0]] + t.take(j) =~= s.take(j + 1));
            assert(seq![s[0]].drop_first() =~= Seq::<char>::empty());
        }
        lemma_encode_utf8_concat(seq![s[0]], t.take(i - 1));
        assert(seq![s[0]] + t.take(i - 1) =~= s.take(i));
        assert(seq![s[0]].drop_first() =~= Seq::<char>::empty());
        assert forall|j: int| 0 <= j < i - 1 implies byte_len(t.take(j)) != b - w by {
        }
        lemma_char_index_of_byte_shift(t, i - 1, b - w);
        assert(t.skip(i - 1) =~= s.skip(i));
    }
}

/// The character index at which byte offset `b` of `s` starts a character.
pub fn char_index_at_byte(s: &[char], b: usize) -> (r: Option<usize>)
    requires
        byte_len(s@) <= usize::MAX,
    ensures
        r matches Some(k) ==> char_index_of_byte(s@, b as int) == Some(k as nat) && k <= s@.len(),
        r is None ==> char_index_of_byte(s@, b as int) is None,
{
    let mut off: usize = 0;
    let mut i: usize = 0;
    while i < s.len()
        invariant
            i <= s@.len(),
            off == byte_len(s@.take(i as int)),
            off <= b,
            byte_len(s@) <= usize::MAX,
            forall|j: int| 0 <= j < i ==> byte_len(s@.take(j)) != b,
        decreases s.len() - i,
    {
        if off == b {
            proof {
                lemma_char_index_of_byte_shift(s@, i as int, b as int);
            }
            return Some(i);
        }
        proof {
            lemma_byte_len_take_step(s@, i as int);
            lemma_byte_len_prefix_le(s@, i + 1);
        }
        let w = utf8_width(s[i]);
        if off + w > b {
            proof {
                lemma_char_index_of_byte_shift(s@, i as int, b as int);
                let t = s@.skip(i as int);
                assert(t.len() > 0);
                assert(t[0] == s@[i as int]);
                let r = (b - off) as int;
                assert(r > 0 && r < w);
                assert(char_index_of_byte(t.drop_first(), r - w) is None);
            }
            return None;
        }
        off = off + w;
        i = i + 1;
    }
    proof {
        lemma_char_index_of_byte_shift(s@, i as int, b as int);
        assert(s@.take(i as int) =~= s@);
        assert(s@.skip(i as int).len() == 0);
    }
    if off == b {
        Some(i)
    } else {
        None
    }
}

} // verus!

verus! {

/// Every character takes at least one byte.
pub proof fn lemma_char_count_le_byte_len(s: Seq<char>)
    ensures
        s.len() <= byte_len(s),
    decreases s.len(),
{
    if s.len() > 0 {
        lemma_char_count_le_byte_len(s.drop_first());
        char_is_scalar(s[0]);
    }
}

} // verus!
