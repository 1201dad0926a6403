//! Byte offsets into text: the UTF-8 length of characters and prefixes, and
//! the character that starts at a given byte offset.
use vstd::prelude::*;
use vstd::utf8::{encode_scalar, encode_utf8};
use crate::text::chars_of;

verus! {

/// The UTF-8 bytes of the character `c`.
pub open spec fn char_bytes(c: char) -> nat {
    encode_scalar(c as u32).len()
}

/// The UTF-8 length of the text `s`.
pub open spec fn utf8_len(s: Seq<char>) -> nat {
    encode_utf8(s).len()
}

/// The UTF-8 length of the first `k` characters of `s`.
pub open spec fn prefix_bytes(s: Seq<char>, k: int) -> nat {
    utf8_len(s.take(k))
}

/// The number of characters before byte offset `b` of `s`, when `b` falls on
/// a character boundary (the start, between two characters, or the end).
pub open spec fn byte_index(s: Seq<char>, b: int) -> Option<int> {
    if exists|k: int| 0 <= k <= s.len() && prefix_bytes(s, k) == b {
        Some(choose|k: int| 0 <= k <= s.len() && prefix_bytes(s, k) == b)
    } else {
        None
    }
}

/// Appending a character appends its encoding.
proof fn lemma_encode_push(a: Seq<char>, c: char)
    ensures
        encode_utf8(a.push(c)) == encode_utf8(a) + encode_scalar(c as u32),
    decreases a.len(),
{
    if a.len() == 0 {
        assert(a.push(c).drop_first() =~= Seq::<char>::empty());
        assert(encode_utf8(Seq::<char>::empty()) =~= Seq::<u8>::empty());
        assert(encode_utf8(a) =~= Seq::<u8>::empty());
        assert(encode_utf8(a.push(c)) =~= encode_scalar(c as u32) + Seq::<u8>::empty());
        assert(encode_scalar(c as u32) + Seq::<u8>::empty() =~= encode_utf8(a) + encode_scalar(c as u32));
    } else {
        assert(a.push(c).drop_first() =~= a.drop_first().push(c));
        assert(a.push(c)[0] == a[0]);
        lemma_encode_push(a.drop_first(), c);
        assert(encode_utf8(a.push(c)) =~= encode_scalar(a[0] as u32) + (encode_utf8(a.drop_first())
            + encode_scalar(c as u32)));
    }
}

/// Every character takes one to four bytes.
pub proof fn lemma_char_bytes(c: char)
    ensures
        1 <= char_bytes(c) <= 4,
{
}

/// One more character adds its bytes to a prefix.
pub proof fn lemma_prefix_step(s: Seq<char>, k: int)
    requires
        0 <= k < s.len(),
    ensures
        prefix_bytes(s, k + 1) == prefix_bytes(s, k) + char_bytes(s[k]),
{
    assert(s.take(k + 1) =~= s.take(k).push(s[k]));
    lemma_encode_push(s.take(k), s[k]);
}

/// Longer prefixes take more bytes.
pub proof fn lemma_prefix_grows(s: Seq<char>, i: int, j: int)
    requires
        0 <= i < j <= s.len(),
    ensures
        prefix_bytes(s, i) < prefix_bytes(s, j),
    decreases j - i,
{
    lemma_prefix_step(s, j - 1);
    lemma_char_bytes(s[j - 1]);
    if i < j - 1 {
        lemma_prefix_grows(s, i, j - 1);
    }
}

/// The only prefix with `prefix_bytes(s, k)` bytes is that of `k` characters.
pub proof fn lemma_byte_index_of(s: Seq<char>, k: int)
    requires
        0 <= k <= s.len(),
    ensures
        byte_index(s, prefix_bytes(s, k) as int) == Some(k),
{
    let b = prefix_bytes(s, k) as int;
    let k2 = choose|k2: int| 0 <= k2 <= s.len() && prefix_bytes(s, k2) == b;
    if k2 < k {
        lemma_prefix_grows(s, k2, k);
    } else if k < k2 {
        lemma_prefix_grows(s, k, k2);
    }
}

/// The whole text is its longest prefix.
pub proof fn lemma_prefix_all(s: Seq<char>)
    ensures
        prefix_bytes(s, s.len() as int) == utf8_len(s),
{
    assert(s.take(s.len() as int) =~= s);
}

/// The UTF-8 length of `c` (`char::len_utf8`).
pub fn char_len_bytes(c: char) -> (r: usize)
    ensures
        r == char_bytes(c),
{
    let v = c as u32;
    if v <= 0x7F {
        1
    } else if v <= 0x7FF {
        2
    } else if v <= 0xFFFF {
        3
    } else {
        4
    }
}

/// The number of characters before byte offset `b` of `s`, when `b` falls on
/// a character boundary (see `byte_index`).
pub fn char_index_at_byte(s: &str, b: usize) -> (r: Option<usize>)
    ensures
        match r {
            Some(k) => byte_index(s@, b as int) == Some(k as int),
            None => byte_index(s@, b as int) is None,
        },
{
    let v = chars_of(s);
    let mut k: usize = 0;
    let mut acc: u128 = 0;
    assert(s@.take(0) =~= Seq::<char>::empty());
    assert(encode_utf8(Seq::<char>::empty()) =~= Seq::<u8>::empty());
    while k < v.len() && acc < b as u128
        invariant
            k <= v@.len(),
            v@ == s@,
            acc == prefix_bytes(s@, k as int),
            acc <= b + 4,
            k > 0 ==> prefix_bytes(s@, k - 1) < b,
        decreases v@.len() - k,
    {
        proof {
            lemma_prefix_step(s@, k as int);
            lemma_char_bytes(v@[k as int]);
        }
        acc = acc + char_len_bytes(v[k]) as u128;
        k = k + 1;
    }
    if acc == b as u128 {
        proof {
            lemma_byte_index_of(s@, k as int);
        }
        Some(k)
    } else {
        proof {
            assert forall|k2: int| 0 <= k2 <= s@.len() implies prefix_bytes(s@, k2) != b by {
                if k2 < k {
                    if k2 < k - 1 {
                        lemma_prefix_grows(s@, k2, k - 1);
                    }
                } else if k2 > k {
                    lemma_prefix_grows(s@, k as int, k2);
                }
            }
        }
        None
    }
}

} // verus!
