//! How the separator of a domain name shows in the UTF-8 octets of a text.

use vstd::prelude::*;
use vstd::utf8::*;
use crate::segments::{first_sep, split, lemma_first_sep, lemma_first_sep_unique};

verus! {

/// The character that separates the labels of a written domain name.
pub open spec fn dot() -> char {
    '.'
}

/// The octet that encodes the separator.
pub const DOT: u8 = 0x2E;

/// The encoding of every piece of a list of texts.
pub open spec fn encode_each(parts: Seq<Seq<char>>) -> Seq<Seq<u8>> {
    Seq::new(parts.len(), |i: int| encode_utf8(parts[i]))
}

/// The encoding of one character holds the separator octet only where the
/// character is the separator, and is then that octet alone.
pub proof fn lemma_scalar_dot(c: char)
    ensures
        encode_scalar(c as u32).len() >= 1,
        c == dot() ==> encode_scalar(c as u32) == seq![DOT],
        c != dot() ==> !encode_scalar(c as u32).contains(DOT),
{
    let v = c as u32;
    let e = encode_scalar(v);
    char_is_scalar(c);
    assert(dot() as u32 == 0x2E);
    if has_width_1_encoding(v) {
        assert((v & 0x7F) as u8 == v) by (bit_vector)
            requires
                v <= 0x7F,
        ;
        if c == dot() {
            assert(e =~= seq![DOT]);
        } else {
            if v == 0x2E {
                char_u32_cast(c, v);
                char_u32_cast(dot(), v);
            }
            assert(e[0] != DOT);
        }
    } else {
        assert(forall|y: u8| 0xC0u8 | y >= 0x80) by (bit_vector);
        assert(forall|y: u8| 0xE0u8 | y >= 0x80) by (bit_vector);
        assert(forall|y: u8| 0xF0u8 | y >= 0x80) by (bit_vector);
        assert(forall|y: u8| 0x80u8 | y >= 0x80) by (bit_vector);
        assert forall|i: int| 0 <= i < e.len() implies e[i] != DOT by {
            assert(e[i] >= 0x80);
        }
    }
}

/// The text that is one separator encodes as the one separator octet.
pub proof fn lemma_encode_one_dot()
    ensures
        encode_utf8(seq![dot()]) == seq![DOT],
{
    let one = seq![dot()];
    lemma_scalar_dot(dot());
    assert(one.drop_first() =~= Seq::<char>::empty());
    assert(encode_utf8(one.drop_first()) =~= Seq::<u8>::empty());
    assert(encode_utf8(one) =~= encode_scalar(one[0] as u32) + encode_utf8(one.drop_first()));
}

/// The encoding of a text followed by another is the two encodings one
/// after the other.
pub proof fn lemma_encode_concat(a: Seq<char>, b: Seq<char>)
    ensures
        encode_utf8(a + b) == encode_utf8(a) + encode_utf8(b),
    decreases a.len(),
{
    if a.len() == 0 {
        assert(a + b =~= b);
        assert(encode_utf8(a) + encode_utf8(b) =~= encode_utf8(b));
    } else {
        lemma_encode_concat(a.drop_first(), b);
        assert((a + b).drop_first() =~= a.drop_first() + b);
        assert(encode_utf8(a + b) =~= encode_utf8(a) + encode_utf8(b));
    }
}

/// Two texts with the same encoding are the same text.
pub proof fn lemma_encode_injective(a: Seq<char>, b: Seq<char>)
    requires
        encode_utf8(a) == encode_utf8(b),
    ensures
        a == b,
{
    encode_utf8_decode_utf8(a);
    encode_utf8_decode_utf8(b);
}

/// The separator octet occurs in the encoding of a text exactly where the
/// separator character occurs in the text.
pub proof fn lemma_encode_dot(t: Seq<char>)
    ensures
        encode_utf8(t).contains(DOT) <==> t.contains(dot()),
        first_sep(t, dot()) == t.len() <==> first_sep(encode_utf8(t), DOT) == encode_utf8(t).len(),
    decreases t.len(),
{
    lemma_first_sep(t, dot());
    lemma_first_sep(encode_utf8(t), DOT);
    if t.len() == 0 {
    } else {
        let r = t.drop_first();
        let h = encode_scalar(t[0] as u32);
        let e = encode_utf8(t);
        lemma_encode_dot(r);
        lemma_scalar_dot(t[0]);
        if t.contains(dot()) {
            let j = choose|j: int| 0 <= j < t.len() && t[j] == dot();
            if j == 0 {
                assert(e[0] == DOT);
            } else {
                assert(r[j - 1] == dot());
                let m = choose|m: int| 0 <= m < encode_utf8(r).len() && encode_utf8(r)[m] == DOT;
                assert(e[h.len() + m] == DOT);
            }
        }
        if e.contains(DOT) {
            let m = choose|m: int| 0 <= m < e.len() && e[m] == DOT;
            if m < h.len() {
                assert(h[m] == DOT);
                assert(t[0] == dot());
            } else {
                assert(encode_utf8(r)[m - h.len()] == DOT);
                let j = choose|j: int| 0 <= j < r.len() && r[j] == dot();
                assert(t[j + 1] == dot());
            }
        }
    }
}

/// Where a text is cut at its first separator, its encoding is cut at its
/// first separator octet: the part before encodes the part before, and the
/// part after encodes the part after.
pub proof fn lemma_encode_cut(t: Seq<char>)
    ensures
        first_sep(t, dot()) == t.len() <==> first_sep(encode_utf8(t), DOT) == encode_utf8(t).len(),
        first_sep(t, dot()) < t.len() ==> {
            let k = first_sep(t, dot()) as int;
            let m = first_sep(encode_utf8(t), DOT) as int;
            &&& m < encode_utf8(t).len()
            &&& encode_utf8(t).take(m) == encode_utf8(t.take(k))
            &&& encode_utf8(t).skip(m + 1) == encode_utf8(t.skip(k + 1))
        },
{
    let e = encode_utf8(t);
    let k = first_sep(t, dot()) as int;
    lemma_first_sep(t, dot());
    lemma_encode_dot(t);
    if k < t.len() {
        let head = t.take(k);
        let rest = t.skip(k + 1);
        assert(t =~= head + (seq![dot()] + rest));
        lemma_encode_concat(head, seq![dot()] + rest);
        lemma_encode_concat(seq![dot()], rest);
        lemma_encode_one_dot();
        let eh = encode_utf8(head);
        let er = encode_utf8(rest);
        assert(e =~= eh + (seq![DOT] + er));
        if head.contains(dot()) {
            let j = choose|j: int| 0 <= j < head.len() && head[j] == dot();
            assert(t[j] == dot());
        }
        lemma_encode_dot(head);
        lemma_first_sep(eh, DOT);
        let m = eh.len() as int;
        assert forall|i: int| 0 <= i < m implies e[i] != DOT by {
            assert(e[i] == eh[i]);
            if eh[i] == DOT {
                assert(eh.contains(DOT));
            }
        }
        assert(e[m] == DOT);
        lemma_first_sep_unique(e, DOT, m);
        assert(e.take(m) =~= eh);
        assert(e.skip(m + 1) =~= er);
    }
}

/// Splitting the encoding of a text at the separator octet gives the
/// encodings of the pieces of the text split at the separator character.
pub proof fn lemma_split_encode(t: Seq<char>)
    ensures
        split(encode_utf8(t), DOT) == encode_each(split(t, dot())),
    decreases t.len(),
{
    let e = encode_utf8(t);
    let k = first_sep(t, dot()) as int;
    lemma_first_sep(t, dot());
    lemma_encode_cut(t);
    if k < t.len() {
        lemma_split_encode(t.skip(k + 1));
    }
    assert(split(e, DOT) =~= encode_each(split(t, dot())));
}

/// A separator octet in a well-formed encoding begins a character, and the
/// octet after it begins the next one or ends the text.
pub proof fn lemma_dot_boundary(bytes: Seq<u8>, k: int)
    requires
        valid_utf8(bytes),
        0 <= k < bytes.len(),
        bytes[k] == DOT,
    ensures
        is_char_boundary(bytes, k),
        valid_utf8(bytes.subrange(k, bytes.len() as int)),
        is_char_boundary(bytes.subrange(k, bytes.len() as int), 1),
{
    is_char_boundary_iff_not_is_continuation_byte(bytes, k);
    valid_utf8_split(bytes, k);
    let tail = bytes.subrange(k, bytes.len() as int);
    assert(tail[0] == DOT);
    assert(length_of_first_scalar(tail) == 1);
    reveal_with_fuel(is_char_boundary, 2);
}

/// Finds the first separator octet: its position, or the length of `bytes`
/// where there is none.
pub fn find_dot(bytes: &[u8]) -> (k: usize)
    ensures
        k == first_sep(bytes@, DOT),
        k <= bytes@.len(),
{
    let n = bytes.len();
    let mut k: usize = 0;
    while k < n && bytes[k] != DOT
        invariant
            n == bytes@.len(),
            k <= n,
            forall|i: int| 0 <= i < k ==> bytes@[i] != DOT,
        decreases n - k,
    {
        k += 1;
    }
    proof {
        lemma_first_sep_unique(bytes@, DOT, k as int);
    }
    k
}

} // verus!
