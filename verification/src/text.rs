//! Pure specification helpers for character sequences: UTF-8 byte lengths and
//! concatenation of a sequence of text pieces.

use vstd::prelude::*;

verus! {

use vstd::utf8::encode_utf8;

/// Number of bytes the UTF-8 encoding of `s` occupies.
pub open spec fn utf8_len(s: Seq<char>) -> nat {
    encode_utf8(s).len()
}

/// Concatenation of the pieces, in order.
pub open spec fn concat_texts(parts: Seq<Seq<char>>) -> Seq<char>
    decreases parts.len(),
{
    if parts.len() == 0 {
        Seq::empty()
    } else {
        parts[0] + concat_texts(parts.drop_first())
    }
}

/// Total UTF-8 byte length of the pieces, in order.
pub open spec fn utf8_total(parts: Seq<Seq<char>>) -> nat
    decreases parts.len(),
{
    if parts.len() == 0 {
        0
    } else {
        utf8_len(parts[0]) + utf8_total(parts.drop_first())
    }
}

/// UTF-8 encoding distributes over concatenation.
pub proof fn lemma_encode_utf8_concat(a: Seq<char>, b: Seq<char>)
    ensures
        encode_utf8(a + b) == encode_utf8(a) + encode_utf8(b),
    decreases a.len(),
{
    if a.len() == 0 {
        assert(a + b =~= b);
        assert(encode_utf8(a) + encode_utf8(b) =~= encode_utf8(b));
    } else {
        assert((a + b).drop_first() =~= a.drop_first() + b);
        lemma_encode_utf8_concat(a.drop_first(), b);
        assert((a + b)[0] == a[0]);
        assert(vstd::utf8::encode_scalar(a[0] as u32) + (encode_utf8(a.drop_first()) + encode_utf8(
            b,
        )) =~= (vstd::utf8::encode_scalar(a[0] as u32) + encode_utf8(a.drop_first())) + encode_utf8(
            b,
        ));
    }
}

/// The byte length of a concatenation is the sum of the byte lengths.
pub proof fn lemma_utf8_len_concat(a: Seq<char>, b: Seq<char>)
    ensures
        utf8_len(a + b) == utf8_len(a) + utf8_len(b),
{
    lemma_encode_utf8_concat(a, b);
}

/// A non-empty text has a non-empty UTF-8 encoding.
pub proof fn lemma_utf8_len_positive(s: Seq<char>)
    requires
        s.len() > 0,
    ensures
        utf8_len(s) > 0,
{
    let v = s[0] as u32;
    let e = vstd::utf8::encode_scalar(v);
    if vstd::utf8::has_width_1_encoding(v) {
        assert(e.len() == 1);
    } else if vstd::utf8::has_width_2_encoding(v) {
        assert(e.len() == 2);
    } else if vstd::utf8::has_width_3_encoding(v) {
        assert(e.len() == 3);
    } else {
        assert(e.len() == 4);
    }
    assert(encode_utf8(s) == e + encode_utf8(s.drop_first()));
}

/// Appending one more piece extends the concatenation at the end.
pub proof fn lemma_concat_texts_push(parts: Seq<Seq<char>>, x: Seq<char>)
    ensures
        concat_texts(parts.push(x)) == concat_texts(parts) + x,
    decreases parts.len(),
{
    if parts.len() == 0 {
        assert(parts.push(x).drop_first() =~= Seq::<Seq<char>>::empty());
        assert(parts.push(x)[0] == x);
        assert(x + concat_texts(Seq::<Seq<char>>::empty()) =~= x);
        assert(concat_texts(parts) + x =~= x);
    } else {
        assert(parts.push(x).drop_first() =~= parts.drop_first().push(x));
        assert(parts.push(x)[0] == parts[0]);
        lemma_concat_texts_push(parts.drop_first(), x);
        assert(parts[0] + (concat_texts(parts.drop_first()) + x) =~= (parts[0] + concat_texts(
            parts.drop_first(),
        )) + x);
    }
}

/// A concatenation splits into the concatenations of a prefix and the rest.
pub proof fn lemma_concat_texts_split(parts: Seq<Seq<char>>, k: int)
    requires
        0 <= k <= parts.len(),
    ensures
        concat_texts(parts) == concat_texts(parts.subrange(0, k)) + concat_texts(
            parts.subrange(k, parts.len() as int),
        ),
    decreases k,
{
    if k == 0 {
        assert(parts.subrange(0, 0) =~= Seq::<Seq<char>>::empty());
        assert(parts.subrange(0, parts.len() as int) =~= parts);
        assert(concat_texts(Seq::<Seq<char>>::empty()) + concat_texts(parts) =~= concat_texts(
            parts,
        ));
    } else {
        let tail = parts.drop_first();
        lemma_concat_texts_split(tail, k - 1);
        assert(tail.subrange(0, k - 1) =~= parts.subrange(0, k).drop_first());
        assert(tail.subrange(k - 1, tail.len() as int) =~= parts.subrange(k, parts.len() as int));
        assert(parts.subrange(0, k)[0] == parts[0]);
        assert(parts[0] + (concat_texts(parts.subrange(0, k).drop_first()) + concat_texts(
            parts.subrange(k, parts.len() as int),
        )) =~= (parts[0] + concat_texts(parts.subrange(0, k).drop_first())) + concat_texts(
            parts.subrange(k, parts.len() as int),
        ));
    }
}

/// The summed byte lengths of the pieces equal the byte length of their concatenation.
pub proof fn lemma_utf8_total_is_concat_len(parts: Seq<Seq<char>>)
    ensures
        utf8_total(parts) == utf8_len(concat_texts(parts)),
    decreases parts.len(),
{
    if parts.len() == 0 {
        assert(encode_utf8(Seq::<char>::empty()) =~= Seq::<u8>::empty());
    } else {
        lemma_utf8_total_is_concat_len(parts.drop_first());
        lemma_utf8_len_concat(parts[0], concat_texts(parts.drop_first()));
    }
}

/// Peeling one piece off the remaining suffix.
pub proof fn lemma_utf8_total_skip(parts: Seq<Seq<char>>, i: int)
    requires
        0 <= i < parts.len(),
    ensures
        utf8_total(parts.skip(i)) == utf8_len(parts[i]) + utf8_total(parts.skip(i + 1)),
{
    assert(parts.skip(i)[0] == parts[i]);
    assert(parts.skip(i).drop_first() =~= parts.skip(i + 1));
}

} // verus!
