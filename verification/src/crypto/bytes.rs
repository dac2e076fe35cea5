//! Byte-string building blocks used by the hash preimages.

use vstd::prelude::*;
use vstd::utf8::{decode_utf8, encode_utf8, encode_utf8_decode_utf8};

verus! {

/// The eight big-endian bytes of `v`.
pub open spec fn u64_be(v: u64) -> Seq<u8> {
    seq![
        (v >> 56u64) as u8,
        (v >> 48u64) as u8,
        (v >> 40u64) as u8,
        (v >> 32u64) as u8,
        (v >> 24u64) as u8,
        (v >> 16u64) as u8,
        (v >> 8u64) as u8,
        v as u8,
    ]
}

/// A text field: its UTF-8 byte length as eight big-endian bytes, then the bytes.
pub open spec fn text_field(s: Seq<char>) -> Seq<u8> {
    u64_be(encode_utf8(s).len() as u64) + encode_utf8(s)
}

/// An optional text field: a zero byte when absent, else a one byte and the text field.
pub open spec fn opt_text_field(s: Option<Seq<char>>) -> Seq<u8> {
    match s {
        None => seq![0u8],
        Some(t) => seq![1u8] + text_field(t),
    }
}

/// Whether the UTF-8 bytes of `s` can be counted in 64 bits.
pub open spec fn text_fits(s: Seq<char>) -> bool {
    encode_utf8(s).len() <= u64::MAX
}

/// Whether an optional text can be counted in 64 bits.
pub open spec fn opt_text_fits(s: Option<Seq<char>>) -> bool {
    match s {
        None => true,
        Some(t) => text_fits(t),
    }
}

/// Two byte strings that agree and start with parts of the same length
/// agree on both parts.
pub proof fn lemma_split(a: Seq<u8>, r1: Seq<u8>, b: Seq<u8>, r2: Seq<u8>)
    requires
        a + r1 == b + r2,
        a.len() == b.len(),
    ensures
        a == b,
        r1 == r2,
{
    assert(a =~= (a + r1).subrange(0, a.len() as int));
    assert(b =~= (b + r2).subrange(0, b.len() as int));
    assert(r1 =~= (a + r1).subrange(a.len() as int, (a + r1).len() as int));
    assert(r2 =~= (b + r2).subrange(b.len() as int, (b + r2).len() as int));
}

/// Different numbers have different big-endian bytes.
pub proof fn lemma_u64_be_injective(x: u64, y: u64)
    requires
        u64_be(x) == u64_be(y),
    ensures
        x == y,
{
    assert(u64_be(x)[0] == u64_be(y)[0]);
    assert(u64_be(x)[1] == u64_be(y)[1]);
    assert(u64_be(x)[2] == u64_be(y)[2]);
    assert(u64_be(x)[3] == u64_be(y)[3]);
    assert(u64_be(x)[4] == u64_be(y)[4]);
    assert(u64_be(x)[5] == u64_be(y)[5]);
    assert(u64_be(x)[6] == u64_be(y)[6]);
    assert(u64_be(x)[7] == u64_be(y)[7]);
    assert(x == y) by (bit_vector)
        requires
            (x >> 56u64) as u8 == (y >> 56u64) as u8,
            (x >> 48u64) as u8 == (y >> 48u64) as u8,
            (x >> 40u64) as u8 == (y >> 40u64) as u8,
            (x >> 32u64) as u8 == (y >> 32u64) as u8,
            (x >> 24u64) as u8 == (y >> 24u64) as u8,
            (x >> 16u64) as u8 == (y >> 16u64) as u8,
            (x >> 8u64) as u8 == (y >> 8u64) as u8,
            x as u8 == y as u8,
    ;
}

/// A number's bytes followed by anything read back as the number and the rest.
pub proof fn lemma_u64_be_prefix(x: u64, y: u64, r1: Seq<u8>, r2: Seq<u8>)
    requires
        u64_be(x) + r1 == u64_be(y) + r2,
    ensures
        x == y,
        r1 == r2,
{
    lemma_split(u64_be(x), r1, u64_be(y), r2);
    lemma_u64_be_injective(x, y);
}

/// A text field followed by anything reads back as the text and the rest.
pub proof fn lemma_text_prefix(s1: Seq<char>, s2: Seq<char>, r1: Seq<u8>, r2: Seq<u8>)
    requires
        text_field(s1) + r1 == text_field(s2) + r2,
        text_fits(s1),
        text_fits(s2),
    ensures
        s1 == s2,
        r1 == r2,
{
    let e1 = encode_utf8(s1);
    let e2 = encode_utf8(s2);
    assert(text_field(s1) + r1 =~= u64_be(e1.len() as u64) + (e1 + r1));
    assert(text_field(s2) + r2 =~= u64_be(e2.len() as u64) + (e2 + r2));
    lemma_u64_be_prefix(e1.len() as u64, e2.len() as u64, e1 + r1, e2 + r2);
    lemma_split(e1, r1, e2, r2);
    encode_utf8_decode_utf8(s1);
    encode_utf8_decode_utf8(s2);
}

/// An optional text field followed by anything reads back as the optional
/// text and the rest.
pub proof fn lemma_opt_text_prefix(
    s1: Option<Seq<char>>,
    s2: Option<Seq<char>>,
    r1: Seq<u8>,
    r2: Seq<u8>,
)
    requires
        opt_text_field(s1) + r1 == opt_text_field(s2) + r2,
        opt_text_fits(s1),
        opt_text_fits(s2),
    ensures
        s1 == s2,
        r1 == r2,
{
    let t1: Seq<u8> = match s1 {
        None => Seq::empty(),
        Some(t) => text_field(t),
    };
    let t2: Seq<u8> = match s2 {
        None => Seq::empty(),
        Some(t) => text_field(t),
    };
    let g1: u8 = if s1 is Some { 1 } else { 0 };
    let g2: u8 = if s2 is Some { 1 } else { 0 };
    assert(opt_text_field(s1) + r1 =~= seq![g1] + (t1 + r1));
    assert(opt_text_field(s2) + r2 =~= seq![g2] + (t2 + r2));
    lemma_split(seq![g1], t1 + r1, seq![g2], t2 + r2);
    assert(seq![g1][0] == seq![g2][0]);
    match s1 {
        None => {
            assert(t1 + r1 =~= r1);
            assert(t2 + r2 =~= r2);
        },
        Some(a) => {
            let b = s2->Some_0;
            lemma_text_prefix(a, b, r1, r2);
        },
    }
}

/// Appends `src` to `out`.
pub fn push_bytes(out: &mut Vec<u8>, src: &[u8])
    ensures
        final(out)@ == old(out)@ + src@,
{
    let n = src.len();
    let mut i: usize = 0;
    while i < n
        invariant
            n == src@.len(),
            i <= n,
            out@ == old(out)@ + src@.subrange(0, i as int),
        decreases n - i,
    {
        out.push(src[i]);
        i = i + 1;
        assert(src@.subrange(0, i as int) == src@.subrange(0, i - 1) + seq![src@[i - 1]]);
    }
    assert(src@.subrange(0, n as int) == src@);
}

/// Appends the big-endian bytes of `v` to `out`.
pub fn push_u64_be(out: &mut Vec<u8>, v: u64)
    ensures
        final(out)@ == old(out)@ + u64_be(v),
{
    out.push((v >> 56u64) as u8);
    out.push((v >> 48u64) as u8);
    out.push((v >> 40u64) as u8);
    out.push((v >> 32u64) as u8);
    out.push((v >> 24u64) as u8);
    out.push((v >> 16u64) as u8);
    out.push((v >> 8u64) as u8);
    out.push(v as u8);
    assert(final(out)@ =~= old(out)@ + u64_be(v));
}

/// Appends the text field of `s` to `out`.
pub fn push_text(out: &mut Vec<u8>, s: &str)
    ensures
        final(out)@ == old(out)@ + text_field(s@),
{
    let b = s.as_bytes();
    push_u64_be(out, b.len() as u64);
    push_bytes(out, b);
    assert(final(out)@ =~= old(out)@ + text_field(s@));
}

/// Appends the optional text field of `s` to `out`.
pub fn push_opt_text(out: &mut Vec<u8>, s: &Option<String>)
    ensures
        final(out)@ == old(out)@ + opt_text_field(
            match s {
                None => None,
                Some(t) => Some(t@),
            },
        ),
{
    match s {
        None => {
            out.push(0u8);
        },
        Some(t) => {
            out.push(1u8);
            push_text(out, t.as_str());
        },
    }
    assert(final(out)@ =~= old(out)@ + opt_text_field(
        match s {
            None => None,
            Some(t) => Some(t@),
        },
    ));
}

} // verus!
