//! Byte-wise lexicographic comparison of byte sequences, with verified
//! executable helpers shared by all the string types.

use core::cmp::Ordering;
use vstd::prelude::*;
use vstd::utf8::{
    char_is_scalar, encode_scalar, encode_utf8, has_width_1_encoding, has_width_2_encoding,
    has_width_3_encoding, has_width_4_encoding, is_scalar, last_continuation_byte,
    leading_byte_width_1, leading_byte_width_2, leading_byte_width_3, leading_byte_width_4,
    second_last_continuation_byte, third_last_continuation_byte,
};

verus! {

/// The lexicographic byte-wise ordering of two byte sequences: the first
/// position where the sequences differ decides, and a proper prefix orders
/// before every extension of it.
pub open spec fn lex_cmp_spec(a: Seq<u8>, b: Seq<u8>) -> Ordering
    decreases a.len(),
{
    if a.len() == 0 && b.len() == 0 {
        Ordering::Equal
    } else if a.len() == 0 {
        Ordering::Less
    } else if b.len() == 0 {
        Ordering::Greater
    } else if a[0] < b[0] {
        Ordering::Less
    } else if a[0] > b[0] {
        Ordering::Greater
    } else {
        lex_cmp_spec(a.drop_first(), b.drop_first())
    }
}

/// Two byte sequences compare `Equal` exactly when they are the same sequence.
pub proof fn lemma_lex_cmp_equal_iff(a: Seq<u8>, b: Seq<u8>)
    ensures
        lex_cmp_spec(a, b) == Ordering::Equal <==> a == b,
    decreases a.len(),
{
    if a.len() == 0 && b.len() == 0 {
        assert(a =~= b);
    } else if a.len() == 0 || b.len() == 0 {
        assert(a.len() != b.len());
    } else if a[0] == b[0] {
        lemma_lex_cmp_equal_iff(a.drop_first(), b.drop_first());
        if a.drop_first() == b.drop_first() {
            assert forall|i: int| 0 <= i < a.len() implies a[i] == b[i] by {
                if i > 0 {
                    assert(a[i] == a.drop_first()[i - 1]);
                    assert(b[i] == b.drop_first()[i - 1]);
                }
            }
            assert(a =~= b);
        }
        if a == b {
            assert(a.drop_first() =~= b.drop_first());
        }
    }
}

/// The lexicographic ordering of two character sequences, comparing scalar
/// values position by position.
pub open spec fn lex_cmp_chars(a: Seq<char>, b: Seq<char>) -> Ordering
    decreases a.len(),
{
    if a.len() == 0 && b.len() == 0 {
        Ordering::Equal
    } else if a.len() == 0 {
        Ordering::Less
    } else if b.len() == 0 {
        Ordering::Greater
    } else if (a[0] as u32) < (b[0] as u32) {
        Ordering::Less
    } else if (a[0] as u32) > (b[0] as u32) {
        Ordering::Greater
    } else {
        lex_cmp_chars(a.drop_first(), b.drop_first())
    }
}

/// A shared prefix never decides: comparison continues with the remainders.
pub proof fn lemma_lex_cmp_common_prefix(p: Seq<u8>, r1: Seq<u8>, r2: Seq<u8>)
    ensures
        lex_cmp_spec(p + r1, p + r2) == lex_cmp_spec(r1, r2),
    decreases p.len(),
{
    if p.len() == 0 {
        assert(p + r1 =~= r1);
        assert(p + r2 =~= r2);
    } else {
        assert((p + r1)[0] == p[0]);
        assert((p + r2)[0] == p[0]);
        assert((p + r1).drop_first() =~= p.drop_first() + r1);
        assert((p + r2).drop_first() =~= p.drop_first() + r2);
        lemma_lex_cmp_common_prefix(p.drop_first(), r1, r2);
    }
}

/// The first position where two sequences differ decides the comparison.
pub proof fn lemma_lex_cmp_lt_at(x: Seq<u8>, y: Seq<u8>, k: int)
    requires
        0 <= k < x.len(),
        k < y.len(),
        forall|j: int| 0 <= j < k ==> x[j] == y[j],
        x[k] < y[k],
    ensures
        lex_cmp_spec(x, y) == Ordering::Less,
    decreases k,
{
    if k == 0 {
    } else {
        assert forall|j: int| 0 <= j < k - 1 implies x.drop_first()[j] == y.drop_first()[j] by {
            assert(x.drop_first()[j] == x[j + 1]);
            assert(y.drop_first()[j] == y[j + 1]);
        }
        assert(x.drop_first()[k - 1] == x[k]);
        assert(y.drop_first()[k - 1] == y[k]);
        lemma_lex_cmp_lt_at(x.drop_first(), y.drop_first(), k - 1);
    }
}

// --- UTF-8 encoding preserves the order of scalar values ------------------

proof fn lemma_lead1_range(c: u32)
    by (bit_vector)
    requires
        has_width_1_encoding(c),
    ensures
        leading_byte_width_1(c) <= 0x7f,
{
}

proof fn lemma_lead2_range(c: u32)
    by (bit_vector)
    requires
        has_width_2_encoding(c),
    ensures
        0xc2 <= leading_byte_width_2(c) <= 0xdf,
{
}

proof fn lemma_lead3_range(c: u32)
    by (bit_vector)
    requires
        has_width_3_encoding(c),
    ensures
        0xe0 <= leading_byte_width_3(c) <= 0xef,
{
}

proof fn lemma_lead4_range(c: u32)
    by (bit_vector)
    requires
        has_width_4_encoding(c),
    ensures
        0xf0 <= leading_byte_width_4(c) <= 0xf4,
{
}

proof fn lemma_same_width_1_lt(c1: u32, c2: u32)
    by (bit_vector)
    requires
        has_width_1_encoding(c1),
        has_width_1_encoding(c2),
        c1 < c2,
    ensures
        leading_byte_width_1(c1) < leading_byte_width_1(c2),
{
}

proof fn lemma_same_width_2_lt(c1: u32, c2: u32)
    by (bit_vector)
    requires
        has_width_2_encoding(c1),
        has_width_2_encoding(c2),
        c1 < c2,
    ensures
        leading_byte_width_2(c1) < leading_byte_width_2(c2) || (leading_byte_width_2(c1)
            == leading_byte_width_2(c2) && last_continuation_byte(c1) < last_continuation_byte(
            c2,
        )),
{
}

proof fn lemma_same_width_3_lt(c1: u32, c2: u32)
    by (bit_vector)
    requires
        has_width_3_encoding(c1),
        has_width_3_encoding(c2),
        c1 < c2,
    ensures
        leading_byte_width_3(c1) < leading_byte_width_3(c2) || (leading_byte_width_3(c1)
            == leading_byte_width_3(c2) && second_last_continuation_byte(c1)
            < second_last_continuation_byte(c2)) || (leading_byte_width_3(c1)
            == leading_byte_width_3(c2) && second_last_continuation_byte(c1)
            == second_last_continuation_byte(c2) && last_continuation_byte(c1)
            < last_continuation_byte(c2)),
{
}

proof fn lemma_same_width_4_lt(c1: u32, c2: u32)
    by (bit_vector)
    requires
        has_width_4_encoding(c1),
        has_width_4_encoding(c2),
        c1 < c2,
    ensures
        leading_byte_width_4(c1) < leading_byte_width_4(c2) || (leading_byte_width_4(c1)
            == leading_byte_width_4(c2) && third_last_continuation_byte(c1)
            < third_last_continuation_byte(c2)) || (leading_byte_width_4(c1)
            == leading_byte_width_4(c2) && third_last_continuation_byte(c1)
            == third_last_continuation_byte(c2) && second_last_continuation_byte(c1)
            < second_last_continuation_byte(c2)) || (leading_byte_width_4(c1)
            == leading_byte_width_4(c2) && third_last_continuation_byte(c1)
            == third_last_continuation_byte(c2) && second_last_continuation_byte(c1)
            == second_last_continuation_byte(c2) && last_continuation_byte(c1)
            < last_continuation_byte(c2)),
{
}

// The first byte of a wider encoding is always strictly larger than the
// first byte of a narrower one, so comparing scalars of different widths is
// decided at the leading byte.
proof fn lemma_encode_scalar_lt(c1: u32, c2: u32, r1: Seq<u8>, r2: Seq<u8>)
    requires
        is_scalar(c1),
        is_scalar(c2),
        c1 < c2,
    ensures
        lex_cmp_spec(encode_scalar(c1) + r1, encode_scalar(c2) + r2) == Ordering::Less,
{
    let s1 = encode_scalar(c1);
    let s2 = encode_scalar(c2);
    let x = s1 + r1;
    let y = s2 + r2;
    if has_width_1_encoding(c1) {
        lemma_lead1_range(c1);
        if has_width_1_encoding(c2) {
            lemma_same_width_1_lt(c1, c2);
            lemma_lex_cmp_lt_at(x, y, 0);
        } else if has_width_2_encoding(c2) {
            lemma_lead2_range(c2);
            lemma_lex_cmp_lt_at(x, y, 0);
        } else if has_width_3_encoding(c2) {
            lemma_lead3_range(c2);
            lemma_lex_cmp_lt_at(x, y, 0);
        } else {
            lemma_lead4_range(c2);
            lemma_lex_cmp_lt_at(x, y, 0);
        }
    } else if has_width_2_encoding(c1) {
        lemma_lead2_range(c1);
        if has_width_2_encoding(c2) {
            lemma_same_width_2_lt(c1, c2);
            if leading_byte_width_2(c1) < leading_byte_width_2(c2) {
                lemma_lex_cmp_lt_at(x, y, 0);
            } else {
                lemma_lex_cmp_lt_at(x, y, 1);
            }
        } else if has_width_3_encoding(c2) {
            lemma_lead3_range(c2);
            lemma_lex_cmp_lt_at(x, y, 0);
        } else {
            lemma_lead4_range(c2);
            lemma_lex_cmp_lt_at(x, y, 0);
        }
    } else if has_width_3_encoding(c1) {
        lemma_lead3_range(c1);
        if has_width_3_encoding(c2) {
            lemma_same_width_3_lt(c1, c2);
            if leading_byte_width_3(c1) < leading_byte_width_3(c2) {
                lemma_lex_cmp_lt_at(x, y, 0);
            } else if second_last_continuation_byte(c1) < second_last_continuation_byte(c2) {
                lemma_lex_cmp_lt_at(x, y, 1);
            } else {
                lemma_lex_cmp_lt_at(x, y, 2);
            }
        } else {
            lemma_lead4_range(c2);
            lemma_lex_cmp_lt_at(x, y, 0);
        }
    } else {
        lemma_lead4_range(c1);
        lemma_same_width_4_lt(c1, c2);
        if leading_byte_width_4(c1) < leading_byte_width_4(c2) {
            lemma_lex_cmp_lt_at(x, y, 0);
        } else if third_last_continuation_byte(c1) < third_last_continuation_byte(c2) {
            lemma_lex_cmp_lt_at(x, y, 1);
        } else if second_last_continuation_byte(c1) < second_last_continuation_byte(c2) {
            lemma_lex_cmp_lt_at(x, y, 2);
        } else {
            lemma_lex_cmp_lt_at(x, y, 3);
        }
    }
}

/// UTF-8 encoding preserves lexicographic order: comparing two encoded byte
/// sequences gives exactly the result of comparing the texts character by
/// character.  This is what lets a bounded string order by raw bytes and
/// still order by text.
pub proof fn lemma_utf8_order_preserving(t1: Seq<char>, t2: Seq<char>)
    ensures
        lex_cmp_spec(encode_utf8(t1), encode_utf8(t2)) == lex_cmp_chars(t1, t2),
    decreases t1.len(),
{
    if t1.len() == 0 && t2.len() == 0 {
    } else if t1.len() == 0 {
        char_is_scalar(t2[0]);
        assert(encode_utf8(t1).len() == 0);
        assert(encode_utf8(t2).len() > 0);
    } else if t2.len() == 0 {
        char_is_scalar(t1[0]);
        assert(encode_utf8(t1).len() > 0);
    } else {
        let c1 = t1[0] as u32;
        let c2 = t2[0] as u32;
        char_is_scalar(t1[0]);
        char_is_scalar(t2[0]);
        let r1 = encode_utf8(t1.drop_first());
        let r2 = encode_utf8(t2.drop_first());
        if c1 == c2 {
            lemma_lex_cmp_common_prefix(encode_scalar(c1), r1, r2);
            lemma_utf8_order_preserving(t1.drop_first(), t2.drop_first());
        } else if c1 < c2 {
            lemma_encode_scalar_lt(c1, c2, r1, r2);
        } else {
            lemma_encode_scalar_lt(c2, c1, r2, r1);
            lemma_lex_cmp_antisym(encode_utf8(t2), encode_utf8(t1));
        }
    }
}

/// Swapping the operands swaps `Less` and `Greater`.
pub proof fn lemma_lex_cmp_antisym(a: Seq<u8>, b: Seq<u8>)
    ensures
        lex_cmp_spec(a, b) == Ordering::Less <==> lex_cmp_spec(b, a) == Ordering::Greater,
    decreases a.len(),
{
    if a.len() == 0 || b.len() == 0 {
    } else if a[0] == b[0] {
        lemma_lex_cmp_antisym(a.drop_first(), b.drop_first());
    }
}

/// True exactly when the two byte slices hold the same bytes.
pub(crate) fn bytes_eq(a: &[u8], b: &[u8]) -> (r: bool)
    ensures
        r == (a@ == b@),
{
    if a.len() != b.len() {
        return false;
    }
    let mut i: usize = 0;
    while i < a.len()
        invariant
            a@.len() == b@.len(),
            0 <= i <= a@.len(),
            forall|j: int| 0 <= j < i ==> a@[j] == b@[j],
        decreases a@.len() - i,
    {
        if a[i] != b[i] {
            return false;
        }
        i += 1;
    }
    proof {
        assert(a@ =~= b@);
    }
    true
}

/// Compares two byte slices lexicographically, byte by byte.
pub(crate) fn lex_cmp(a: &[u8], b: &[u8]) -> (r: Ordering)
    ensures
        r == lex_cmp_spec(a@, b@),
{
    let mut i: usize = 0;
    proof {
        assert(a@.skip(0) =~= a@);
        assert(b@.skip(0) =~= b@);
    }
    while i < a.len() && i < b.len()
        invariant
            0 <= i <= a@.len(),
            0 <= i <= b@.len(),
            lex_cmp_spec(a@, b@) == lex_cmp_spec(a@.skip(i as int), b@.skip(i as int)),
        decreases a@.len() - i,
    {
        proof {
            assert(a@.skip(i as int)[0] == a@[i as int]);
            assert(b@.skip(i as int)[0] == b@[i as int]);
        }
        if a[i] < b[i] {
            return Ordering::Less;
        }
        if a[i] > b[i] {
            return Ordering::Greater;
        }
        proof {
            assert(a@.skip(i as int).drop_first() =~= a@.skip(i as int + 1));
            assert(b@.skip(i as int).drop_first() =~= b@.skip(i as int + 1));
        }
        i += 1;
    }
    if a.len() == b.len() {
        proof {
            assert(a@.skip(i as int).len() == 0);
            assert(b@.skip(i as int).len() == 0);
        }
        Ordering::Equal
    } else if a.len() < b.len() {
        proof {
            assert(a@.skip(i as int).len() == 0);
            assert(b@.skip(i as int).len() > 0);
        }
        Ordering::Less
    } else {
        proof {
            assert(b@.skip(i as int).len() == 0);
            assert(a@.skip(i as int).len() > 0);
        }
        Ordering::Greater
    }
}

} // verus!
