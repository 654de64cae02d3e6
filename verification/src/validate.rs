//! A verified UTF-8 validator: an executable check proved to agree with the
//! mathematical definition of a valid UTF-8 byte sequence.

use vstd::prelude::*;
use vstd::utf8::{
    codepoint_width_1, codepoint_width_2, codepoint_width_3, codepoint_width_4,
    is_continuation_byte, is_leading_byte_width_1, is_leading_byte_width_3,
    is_leading_byte_width_4, not_surrogate, valid_first_scalar, valid_utf8,
};

verus! {

// --- Bit-level facts about single encodings -------------------------------

proof fn lemma_cw1_range(b0: u8)
    by (bit_vector)
    requires
        is_leading_byte_width_1(b0),
    ensures
        codepoint_width_1(b0) <= 0x7f,
{
}

proof fn lemma_cw2_in_range(b0: u8, b1: u8)
    by (bit_vector)
    requires
        0xc2 <= b0 <= 0xdf,
        is_continuation_byte(b1),
    ensures
        0x80 <= codepoint_width_2(b0, b1) <= 0x7ff,
{
}

proof fn lemma_cw2_overlong(b0: u8, b1: u8)
    by (bit_vector)
    requires
        0xc0 <= b0 <= 0xc1,
        is_continuation_byte(b1),
    ensures
        codepoint_width_2(b0, b1) < 0x80,
{
}

proof fn lemma_cw3_in_range(b0: u8, b1: u8, b2: u8)
    by (bit_vector)
    requires
        is_leading_byte_width_3(b0),
        is_continuation_byte(b1),
        is_continuation_byte(b2),
        b0 == 0xe0 ==> b1 >= 0xa0,
        b0 == 0xed ==> b1 < 0xa0,
    ensures
        0x800 <= codepoint_width_3(b0, b1, b2) <= 0xffff,
        not_surrogate(codepoint_width_3(b0, b1, b2)),
{
}

proof fn lemma_cw3_overlong(b0: u8, b1: u8, b2: u8)
    by (bit_vector)
    requires
        b0 == 0xe0,
        is_continuation_byte(b1),
        b1 < 0xa0,
        is_continuation_byte(b2),
    ensures
        codepoint_width_3(b0, b1, b2) < 0x800,
{
}

proof fn lemma_cw3_surrogate(b0: u8, b1: u8, b2: u8)
    by (bit_vector)
    requires
        b0 == 0xed,
        is_continuation_byte(b1),
        b1 >= 0xa0,
        is_continuation_byte(b2),
    ensures
        0xd800 <= codepoint_width_3(b0, b1, b2) <= 0xdfff,
{
}

proof fn lemma_cw4_in_range(b0: u8, b1: u8, b2: u8, b3: u8)
    by (bit_vector)
    requires
        0xf0 <= b0 <= 0xf4,
        is_continuation_byte(b1),
        is_continuation_byte(b2),
        is_continuation_byte(b3),
        b0 == 0xf0 ==> b1 >= 0x90,
        b0 == 0xf4 ==> b1 < 0x90,
    ensures
        0x10000 <= codepoint_width_4(b0, b1, b2, b3) <= 0x10ffff,
{
}

proof fn lemma_cw4_overlong(b0: u8, b1: u8, b2: u8, b3: u8)
    by (bit_vector)
    requires
        b0 == 0xf0,
        is_continuation_byte(b1),
        b1 < 0x90,
        is_continuation_byte(b2),
        is_continuation_byte(b3),
    ensures
        codepoint_width_4(b0, b1, b2, b3) < 0x10000,
{
}

proof fn lemma_cw4_beyond_range(b0: u8, b1: u8, b2: u8, b3: u8)
    by (bit_vector)
    requires
        is_leading_byte_width_4(b0),
        is_continuation_byte(b1),
        is_continuation_byte(b2),
        is_continuation_byte(b3),
        b0 == 0xf4 ==> b1 >= 0x90,
        b0 >= 0xf4,
    ensures
        codepoint_width_4(b0, b1, b2, b3) > 0x10ffff,
{
}

// --- Whole-scalar acceptance at the head of a sequence --------------------

proof fn lemma_accept_width_1(s: Seq<u8>)
    requires
        s.len() >= 1,
        s[0] < 0x80,
    ensures
        valid_first_scalar(s),
        vstd::utf8::length_of_first_scalar(s) == 1,
{
    lemma_cw1_range(s[0]);
}

proof fn lemma_accept_width_2(s: Seq<u8>)
    requires
        s.len() >= 2,
        0xc2 <= s[0] <= 0xdf,
        is_continuation_byte(s[1]),
    ensures
        valid_first_scalar(s),
        vstd::utf8::length_of_first_scalar(s) == 2,
{
    lemma_cw2_in_range(s[0], s[1]);
}

proof fn lemma_accept_width_3(s: Seq<u8>)
    requires
        s.len() >= 3,
        is_leading_byte_width_3(s[0]),
        is_continuation_byte(s[1]),
        is_continuation_byte(s[2]),
        s[0] == 0xe0 ==> s[1] >= 0xa0,
        s[0] == 0xed ==> s[1] < 0xa0,
    ensures
        valid_first_scalar(s),
        vstd::utf8::length_of_first_scalar(s) == 3,
{
    lemma_cw3_in_range(s[0], s[1], s[2]);
}

proof fn lemma_accept_width_4(s: Seq<u8>)
    requires
        s.len() >= 4,
        0xf0 <= s[0] <= 0xf4,
        is_continuation_byte(s[1]),
        is_continuation_byte(s[2]),
        is_continuation_byte(s[3]),
        s[0] == 0xf0 ==> s[1] >= 0x90,
        s[0] == 0xf4 ==> s[1] < 0x90,
    ensures
        valid_first_scalar(s),
        vstd::utf8::length_of_first_scalar(s) == 4,
{
    lemma_cw4_in_range(s[0], s[1], s[2], s[3]);
}

// --- The executable validator ---------------------------------------------

/// Checks whether `b` is a valid UTF-8 byte sequence.  The result is proved
/// to agree with the mathematical definition `valid_utf8` for every input.
pub fn utf8_valid(b: &[u8]) -> (r: bool)
    ensures
        r == valid_utf8(b@),
{
    let n = b.len();
    let mut i: usize = 0;
    proof {
        assert(b@.skip(0) =~= b@);
    }
    while i < n
        invariant
            n == b@.len(),
            0 <= i <= n,
            valid_utf8(b@) <==> valid_utf8(b@.skip(i as int)),
        decreases n - i,
    {
        let ghost s = b@.skip(i as int);
        proof {
            assert(s.len() == n - i);
            assert forall|k: int| 0 <= k < s.len() implies s[k] == b@[i + k] by {}
        }
        let b0 = b[i];
        let w: usize;
        if b0 < 0x80 {
            proof {
                lemma_accept_width_1(s);
            }
            w = 1;
        } else if b0 < 0xc2 {
            // a stray continuation byte, or the overlong leaders 0xc0/0xc1
            proof {
                if 0xc0 <= b0 && s.len() >= 2 && is_continuation_byte(s[1]) {
                    lemma_cw2_overlong(b0, s[1]);
                }
                assert(!valid_first_scalar(s));
            }
            return false;
        } else if b0 < 0xe0 {
            if n - i < 2 || !cont(b[i + 1]) {
                proof {
                    assert(!valid_first_scalar(s));
                }
                return false;
            }
            proof {
                lemma_accept_width_2(s);
            }
            w = 2;
        } else if b0 < 0xf0 {
            if n - i < 3 || !cont(b[i + 1]) || !cont(b[i + 2]) {
                proof {
                    assert(!valid_first_scalar(s));
                }
                return false;
            }
            let b1 = b[i + 1];
            if b0 == 0xe0 && b1 < 0xa0 {
                proof {
                    lemma_cw3_overlong(b0, b1, s[2]);
                    assert(!valid_first_scalar(s));
                }
                return false;
            }
            if b0 == 0xed && b1 >= 0xa0 {
                proof {
                    lemma_cw3_surrogate(b0, b1, s[2]);
                    assert(!valid_first_scalar(s));
                }
                return false;
            }
            proof {
                lemma_accept_width_3(s);
            }
            w = 3;
        } else if b0 < 0xf5 {
            if n - i < 4 || !cont(b[i + 1]) || !cont(b[i + 2]) || !cont(b[i + 3]) {
                proof {
                    assert(!valid_first_scalar(s));
                }
                return false;
            }
            let b1 = b[i + 1];
            if b0 == 0xf0 && b1 < 0x90 {
                proof {
                    lemma_cw4_overlong(b0, b1, s[2], s[3]);
                    assert(!valid_first_scalar(s));
                }
                return false;
            }
            if b0 == 0xf4 && b1 >= 0x90 {
                proof {
                    lemma_cw4_beyond_range(b0, b1, s[2], s[3]);
                    assert(!valid_first_scalar(s));
                }
                return false;
            }
            proof {
                lemma_accept_width_4(s);
            }
            w = 4;
        } else {
            // 0xf5 and above can never lead a scalar within the Unicode range
            proof {
                if is_leading_byte_width_4(b0) && s.len() >= 4 && is_continuation_byte(s[1])
                    && is_continuation_byte(s[2]) && is_continuation_byte(s[3]) {
                    lemma_cw4_beyond_range(b0, s[1], s[2], s[3]);
                }
                assert(!valid_first_scalar(s));
            }
            return false;
        }
        proof {
            assert(valid_first_scalar(s));
            assert(vstd::utf8::length_of_first_scalar(s) == w);
            assert(vstd::utf8::pop_first_scalar(s) =~= b@.skip(i + w));
        }
        i += w;
    }
    proof {
        assert(b@.skip(i as int).len() == 0);
    }
    true
}

/// True exactly when the byte has the continuation pattern `10xxxxxx`.
fn cont(b: u8) -> (r: bool)
    ensures
        r == is_continuation_byte(b),
{
    0x80 <= b && b <= 0xbf
}

} // verus!
