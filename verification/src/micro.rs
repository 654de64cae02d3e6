//! A stack-allocated string holding at most 7 bytes of UTF-8 text.

use core::cmp::Ordering;
use vstd::prelude::*;
use vstd::slice::slice_subrange;
use vstd::std_specs::cmp::{PartialEqSpec, PartialOrdSpec};
use vstd::string::{StringExecFns, StringSliceAdditionalSpecFns};
use vstd::utf8::{decode_utf8, encode_utf8, valid_utf8};

use crate::order::{
    bytes_eq, lemma_lex_cmp_equal_iff, lemma_utf8_order_preserving, lex_cmp, lex_cmp_chars,
    lex_cmp_spec,
};
use crate::text::str_from_bytes;
use crate::validate::utf8_valid;

verus! {

broadcast use vstd::array::group_array_axioms, vstd::utf8::encode_utf8_valid_utf8;

/// Length discriminant for [`MicroString`]: an integer in `0 ..= 7`, kept as
/// an enum so that no value can record a length above the capacity and the
/// raw values `8 ..= 255` stay free as a niche for `Option`.
#[derive(Clone, Copy, Debug, Hash)]
pub enum MicroStringLen {
    L0,
    L1,
    L2,
    L3,
    L4,
    L5,
    L6,
    L7,
}

impl MicroStringLen {
    /// The length this discriminant records.
    pub open spec fn spec_value(self) -> nat {
        match self {
            MicroStringLen::L0 => 0,
            MicroStringLen::L1 => 1,
            MicroStringLen::L2 => 2,
            MicroStringLen::L3 => 3,
            MicroStringLen::L4 => 4,
            MicroStringLen::L5 => 5,
            MicroStringLen::L6 => 6,
            MicroStringLen::L7 => 7,
        }
    }

    /// Checked conversion from a raw byte: `Some` exactly for `0 ..= 7`.
    pub fn from_u8(u: u8) -> (r: Option<Self>)
        ensures
            r is Some <==> u <= 7,
            r matches Some(l) ==> l.spec_value() == u,
    {
        match u {
            0u8 => Some(MicroStringLen::L0),
            1u8 => Some(MicroStringLen::L1),
            2u8 => Some(MicroStringLen::L2),
            3u8 => Some(MicroStringLen::L3),
            4u8 => Some(MicroStringLen::L4),
            5u8 => Some(MicroStringLen::L5),
            6u8 => Some(MicroStringLen::L6),
            7u8 => Some(MicroStringLen::L7),
            _ => None,
        }
    }

    /// Checked conversion from a length in bytes: `Some` exactly for `0 ..= 7`.
    pub fn from_usize(u: usize) -> (r: Option<Self>)
        ensures
            r is Some <==> u <= 7,
            r matches Some(l) ==> l.spec_value() == u,
    {
        if u > 255 {
            return None;
        }
        Self::from_u8(u as u8)
    }

    /// The recorded length, as a buffer index.
    pub fn as_usize(self) -> (r: usize)
        ensures
            r == self.spec_value(),
    {
        match self {
            MicroStringLen::L0 => 0,
            MicroStringLen::L1 => 1,
            MicroStringLen::L2 => 2,
            MicroStringLen::L3 => 3,
            MicroStringLen::L4 => 4,
            MicroStringLen::L5 => 5,
            MicroStringLen::L6 => 6,
            MicroStringLen::L7 => 7,
        }
    }
}

/// The error returned when an input longer than 7 bytes is offered to a
/// [`MicroString`] constructor.  Construction fails closed: over-long input
/// is never truncated.
#[derive(Debug, Clone, Copy, PartialEq, Eq, PartialOrd, Ord, Hash)]
pub struct MicroStringError;

impl MicroStringError {
    /// A human-readable description of the error.
    pub fn message(&self) -> (r: String)
        ensures
            r@ == "expected a string of at most 7 bytes"@,
    {
        String::from_str("expected a string of at most 7 bytes")
    }
}

/// A stack-allocated string which can hold up to 7 UTF-8 encoded bytes.
///
/// The value is a length discriminant plus an inline buffer of exactly
/// 7 bytes: no heap allocation, no indirection.  Its view is the logical
/// byte content, the first `len` bytes of the buffer; the padding after
/// them never takes part in equality, ordering or the text read back.
#[derive(Clone, Copy, Debug, Hash)]
pub struct MicroString {
    len: MicroStringLen,
    bytes: [u8; 7],
}

impl View for MicroString {
    type V = Seq<u8>;

    closed spec fn view(&self) -> Seq<u8> {
        self.bytes@.take(self.len.spec_value() as int)
    }
}

impl MicroString {
    /// Every value holds valid UTF-8 in its first `len` bytes, and zeroes in
    /// the padding after them.
    #[verifier::type_invariant]
    spec fn wf(self) -> bool {
        &&& valid_utf8(self@)
        &&& forall|i: int| self.len.spec_value() <= i < 7 ==> self.bytes@[i] == 0
    }

    /// Builds a value holding the text of `s`.  Succeeds exactly when `s` is
    /// at most 7 bytes long; over-long input fails, it is never truncated.
    pub fn new(s: &str) -> (r: Option<Self>)
        ensures
            r is Some <==> s.spec_bytes().len() <= 7,
            r matches Some(v) ==> v@ == s.spec_bytes() && decode_utf8(v@) == s@,
    {
        let b = s.as_bytes();
        match MicroStringLen::from_usize(b.len()) {
            Some(len) => {
                let mut bytes: [u8; 7] = [0; 7];
                let mut i: usize = 0;
                while i < b.len()
                    invariant
                        b@.len() <= 7,
                        0 <= i <= b@.len(),
                        forall|j: int| 0 <= j < i ==> bytes@[j] == b@[j],
                        forall|j: int| i <= j < 7 ==> bytes@[j] == 0,
                    decreases b@.len() - i,
                {
                    bytes[i] = b[i];
                    i += 1;
                }
                proof {
                    assert(bytes@.take(len.spec_value() as int) =~= b@);
                    vstd::utf8::encode_utf8_decode_utf8(s@);
                }
                Some(MicroString { len, bytes })
            },
            None => None,
        }
    }

    /// Converts `s`, reporting an over-long input as a [`MicroStringError`].
    pub fn try_from_str(s: &str) -> (r: Result<Self, MicroStringError>)
        ensures
            r is Ok <==> s.spec_bytes().len() <= 7,
            r matches Ok(v) ==> v@ == s.spec_bytes() && decode_utf8(v@) == s@,
    {
        match Self::new(s) {
            Some(v) => Ok(v),
            None => Err(MicroStringError),
        }
    }

    /// The empty value: zero length, every buffer byte zero.
    pub fn empty() -> (r: Self)
        ensures
            r@ == Seq::<u8>::empty(),
    {
        let bytes: [u8; 7] = [0; 7];
        proof {
            assert(bytes@.take(0) =~= Seq::<u8>::empty());
        }
        MicroString { len: MicroStringLen::L0, bytes }
    }

    /// Rebuilds a value from a raw length discriminant and buffer, as read
    /// back from a wire or a mapped record.  Validates both invariants:
    /// `Some` exactly when the length is within capacity and the first
    /// `len` buffer bytes are valid UTF-8.  Padding is normalized to zero,
    /// so the raw padding bytes never reach the new value.
    pub fn from_raw(len: u8, buf: [u8; 7]) -> (r: Option<Self>)
        ensures
            r is Some <==> len <= 7 && valid_utf8(buf@.take(len as int)),
            r matches Some(v) ==> v@ == buf@.take(len as int),
    {
        match MicroStringLen::from_u8(len) {
            Some(l) => {
                let n = l.as_usize();
                let sl = slice_subrange(buf.as_slice(), 0, n);
                proof {
                    assert(sl@ =~= buf@.take(len as int));
                }
                if utf8_valid(sl) {
                    let mut bytes: [u8; 7] = [0; 7];
                    let mut i: usize = 0;
                    while i < n
                        invariant
                            n <= 7,
                            n <= buf@.len(),
                            0 <= i <= n,
                            forall|j: int| 0 <= j < i ==> bytes@[j] == buf@[j],
                            forall|j: int| i <= j < 7 ==> bytes@[j] == 0,
                        decreases n - i,
                    {
                        bytes[i] = buf[i];
                        i += 1;
                    }
                    proof {
                        assert(bytes@.take(l.spec_value() as int) =~= buf@.take(len as int));
                    }
                    Some(MicroString { len: l, bytes })
                } else {
                    None
                }
            },
            None => None,
        }
    }

    /// The text held, as a borrowed string view over exactly the first
    /// `len` buffer bytes.
    pub fn as_str(&self) -> (r: &str)
        ensures
            r.spec_bytes() == self@,
            r@ == decode_utf8(self@),
    {
        proof {
            use_type_invariant(&*self);
        }
        let n = self.len.as_usize();
        let sl = slice_subrange(self.bytes.as_slice(), 0, n);
        proof {
            assert(sl@ =~= self@);
        }
        let s = str_from_bytes(sl);
        proof {
            vstd::utf8::encode_utf8_decode_utf8(s@);
        }
        s
    }

    /// The logical content, as a borrowed byte view.
    pub fn as_bytes(&self) -> (r: &[u8])
        ensures
            r@ == self@,
    {
        let n = self.len.as_usize();
        let sl = slice_subrange(self.bytes.as_slice(), 0, n);
        proof {
            assert(sl@ =~= self@);
        }
        sl
    }

    /// The length of the text held, in bytes.
    pub fn len(&self) -> (r: usize)
        ensures
            r == self@.len(),
    {
        self.len.as_usize()
    }

    /// True exactly when no text is held.
    pub fn is_empty(&self) -> (r: bool)
        ensures
            r == (self@.len() == 0),
    {
        self.len() == 0
    }
}

impl Default for MicroString {
    /// The default value is the empty string.
    fn default() -> (r: Self)
        ensures
            r@ == Seq::<u8>::empty(),
    {
        MicroString::empty()
    }
}

impl PartialEq for MicroString {
    /// Equality goes by the logical text alone; padding never takes part.
    fn eq(&self, other: &Self) -> (r: bool) {
        bytes_eq(self.as_bytes(), other.as_bytes())
    }
}

impl Eq for MicroString {}

impl vstd::std_specs::cmp::PartialEqSpecImpl for MicroString {
    open spec fn obeys_eq_spec() -> bool {
        true
    }

    open spec fn eq_spec(&self, other: &Self) -> bool {
        self@ == other@
    }
}

impl PartialOrd for MicroString {
    /// Ordering is lexicographic byte-wise over the logical text.
    fn partial_cmp(&self, other: &Self) -> (r: Option<Ordering>) {
        Some(lex_cmp(self.as_bytes(), other.as_bytes()))
    }
}

impl vstd::std_specs::cmp::PartialOrdSpecImpl for MicroString {
    open spec fn obeys_partial_cmp_spec() -> bool {
        true
    }

    open spec fn partial_cmp_spec(&self, other: &Self) -> Option<Ordering> {
        Some(lex_cmp_spec(self@, other@))
    }
}

/// Round trip: a value built from the text `t` reads back as exactly `t`.
/// Together with the contract of [`MicroString::new`], which stores the bytes
/// `encode_utf8(t)` for every `t` of at most 7 encoded bytes, this says that
/// construction followed by [`MicroString::as_str`] loses nothing.
pub proof fn lemma_micro_round_trip(v: MicroString, t: Seq<char>)
    requires
        v@ == encode_utf8(t),
    ensures
        decode_utf8(v@) == t,
{
    vstd::utf8::encode_utf8_decode_utf8(t);
}

/// Equality ignores padding: two values are equal exactly when their logical
/// byte content is equal, whatever was ever held beyond it.
pub proof fn lemma_micro_eq_ignores_padding(a: MicroString, b: MicroString)
    ensures
        a.eq_spec(&b) <==> a@ == b@,
{
}

/// All empty values are equal: the default, the value built from the empty
/// string, and any other zero-length value compare equal to one another.
pub proof fn lemma_micro_empty_unique(a: MicroString, b: MicroString)
    requires
        a@.len() == 0,
        b@.len() == 0,
    ensures
        a.eq_spec(&b),
        a.eq_spec(&a),
{
    assert(a@ =~= b@);
}

/// Ordering matches text ordering: values built from texts `t1` and `t2`
/// compare exactly as the texts compare, character by character, and are
/// equal exactly when the texts are equal.
pub proof fn lemma_micro_order_matches_text_order(
    a: MicroString,
    b: MicroString,
    t1: Seq<char>,
    t2: Seq<char>,
)
    requires
        a@ == encode_utf8(t1),
        b@ == encode_utf8(t2),
    ensures
        a.partial_cmp_spec(&b) == Some(lex_cmp_chars(t1, t2)),
        a.partial_cmp_spec(&b) == Some(lex_cmp_spec(encode_utf8(t1), encode_utf8(t2))),
        a.eq_spec(&b) <==> t1 == t2,
{
    lemma_utf8_order_preserving(t1, t2);
    vstd::utf8::encode_utf8_decode_utf8(t1);
    vstd::utf8::encode_utf8_decode_utf8(t2);
}

/// The two comparisons agree: values compare `Equal` exactly when they are
/// equal.
pub proof fn lemma_micro_cmp_consistent_with_eq(a: MicroString, b: MicroString)
    ensures
        a.partial_cmp_spec(&b) == Some(Ordering::Equal) <==> a.eq_spec(&b),
{
    lemma_lex_cmp_equal_iff(a@, b@);
}

} // verus!
