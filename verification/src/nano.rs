//! A stack-allocated string holding at most 3 bytes of UTF-8 text.

use core::cmp::Ordering;
use vstd::prelude::*;
use vstd::slice::slice_subrange;
use vstd::std_specs::cmp::{PartialEqSpec, PartialOrdSpec};
use vstd::string::{StringExecFns, StringSliceAdditionalSpecFns};
use vstd::utf8::{decode_utf8, encode_utf8, valid_utf8};

use crate::order::{
    bytes_eq, lemma_lex_cmp_equal_iff, lemma_utf8_order_preserving, lex_cmp, lex_cmp_chars,
    lex_cmp_spec,
};
use crate::text::str_from_bytes;
use crate::validate::utf8_valid;

verus! {

broadcast use vstd::array::group_array_axioms, vstd::utf8::encode_utf8_valid_utf8;

/// Length discriminant for [`NanoString`]: an integer in `0 ..= 3`, kept as
/// an enum so that no value can record a length above the capacity and the
/// raw values `4 ..= 255` stay free as a niche for `Option`.
#[derive(Clone, Copy, Debug, Hash)]
pub enum NanoStringLen {
    L0,
    L1,
    L2,
    L3,
}

impl NanoStringLen {
    /// The length this discriminant records.
    pub open spec fn spec_value(self) -> nat {
        match self {
            NanoStringLen::L0 => 0,
            NanoStringLen::L1 => 1,
            NanoStringLen::L2 => 2,
            NanoStringLen::L3 => 3,
        }
    }

    /// Checked conversion from a raw byte: `Some` exactly for `0 ..= 3`.
    pub fn from_u8(u: u8) -> (r: Option<Self>)
        ensures
            r is Some <==> u <= 3,
            r matches Some(l) ==> l.spec_value() == u,
    {
        match u {
            0u8 => Some(NanoStringLen::L0),
            1u8 => Some(NanoStringLen::L1),
            2u8 => Some(NanoStringLen::L2),
            3u8 => Some(NanoStringLen::L3),
            _ => None,
        }
    }

    /// Checked conversion from a length in bytes: `Some` exactly for `0 ..= 3`.
    pub fn from_usize(u: usize) -> (r: Option<Self>)
        ensures
            r is Some <==> u <= 3,
            r matches Some(l) ==> l.spec_value() == u,
    {
        if u > 255 {
            return None;
        }
        Self::from_u8(u as u8)
    }

    /// The recorded length, as a buffer index.
    pub fn as_usize(self) -> (r: usize)
        ensures
            r == self.spec_value(),
    {
        match self {
            NanoStringLen::L0 => 0,
            NanoStringLen::L1 => 1,
            NanoStringLen::L2 => 2,
            NanoStringLen::L3 => 3,
        }
    }
}

/// The error returned when an input longer than 3 bytes is offered to a
/// [`NanoString`] constructor.  Construction fails closed: over-long input
/// is never truncated.
#[derive(Debug, Clone, Copy, PartialEq, Eq, PartialOrd, Ord, Hash)]
pub struct NanoStringError;

impl NanoStringError {
    /// A human-readable description of the error.
    pub fn message(&self) -> (r: String)
        ensures
            r@ == "expected a string of at most 3 bytes"@,
    {
        String::from_str("expected a string of at most 3 bytes")
    }
}

/// A stack-allocated string which can hold up to 3 UTF-8 encoded bytes.
///
/// The value is a length discriminant plus an inline buffer of exactly
/// 3 bytes: no heap allocation, no indirection.  Its view is the logical
/// byte content, the first `len` bytes of the buffer; the padding after
/// them never takes part in equality, ordering or the text read back.
#[derive(Clone, Copy, Debug, Hash)]
pub struct NanoString {
    len: NanoStringLen,
    bytes: [u8; 3],
}

impl View for NanoString {
    type V = Seq<u8>;

    closed spec fn view(&self) -> Seq<u8> {
        self.bytes@.take(self.len.spec_value() as int)
    }
}

impl NanoString {
    /// Every value holds valid UTF-8 in its first `len` bytes, and zeroes in
    /// the padding after them.
    #[verifier::type_invariant]
    spec fn wf(self) -> bool {
        &&& valid_utf8(self@)
        &&& forall|i: int| self.len.spec_value() <= i < 3 ==> self.bytes@[i] == 0
    }

    /// Builds a value holding the text of `s`.  Succeeds exactly when `s` is
    /// at most 3 bytes long; over-long input fails, it is never truncated.
    pub fn new(s: &str) -> (r: Option<Self>)
        ensures
            r is Some <==> s.spec_bytes().len() <= 3,
            r matches Some(v) ==> v@ == s.spec_bytes() && decode_utf8(v@) == s@,
    {
        let b = s.as_bytes();
        match NanoStringLen::from_usize(b.len()) {
            Some(len) => {
                let mut bytes: [u8; 3] = [0; 3];
                let mut i: usize = 0;
                while i < b.len()
                    invariant
                        b@.len() <= 3,
                        0 <= i <= b@.len(),
                        forall|j: int| 0 <= j < i ==> bytes@[j] == b@[j],
                        forall|j: int| i <= j < 3 ==> bytes@[j] == 0,
                    decreases b@.len() - i,
                {
                    bytes[i] = b[i];
                    i += 1;
                }
                proof {
                    assert(bytes@.take(len.spec_value() as int) =~= b@);
                    vstd::utf8::encode_utf8_decode_utf8(s@);
                }
                Some(NanoString { len, bytes })
            },
            None => None,
        }
    }

    /// Converts `s`, reporting an over-long input as a [`NanoStringError`].
    pub fn try_from_str(s: &str) -> (r: Result<Self, NanoStringError>)
        ensures
            r is Ok <==> s.spec_bytes().len() <= 3,
            r matches Ok(v) ==> v@ == s.spec_bytes() && decode_utf8(v@) == s@,
    {
        match Self::new(s) {
            Some(v) => Ok(v),
            None => Err(NanoStringError),
        }
    }

    /// The empty value: zero length, every buffer byte zero.
    pub fn empty() -> (r: Self)
        ensures
            r@ == Seq::<u8>::empty(),
    {
        let bytes: [u8; 3] = [0; 3];
        proof {
            assert(bytes@.take(0) =~= Seq::<u8>::empty());
        }
        NanoString { len: NanoStringLen::L0, bytes }
    }

    /// Rebuilds a value from a raw length discriminant and buffer, as read
    /// back from a wire or a mapped record.  Validates both invariants:
    /// `Some` exactly when the length is within capacity and the first
    /// `len` buffer bytes are valid UTF-8.  Padding is normalized to zero,
    /// so the raw padding bytes never reach the new value.
    pub fn from_raw(len: u8, buf: [u8; 3]) -> (r: Option<Self>)
        ensures
            r is Some <==> len <= 3 && valid_utf8(buf@.take(len as int)),
            r matches Some(v) ==> v@ == buf@.take(len as int),
    {
        match NanoStringLen::from_u8(len) {
            Some(l) => {
                let n = l.as_usize();
                let sl = slice_subrange(buf.as_slice(), 0, n);
                proof {
                    assert(sl@ =~= buf@.take(len as int));
                }
                if utf8_valid(sl) {
                    let mut bytes: [u8; 3] = [0; 3];
                    let mut i: usize = 0;
                    while i < n
                        invariant
                            n <= 3,
                            n <= buf@.len(),
                            0 <= i <= n,
                            forall|j: int| 0 <= j < i ==> bytes@[j] == buf@[j],
                            forall|j: int| i <= j < 3 ==> bytes@[j] == 0,
                        decreases n - i,
                    {
                        bytes[i] = buf[i];
                        i += 1;
                    }
                    proof {
                        assert(bytes@.take(l.spec_value() as int) =~= buf@.take(len as int));
                    }
                    Some(NanoString { len: l, bytes })
                } else {
                    None
                }
            },
            None => None,
        }
    }

    /// The text held, as a borrowed string view over exactly the first
    /// `len` buffer bytes.
    pub fn as_str(&self) -> (r: &str)
        ensures
            r.spec_bytes() == self@,
            r@ == decode_utf8(self@),
    {
        proof {
            use_type_invariant(&*self);
        }
        let n = self.len.as_usize();
        let sl = slice_subrange(self.bytes.as_slice(), 0, n);
        proof {
            assert(sl@ =~= self@);
        }
        let s = str_from_bytes(sl);
        proof {
            vstd::utf8::encode_utf8_decode_utf8(s@);
        }
        s
    }

    /// The logical content, as a borrowed byte view.
    pub fn as_bytes(&self) -> (r: &[u8])
        ensures
            r@ == self@,
    {
        let n = self.len.as_usize();
        let sl = slice_subrange(self.bytes.as_slice(), 0, n);
        proof {
            assert(sl@ =~= self@);
        }
        sl
    }

    /// The length of the text held, in bytes.
    pub fn len(&self) -> (r: usize)
        ensures
            r == self@.len(),
    {
        self.len.as_usize()
    }

    /// True exactly when no text is held.
    pub fn is_empty(&self) -> (r: bool)
        ensures
            r == (self@.len() == 0),
    {
        self.len() == 0
    }
}

impl Default for NanoString {
    /// The default value is the empty string.
    fn default() -> (r: Self)
        ensures
            r@ == Seq::<u8>::empty(),
    {
        NanoString::empty()
    }
}

impl PartialEq for NanoString {
    /// Equality goes by the logical text alone; padding never takes part.
    fn eq(&self, other: &Self) -> (r: bool) {
        bytes_eq(self.as_bytes(), other.as_bytes())
    }
}

impl Eq for NanoString {}

impl vstd::std_specs::cmp::PartialEqSpecImpl for NanoString {
    open spec fn obeys_eq_spec() -> bool {
        true
    }

    open spec fn eq_spec(&self, other: &Self) -> bool {
        self@ == other@
    }
}

impl PartialOrd for NanoString {
    /// Ordering is lexicographic byte-wise over the logical text.
    fn partial_cmp(&self, other: &Self) -> (r: Option<Ordering>) {
        Some(lex_cmp(self.as_bytes(), other.as_bytes()))
    }
}

impl vstd::std_specs::cmp::PartialOrdSpecImpl for NanoString {
    open spec fn obeys_partial_cmp_spec() -> bool {
        true
    }

    open spec fn partial_cmp_spec(&self, other: &Self) -> Option<Ordering> {
        Some(lex_cmp_spec(self@, other@))
    }
}

/// Round trip: a value built from the text `t` reads back as exactly `t`.
/// Together with the contract of [`NanoString::new`], which stores the bytes
/// `encode_utf8(t)` for every `t` of at most 3 encoded bytes, this says that
/// construction followed by [`NanoString::as_str`] loses nothing.
pub proof fn lemma_nano_round_trip(v: NanoString, t: Seq<char>)
    requires
        v@ == encode_utf8(t),
    ensures
        decode_utf8(v@) == t,
{
    vstd::utf8::encode_utf8_decode_utf8(t);
}

/// Equality ignores padding: two values are equal exactly when their logical
/// byte content is equal, whatever was ever held beyond it.
pub proof fn lemma_nano_eq_ignores_padding(a: NanoString, b: NanoString)
    ensures
        a.eq_spec(&b) <==> a@ == b@,
{
}

/// All empty values are equal: the default, the value built from the empty
/// string, and any other zero-length value compare equal to one another.
pub proof fn lemma_nano_empty_unique(a: NanoString, b: NanoString)
    requires
        a@.len() == 0,
        b@.len() == 0,
    ensures
        a.eq_spec(&b),
        a.eq_spec(&a),
{
    assert(a@ =~= b@);
}

/// Ordering matches text ordering: values built from texts `t1` and `t2`
/// compare exactly as the texts compare, character by character, and are
/// equal exactly when the texts are equal.
pub proof fn lemma_nano_order_matches_text_order(
    a: NanoString,
    b: NanoString,
    t1: Seq<char>,
    t2: Seq<char>,
)
    requires
        a@ == encode_utf8(t1),
        b@ == encode_utf8(t2),
    ensures
        a.partial_cmp_spec(&b) == Some(lex_cmp_chars(t1, t2)),
        a.partial_cmp_spec(&b) == Some(lex_cmp_spec(encode_utf8(t1), encode_utf8(t2))),
        a.eq_spec(&b) <==> t1 == t2,
{
    lemma_utf8_order_preserving(t1, t2);
    vstd::utf8::encode_utf8_decode_utf8(t1);
    vstd::utf8::encode_utf8_decode_utf8(t2);
}

/// The two comparisons agree: values compare `Equal` exactly when they are
/// equal.
pub proof fn lemma_nano_cmp_consistent_with_eq(a: NanoString, b: NanoString)
    ensures
        a.partial_cmp_spec(&b) == Some(Ordering::Equal) <==> a.eq_spec(&b),
{
    lemma_lex_cmp_equal_iff(a@, b@);
}

} // verus!
