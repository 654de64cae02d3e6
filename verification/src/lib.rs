//! Fixed-capacity, stack-allocated UTF-8 strings.
//!
//! Each string type in this crate holds a length discriminant together with a
//! fixed-size inline byte buffer, so a value never touches the heap and always
//! occupies the same small number of bytes.  The discriminant is an enum with
//! exactly `N + 1` variants, so a value can never record a length above the
//! capacity `N`, and the unused discriminant values give `Option` a niche.
//!
//! Three capacities are provided: [`NanoString`] (3 bytes), [`MicroString`]
//! (7 bytes) and [`MilliString`] (15 bytes).  Every value satisfies two
//! invariants: the recorded length never exceeds the capacity, and the first
//! `length` bytes of the buffer are always valid UTF-8.  Construction from
//! over-long input fails, never truncates.  Equality, ordering and hashing go
//! by the logical text (the first `length` bytes) alone; padding bytes never
//! take part.
//!
//! Values can also be rebuilt from a raw length byte and buffer; that path
//! re-checks both invariants, using a verified UTF-8 validator
//! ([`validate::utf8_valid`]) proved against the mathematical definition of
//! the encoding.

pub mod micro;
pub mod milli;
pub mod nano;
pub mod order;
mod text;
pub mod validate;

pub use micro::{MicroString, MicroStringError, MicroStringLen};
pub use milli::{MilliString, MilliStringError, MilliStringLen};
pub use nano::{NanoString, NanoStringError, NanoStringLen};
