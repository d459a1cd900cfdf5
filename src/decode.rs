//! The decoding capability that the value trees are built on.
use vstd::prelude::*;

verus! {

/// Why a byte buffer could not be decoded into a value.
#[derive(Clone, Copy, Debug, PartialEq, Eq, Structural)]
pub enum DecodeError {
    /// A choice was asked for among no alternatives.
    EmptyChoose,
    /// There were too few bytes for the value.
    NotEnoughData,
    /// The bytes do not encode any value of the type: a recoverable failure,
    /// met by drawing fresh bytes.
    IncorrectFormat,
    /// A failure kind that has no name of its own here.
    Other,
}

/// The byte at `i`, or 0 past the end of `b`.
pub open spec fn byte_or_zero(b: Seq<u8>, i: int) -> nat {
    if 0 <= i < b.len() {
        b[i] as nat
    } else {
        0
    }
}

/// The little-endian number held in the `n` bytes of `b` from `i` on, where a
/// byte past the end of `b` counts as 0.
pub open spec fn le_from(b: Seq<u8>, i: int, n: nat) -> nat
    decreases n,
{
    if n == 0 {
        0
    } else {
        byte_or_zero(b, i) + 256 * le_from(b, i + 1, (n - 1) as nat)
    }
}

/// The little-endian number in the first `n` bytes of `b`, zero-padded.
pub open spec fn le_padded(b: Seq<u8>, n: nat) -> nat {
    le_from(b, 0, n)
}

/// A type whose values are decoded from a byte buffer, and own all their data:
/// a decoded value keeps nothing of the buffer it came from.
pub trait ArbInterop: Sized {
    /// What decoding `bytes` gives: a function of the bytes alone.
    spec fn decoded(bytes: Seq<u8>) -> Result<Self, DecodeError>;

    /// The bounds on the number of bytes that decoding reads, at nesting
    /// depth `depth`.
    spec fn hint(depth: usize) -> (usize, Option<usize>);

    /// Decodes a value from `bytes`.
    fn decode(bytes: &[u8]) -> (r: Result<Self, DecodeError>)
        ensures
            r == Self::decoded(bytes@),
    ;

    /// How many bytes decoding reads at least, and at most if that is bounded.
    fn size_hint(depth: usize) -> (r: (usize, Option<usize>))
        ensures
            r == Self::hint(depth),
    ;

    /// An independent copy of the value.
    fn duplicate(&self) -> (r: Self)
        ensures
            r == *self,
    ;
}

#[verifier::external_type_specification]
#[verifier::external_body]
pub struct ExArbitraryError(arbitrary::Error);

/// Relies on the variants of `arbitrary::Error`, each mapped to the variant of
/// the same name.
#[verifier::external_body]
fn decode_error_of(e: arbitrary::Error) -> DecodeError {
    match e {
        arbitrary::Error::EmptyChoose => DecodeError::EmptyChoose,
        arbitrary::Error::NotEnoughData => DecodeError::NotEnoughData,
        arbitrary::Error::IncorrectFormat => DecodeError::IncorrectFormat,
        _ => DecodeError::Other,
    }
}

/// Relies on `<u8 as arbitrary::Arbitrary>::arbitrary`: it reads the first byte,
/// 0 where there is none, and does not fail.
#[verifier::external_body]
fn arbitrary_u8(bytes: &[u8]) -> (r: Result<u8, arbitrary::Error>)
    ensures
        r is Ok,
        r->Ok_0 == le_padded(bytes@, 1) as u8,
{
    <u8 as arbitrary::Arbitrary>::arbitrary(&mut arbitrary::Unstructured::new(bytes))
}

/// Relies on `<u8 as arbitrary::Arbitrary>::size_hint`: exactly one byte.
#[verifier::external_body]
fn arbitrary_u8_hint(depth: usize) -> (r: (usize, Option<usize>))
    ensures
        r.0 == 1,
        r.1 == Some(1usize),
{
    <u8 as arbitrary::Arbitrary>::size_hint(depth)
}

impl ArbInterop for u8 {
    open spec fn decoded(bytes: Seq<u8>) -> Result<u8, DecodeError> {
        Ok(le_padded(bytes, 1) as u8)
    }

    open spec fn hint(depth: usize) -> (usize, Option<usize>) {
        (1, Some(1))
    }

    fn decode(bytes: &[u8]) -> (r: Result<u8, DecodeError>) {
        match arbitrary_u8(bytes) {
            Ok(v) => Ok(v),
            Err(e) => Err(decode_error_of(e)),
        }
    }

    fn size_hint(depth: usize) -> (r: (usize, Option<usize>)) {
        arbitrary_u8_hint(depth)
    }

    fn duplicate(&self) -> (r: u8) {
        *self
    }
}

/// Relies on `<u16 as arbitrary::Arbitrary>::arbitrary`: it reads the first 2
/// bytes as a little-endian number, with 0 for each missing byte, and does not
/// fail.
#[verifier::external_body]
fn arbitrary_u16(bytes: &[u8]) -> (r: Result<u16, arbitrary::Error>)
    ensures
        r is Ok,
        r->Ok_0 == le_padded(bytes@, 2) as u16,
{
    <u16 as arbitrary::Arbitrary>::arbitrary(&mut arbitrary::Unstructured::new(bytes))
}

/// Relies on `<u16 as arbitrary::Arbitrary>::size_hint`: exactly 2 bytes.
#[verifier::external_body]
fn arbitrary_u16_hint(depth: usize) -> (r: (usize, Option<usize>))
    ensures
        r.0 == 2,
        r.1 == Some(2usize),
{
    <u16 as arbitrary::Arbitrary>::size_hint(depth)
}

impl ArbInterop for u16 {
    open spec fn decoded(bytes: Seq<u8>) -> Result<u16, DecodeError> {
        Ok(le_padded(bytes, 2) as u16)
    }

    open spec fn hint(depth: usize) -> (usize, Option<usize>) {
        (2, Some(2))
    }

    fn decode(bytes: &[u8]) -> (r: Result<u16, DecodeError>) {
        match arbitrary_u16(bytes) {
            Ok(v) => Ok(v),
            Err(e) => Err(decode_error_of(e)),
        }
    }

    fn size_hint(depth: usize) -> (r: (usize, Option<usize>)) {
        arbitrary_u16_hint(depth)
    }

    fn duplicate(&self) -> (r: u16) {
        *self
    }
}

/// Relies on `<u32 as arbitrary::Arbitrary>::arbitrary`: it reads the first 4
/// bytes as a little-endian number, with 0 for each missing byte, and does not
/// fail.
#[verifier::external_body]
fn arbitrary_u32(bytes: &[u8]) -> (r: Result<u32, arbitrary::Error>)
    ensures
        r is Ok,
        r->Ok_0 == le_padded(bytes@, 4) as u32,
{
    <u32 as arbitrary::Arbitrary>::arbitrary(&mut arbitrary::Unstructured::new(bytes))
}

/// Relies on `<u32 as arbitrary::Arbitrary>::size_hint`: exactly 4 bytes.
#[verifier::external_body]
fn arbitrary_u32_hint(depth: usize) -> (r: (usize, Option<usize>))
    ensures
        r.0 == 4,
        r.1 == Some(4usize),
{
    <u32 as arbitrary::Arbitrary>::size_hint(depth)
}

impl ArbInterop for u32 {
    open spec fn decoded(bytes: Seq<u8>) -> Result<u32, DecodeError> {
        Ok(le_padded(bytes, 4) as u32)
    }

    open spec fn hint(depth: usize) -> (usize, Option<usize>) {
        (4, Some(4))
    }

    fn decode(bytes: &[u8]) -> (r: Result<u32, DecodeError>) {
        match arbitrary_u32(bytes) {
            Ok(v) => Ok(v),
            Err(e) => Err(decode_error_of(e)),
        }
    }

    fn size_hint(depth: usize) -> (r: (usize, Option<usize>)) {
        arbitrary_u32_hint(depth)
    }

    fn duplicate(&self) -> (r: u32) {
        *self
    }
}

/// Relies on `<u64 as arbitrary::Arbitrary>::arbitrary`: it reads the first 8
/// bytes as a little-endian number, with 0 for each missing byte, and does not
/// fail.
#[verifier::external_body]
fn arbitrary_u64(bytes: &[u8]) -> (r: Result<u64, arbitrary::Error>)
    ensures
        r is Ok,
        r->Ok_0 == le_padded(bytes@, 8) as u64,
{
    <u64 as arbitrary::Arbitrary>::arbitrary(&mut arbitrary::Unstructured::new(bytes))
}

/// Relies on `<u64 as arbitrary::Arbitrary>::size_hint`: exactly 8 bytes.
#[verifier::external_body]
fn arbitrary_u64_hint(depth: usize) -> (r: (usize, Option<usize>))
    ensures
        r.0 == 8,
        r.1 == Some(8usize),
{
    <u64 as arbitrary::Arbitrary>::size_hint(depth)
}

impl ArbInterop for u64 {
    open spec fn decoded(bytes: Seq<u8>) -> Result<u64, DecodeError> {
        Ok(le_padded(bytes, 8) as u64)
    }

    open spec fn hint(depth: usize) -> (usize, Option<usize>) {
        (8, Some(8))
    }

    fn decode(bytes: &[u8]) -> (r: Result<u64, DecodeError>) {
        match arbitrary_u64(bytes) {
            Ok(v) => Ok(v),
            Err(e) => Err(decode_error_of(e)),
        }
    }

    fn size_hint(depth: usize) -> (r: (usize, Option<usize>)) {
        arbitrary_u64_hint(depth)
    }

    fn duplicate(&self) -> (r: u64) {
        *self
    }
}

/// Relies on `<bool as arbitrary::Arbitrary>::arbitrary`: the lowest bit of the
/// first byte, false where there is none; it does not fail.
#[verifier::external_body]
fn arbitrary_bool(bytes: &[u8]) -> (r: Result<bool, arbitrary::Error>)
    ensures
        r is Ok,
        r->Ok_0 == (le_padded(bytes@, 1) % 2 == 1),
{
    <bool as arbitrary::Arbitrary>::arbitrary(&mut arbitrary::Unstructured::new(bytes))
}

/// Relies on `<bool as arbitrary::Arbitrary>::size_hint`: exactly one byte.
#[verifier::external_body]
fn arbitrary_bool_hint(depth: usize) -> (r: (usize, Option<usize>))
    ensures
        r.0 == 1,
        r.1 == Some(1usize),
{
    <bool as arbitrary::Arbitrary>::size_hint(depth)
}

impl ArbInterop for bool {
    open spec fn decoded(bytes: Seq<u8>) -> Result<bool, DecodeError> {
        Ok(le_padded(bytes, 1) % 2 == 1)
    }

    open spec fn hint(depth: usize) -> (usize, Option<usize>) {
        (1, Some(1))
    }

    fn decode(bytes: &[u8]) -> (r: Result<bool, DecodeError>) {
        match arbitrary_bool(bytes) {
            Ok(v) => Ok(v),
            Err(e) => Err(decode_error_of(e)),
        }
    }

    fn size_hint(depth: usize) -> (r: (usize, Option<usize>)) {
        arbitrary_bool_hint(depth)
    }

    fn duplicate(&self) -> (r: bool) {
        *self
    }
}

} // verus!
