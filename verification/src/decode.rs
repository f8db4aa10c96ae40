//! Errors raised while decoding a WebAssembly binary.
use crate::reader::{lemma_unsigned_bound, spec_unsigned, Reader, SpecRes};
use vstd::arithmetic::power2::*;
use core::str::Utf8Error;
use vstd::prelude::*;
use vstd::string::*;
use vstd::utf8::*;

verus! {

#[verifier::external_type_specification]
#[verifier::external_body]
pub struct ExUtf8Error(Utf8Error);

/// `Utf8Error` is `Copy`: its derived `clone` hands back an identical value.
pub assume_specification[ <Utf8Error as Clone>::clone ](e: &Utf8Error) -> (r: Utf8Error)
    ensures
        r == *e,
;

/// The error that `core::str::from_utf8` reports for a byte sequence that is
/// not UTF-8 (where the valid prefix ends, and how long the bad sequence is).
pub uninterp spec fn spec_utf8_error(bytes: Seq<u8>) -> Utf8Error;

/// `core::str::from_utf8`: it succeeds exactly on valid UTF-8 (vstd's
/// `valid_utf8`) and then returns a `str` over the same bytes; otherwise it
/// returns the error for those bytes, which is left unstated beyond being a
/// function of the bytes.
#[verifier::external_body]
pub fn str_from_utf8(bytes: &[u8]) -> (res: Result<&str, Utf8Error>)
    ensures
        res is Ok <==> valid_utf8(bytes@),
        res matches Ok(s) ==> s.spec_bytes() == bytes@,
        res matches Err(e) ==> e == spec_utf8_error(bytes@),
{
    core::str::from_utf8(bytes)
}

/// Why a byte sequence is not a well-formed module (or module part).
#[allow(inconsistent_fields)]
#[derive(Debug, Clone, PartialEq, Eq)]
pub enum DecodeError {
    UnexpectedEndOfBytes,
    InvalidMagic { value: [u8; 4] },
    InvalidVersion { value: [u8; 4] },
    InvalidSectionId { value: u8 },
    InvalidImportDescTag { value: u8 },
    InvalidExportDescTag { value: u8 },
    InvalidLimitsFlag { value: u8 },
    InvalidValType { value: u8 },
    InvalidMutabilityFlag { value: u8 },
    InvalidElemType { value: u8 },
    InvalidFuncTypeTag { value: u8 },
    InvalidMemoryCount { value: usize },
    InvalidMemIdx { value: u32 },
    InvalidTableIdx { value: u32 },
    InvalidOpcode { value: u8 },
    InvalidSectionOrder { last_section_id: u8, current_section_id: u8 },
    InvalidSectionSize { section_id: u8, expected_size: usize, actual_size: usize },
    InvalidUtf8(Utf8Error),
    InvalidResultArity { value: usize },
    UnexpectedExpr,
    MalformedInteger,
    FullBytes,
}

} // verus!

verus! {

/// A part of a module with a binary encoding: `spec_decode` states what the
/// bytes at a position stand for, and `decode` reads exactly that.
pub trait Decode: Sized + View {
    /// The value encoded at `pos` and the position after it, or the error
    /// that decoding reports there.
    spec fn spec_decode(data: Seq<u8>, pos: int) -> SpecRes<<Self as View>::V>;

    /// Decoding never moves backwards and never passes the end.
    proof fn lemma_decode_progress(data: Seq<u8>, pos: int)
        ensures
            Self::spec_decode(data, pos) matches Ok((_, p)) ==> pos < p <= data.len(),
    ;

    /// Reads one value from `reader`.
    fn decode(reader: &mut Reader) -> (res: Result<Self, DecodeError>)
        requires
            old(reader).wf(),
        ensures
            final(reader).wf(),
            final(reader).bytes() == old(reader).bytes(),
            decoded(Self::spec_decode(old(reader).bytes(), old(reader).pos()), res, final(reader).pos()),
    ;
}

/// The exec outcome `res` (with the reader ending at `end`) is the spec
/// outcome `spec`: the same value (by view) at the same end, or the same error.
pub open spec fn decoded<T: View>(spec: SpecRes<T::V>, res: Result<T, DecodeError>, end: int) -> bool {
    match spec {
        Ok((v, p)) => res matches Ok(r) && r@ == v && end == p,
        Err(e) => res == Err::<T, DecodeError>(e),
    }
}

/// `n` consecutive values of type `T` starting at `pos`.
pub open spec fn spec_items<T: Decode>(data: Seq<u8>, pos: int, n: nat) -> SpecRes<Seq<T::V>>
    decreases n,
{
    if n == 0 {
        Ok((Seq::empty(), pos))
    } else {
        match spec_items::<T>(data, pos, (n - 1) as nat) {
            Ok((s, p)) => match T::spec_decode(data, p) {
                Ok((v, q)) => Ok((s.push(v), q)),
                Err(e) => Err(e),
            },
            Err(e) => Err(e),
        }
    }
}

/// A vector: its length as a `u32` in LEB128, then that many values.
pub open spec fn spec_vector<T: Decode>(data: Seq<u8>, pos: int) -> SpecRes<Seq<T::V>> {
    match spec_unsigned(data, pos, 32) {
        Ok((n, p)) => spec_items::<T>(data, p, n),
        Err(e) => Err(e),
    }
}

/// The views of the elements of `v`.
pub open spec fn views<T: View>(v: Seq<T>) -> Seq<T::V> {
    v.map_values(|t: T| t@)
}

pub proof fn lemma_items_progress<T: Decode>(data: Seq<u8>, pos: int, n: nat)
    requires
        0 <= pos,
    ensures
        spec_items::<T>(data, pos, n) matches Ok((s, p)) ==> pos <= p <= data.len() || (n == 0
            && p == pos),
        spec_items::<T>(data, pos, n) matches Ok((s, p)) ==> s.len() == n,
    decreases n,
{
    if n > 0 {
        lemma_items_progress::<T>(data, pos, (n - 1) as nat);
        if let Ok((s, p)) = spec_items::<T>(data, pos, (n - 1) as nat) {
            T::lemma_decode_progress(data, p);
        }
    }
}

/// A decoded vector ends after its start and within the bytes.
pub proof fn lemma_vector_progress<T: Decode>(data: Seq<u8>, pos: int)
    ensures
        spec_vector::<T>(data, pos) matches Ok((s, p)) ==> pos < p <= data.len(),
{
    lemma_unsigned_bound(data, pos, 32);
    if let Ok((n, p)) = spec_unsigned(data, pos, 32) {
        lemma_items_progress::<T>(data, p, n);
    }
}

/// Once decoding `n` items fails, decoding more items fails the same way.
pub proof fn lemma_items_err<T: Decode>(data: Seq<u8>, pos: int, n: nat, m: nat)
    requires
        n <= m,
        spec_items::<T>(data, pos, n) is Err,
    ensures
        spec_items::<T>(data, pos, m) == spec_items::<T>(data, pos, n),
    decreases m,
{
    if n < m {
        lemma_items_err::<T>(data, pos, n, (m - 1) as nat);
    }
}

/// Reads a vector of `T`: a `u32` count, then that many values.
pub fn decode_vector<T: Decode>(reader: &mut Reader) -> (res: Result<Vec<T>, DecodeError>)
    requires
        old(reader).wf(),
    ensures
        final(reader).wf(),
        final(reader).bytes() == old(reader).bytes(),
        match spec_vector::<T>(old(reader).bytes(), old(reader).pos()) {
            Ok((s, p)) => res matches Ok(v) && views(v@) == s && final(reader).pos() == p,
            Err(e) => res == Err::<Vec<T>, DecodeError>(e),
        },
{
    let ghost data = reader.bytes();
    let ghost pos0 = reader.pos();
    proof {
        lemma_unsigned_bound(data, pos0, 32);
        lemma2_to64();
    }
    let len = reader.read_usize()?;
    let ghost start = reader.pos();
    let mut items: Vec<T> = Vec::new();
    let mut i: usize = 0;
    proof {
        assert(views(items@) =~= Seq::<T::V>::empty());
    }
    while i < len
        invariant
            reader.wf(),
            reader.bytes() == data,
            data == old(reader).bytes(),
            pos0 == old(reader).pos(),
            i <= len,
            spec_vector::<T>(data, pos0) == spec_items::<T>(data, start, len as nat),
            spec_items::<T>(data, start, i as nat) == Ok::<(Seq<T::V>, int), DecodeError>(
                (views(items@), reader.pos()),
            ),
        decreases len - i,
    {
        let ghost p = reader.pos();
        let r = T::decode(reader);
        match r {
            Ok(item) => {
                proof {
                    assert(views(items@.push(item)) =~= views(items@).push(item@));
                }
                items.push(item);
                i = i + 1;
            },
            Err(e) => {
                proof {
                    lemma_items_err::<T>(data, start, (i + 1) as nat, len as nat);
                }
                return Err(e);
            },
        }
    }
    Ok(items)
}

/// A single byte.
impl Decode for u8 {
    open spec fn spec_decode(data: Seq<u8>, pos: int) -> SpecRes<u8> {
        if 0 <= pos < data.len() {
            Ok((data[pos], pos + 1))
        } else {
            Err(DecodeError::UnexpectedEndOfBytes)
        }
    }

    proof fn lemma_decode_progress(data: Seq<u8>, pos: int) {
    }

    fn decode(reader: &mut Reader) -> (res: Result<Self, DecodeError>) {
        reader.read_u8()
    }
}

} // verus!
