//! A cursor over the bytes of a WebAssembly binary, with the LEB128 integer
//! encodings of the binary format.
use crate::decode::DecodeError;
use vstd::arithmetic::power2::*;
use vstd::prelude::*;
use vstd::slice::slice_subrange;

verus! {

/// Result of a spec-level decoder: the decoded value and the position just
/// after it, or the error that the decoder reports.
pub type SpecRes<T> = Result<(T, int), DecodeError>;

/// The unsigned LEB128 integer of at most `bits` bits that starts at `pos`.
///
/// A byte below 0x80 ends the encoding and must fit in the remaining bits;
/// a byte with the high bit set carries seven low bits and is followed by the
/// encoding of the higher bits.
pub open spec fn spec_unsigned(data: Seq<u8>, pos: int, bits: nat) -> SpecRes<nat>
    decreases bits,
{
    if pos < 0 || pos >= data.len() {
        Err(DecodeError::UnexpectedEndOfBytes)
    } else {
        let b = data[pos];
        if b < 0x80 {
            if (b as nat) < pow2(bits) {
                Ok((b as nat, pos + 1))
            } else {
                Err(DecodeError::MalformedInteger)
            }
        } else if bits > 7 {
            match spec_unsigned(data, pos + 1, (bits - 7) as nat) {
                Ok((m, p)) => Ok((128 * m + (b - 128) as nat, p)),
                Err(e) => Err(e),
            }
        } else {
            Err(DecodeError::MalformedInteger)
        }
    }
}

/// The signed (two's complement) LEB128 integer of at most `bits` bits that
/// starts at `pos`. The last byte's bit 6 is the sign; the bits above the
/// width must be a sign extension.
pub open spec fn spec_signed(data: Seq<u8>, pos: int, bits: nat) -> SpecRes<int>
    decreases bits,
{
    if pos < 0 || pos >= data.len() {
        Err(DecodeError::UnexpectedEndOfBytes)
    } else {
        let b = data[pos];
        if b < 0x40 {
            if (b as int) < pow2((bits - 1) as nat) {
                Ok((b as int, pos + 1))
            } else {
                Err(DecodeError::MalformedInteger)
            }
        } else if b < 0x80 {
            if b - 128 >= -pow2((bits - 1) as nat) {
                Ok((b - 128, pos + 1))
            } else {
                Err(DecodeError::MalformedInteger)
            }
        } else if bits > 7 {
            match spec_signed(data, pos + 1, (bits - 7) as nat) {
                Ok((m, p)) => Ok((128 * m + (b - 128), p)),
                Err(e) => Err(e),
            }
        } else {
            Err(DecodeError::MalformedInteger)
        }
    }
}

/// The little-endian value of the `n` bytes starting at `pos`.
pub open spec fn spec_le(data: Seq<u8>, pos: int, n: nat) -> nat
    decreases n,
{
    if n == 0 {
        0
    } else {
        data[pos] as nat + 256 * spec_le(data, pos + 1, (n - 1) as nat)
    }
}

/// A successfully decoded unsigned integer fits in its width and the
/// decoder moved forward.
pub proof fn lemma_unsigned_bound(data: Seq<u8>, pos: int, bits: nat)
    ensures
        spec_unsigned(data, pos, bits) matches Ok((v, p)) ==> v < pow2(bits) && pos < p
            <= data.len(),
    decreases bits,
{
    if 0 <= pos < data.len() && data[pos] >= 0x80 && bits > 7 {
        lemma_unsigned_bound(data, pos + 1, (bits - 7) as nat);
        if let Ok((m, p)) = spec_unsigned(data, pos + 1, (bits - 7) as nat) {
            lemma_pow2_adds(7, (bits - 7) as nat);
            lemma2_to64();
            assert(128 * m + 127 < 128 * pow2((bits - 7) as nat)) by (nonlinear_arith)
                requires
                    m < pow2((bits - 7) as nat),
            ;
        }
    }
}

/// A successfully decoded signed integer fits in its width and the decoder
/// moved forward.
pub proof fn lemma_signed_bound(data: Seq<u8>, pos: int, bits: nat)
    requires
        bits >= 1,
    ensures
        spec_signed(data, pos, bits) matches Ok((v, p)) ==> -pow2((bits - 1) as nat) <= v
            < pow2((bits - 1) as nat) && pos < p <= data.len(),
    decreases bits,
{
    lemma_pow2_pos((bits - 1) as nat);
    if 0 <= pos < data.len() && data[pos] >= 0x80 && bits > 7 {
        lemma_signed_bound(data, pos + 1, (bits - 7) as nat);
        if let Ok((m, p)) = spec_signed(data, pos + 1, (bits - 7) as nat) {
            lemma_pow2_adds(7, (bits - 8) as nat);
            lemma2_to64();
            let q = pow2((bits - 8) as nat);
            assert(-128 * q <= 128 * m + (data[pos] - 128) < 128 * q) by (nonlinear_arith)
                requires
                    -q <= m < q,
                    0 <= data[pos] - 128 < 128,
            ;
        }
    }
}

/// The number `2^bits` for a width below eight bits.
fn small_pow2(bits: u32) -> (r: u64)
    requires
        bits < 8,
    ensures
        r as nat == pow2(bits as nat),
{
    proof {
        lemma2_to64();
    }
    match bits {
        0 => 1,
        1 => 2,
        2 => 4,
        3 => 8,
        4 => 16,
        5 => 32,
        6 => 64,
        _ => 128,
    }
}

/// A read position over an immutable byte sequence.
#[derive(Debug)]
pub struct Reader<'a> {
    data: &'a [u8],
    position: usize,
}

impl<'a> Reader<'a> {
    /// The bytes being read.
    pub closed spec fn bytes(&self) -> Seq<u8> {
        self.data@
    }

    /// The index of the next byte to read.
    pub closed spec fn pos(&self) -> int {
        self.position as int
    }

    /// The position never passes the end of the bytes.
    pub open spec fn wf(&self) -> bool {
        0 <= self.pos() <= self.bytes().len()
    }

    /// A reader at the start of `data`.
    pub fn new(data: &'a [u8]) -> (r: Self)
        ensures
            r.wf(),
            r.bytes() == data@,
            r.pos() == 0,
    {
        Reader { data, position: 0 }
    }

    /// Whether every byte has been read.
    pub fn is_empty(&self) -> (b: bool)
        requires
            self.wf(),
        ensures
            b == (self.pos() == self.bytes().len()),
    {
        self.position == self.data.len()
    }

    /// The index of the next byte to read.
    pub fn position(&self) -> (p: usize)
        ensures
            p == self.pos(),
    {
        self.position
    }

    /// Reads one byte, or fails at the end of the bytes.
    pub fn read_u8(&mut self) -> (res: Result<u8, DecodeError>)
        requires
            old(self).wf(),
        ensures
            final(self).wf(),
            final(self).bytes() == old(self).bytes(),
            old(self).pos() < old(self).bytes().len() ==> res == Ok::<u8, DecodeError>(
                old(self).bytes()[old(self).pos()],
            ) && final(self).pos() == old(self).pos() + 1,
            old(self).pos() >= old(self).bytes().len() ==> res == Err::<u8, DecodeError>(
                DecodeError::UnexpectedEndOfBytes,
            ) && final(self).pos() == old(self).pos(),
    {
        if self.position < self.data.len() {
            let v = self.data[self.position];
            self.position = self.position + 1;
            Ok(v)
        } else {
            Err(DecodeError::UnexpectedEndOfBytes)
        }
    }

    /// The next byte, without consuming it.
    pub fn peek_u8(&self) -> (res: Result<u8, DecodeError>)
        requires
            self.wf(),
        ensures
            self.pos() < self.bytes().len() ==> res == Ok::<u8, DecodeError>(
                self.bytes()[self.pos()],
            ),
            self.pos() >= self.bytes().len() ==> res == Err::<u8, DecodeError>(
                DecodeError::UnexpectedEndOfBytes,
            ),
    {
        if self.position < self.data.len() {
            Ok(self.data[self.position])
        } else {
            Err(DecodeError::UnexpectedEndOfBytes)
        }
    }

    /// Steps back over the byte just read.
    pub fn unread_u8(&mut self)
        requires
            old(self).wf(),
            old(self).pos() > 0,
        ensures
            final(self).wf(),
            final(self).bytes() == old(self).bytes(),
            final(self).pos() == old(self).pos() - 1,
    {
        self.position = self.position - 1;
    }

    /// Reads the next `n` bytes, or fails if fewer remain.
    pub fn read(&mut self, n: usize) -> (res: Result<&'a [u8], DecodeError>)
        requires
            old(self).wf(),
        ensures
            final(self).wf(),
            final(self).bytes() == old(self).bytes(),
            old(self).pos() + n <= old(self).bytes().len() ==> {
                &&& final(self).pos() == old(self).pos() + n
                &&& res matches Ok(s)
                &&& s@ == old(self).bytes().subrange(old(self).pos(), old(self).pos() + n)
            },
            old(self).pos() + n > old(self).bytes().len() ==> final(self).pos() == old(self).pos()
                && res == Err::<&[u8], DecodeError>(DecodeError::UnexpectedEndOfBytes),
    {
        if n <= self.data.len() - self.position {
            let start = self.position;
            let v = slice_subrange(self.data, start, start + n);
            self.position = start + n;
            Ok(v)
        } else {
            Err(DecodeError::UnexpectedEndOfBytes)
        }
    }

    /// Reads an unsigned LEB128 integer of at most `bits` bits.
    fn read_unsigned(&mut self, bits: u32) -> (res: Result<u64, DecodeError>)
        requires
            old(self).wf(),
            1 <= bits <= 64,
        ensures
            final(self).wf(),
            final(self).bytes() == old(self).bytes(),
            match spec_unsigned(old(self).bytes(), old(self).pos(), bits as nat) {
                Ok((v, p)) => res == Ok::<u64, DecodeError>(v as u64) && final(self).pos() == p,
                Err(e) => res == Err::<u64, DecodeError>(e),
            },
        decreases bits,
    {
        proof {
            lemma_unsigned_bound(self.bytes(), self.pos(), bits as nat);
            lemma2_to64();
        }
        let b = self.read_u8()?;
        if b < 0x80 {
            if bits >= 8 {
                proof {
                    lemma_pow2_strictly_increases(7, bits as nat);
                }
                Ok(b as u64)
            } else if (b as u64) < small_pow2(bits) {
                Ok(b as u64)
            } else {
                Err(DecodeError::MalformedInteger)
            }
        } else if bits > 7 {
            let ghost p1 = self.pos();
            let m = self.read_unsigned(bits - 7)?;
            proof {
                lemma_unsigned_bound(self.bytes(), p1, (bits - 7) as nat);
                lemma_pow2_adds(7, (bits - 7) as nat);
                if bits < 64 {
                    lemma_pow2_strictly_increases(bits as nat, 64);
                }
                assert(128 * m + 127 < 128 * pow2((bits - 7) as nat)) by (nonlinear_arith)
                    requires
                        m < pow2((bits - 7) as nat),
                ;
            }
            Ok(m * 128 + (b - 128) as u64)
        } else {
            Err(DecodeError::MalformedInteger)
        }
    }

    /// Reads a signed LEB128 integer of at most `bits` bits.
    fn read_signed(&mut self, bits: u32) -> (res: Result<i64, DecodeError>)
        requires
            old(self).wf(),
            1 <= bits <= 64,
        ensures
            final(self).wf(),
            final(self).bytes() == old(self).bytes(),
            match spec_signed(old(self).bytes(), old(self).pos(), bits as nat) {
                Ok((v, p)) => res == Ok::<i64, DecodeError>(v as i64) && final(self).pos() == p,
                Err(e) => res == Err::<i64, DecodeError>(e),
            },
        decreases bits,
    {
        proof {
            lemma_signed_bound(self.bytes(), self.pos(), bits as nat);
            lemma2_to64();
            lemma2_to64_rest();
            if bits < 64 {
                lemma_pow2_strictly_increases((bits - 1) as nat, 63);
            }
        }
        let b = self.read_u8()?;
        if b < 0x40 {
            if bits >= 8 {
                proof {
                    lemma_pow2_strictly_increases(6, (bits - 1) as nat);
                }
                Ok(b as i64)
            } else if (b as u64) < small_pow2(bits - 1) {
                Ok(b as i64)
            } else {
                Err(DecodeError::MalformedInteger)
            }
        } else if b < 0x80 {
            if bits >= 8 {
                proof {
                    lemma_pow2_strictly_increases(6, (bits - 1) as nat);
                }
                Ok(b as i64 - 128)
            } else if 128 - (b as u64) <= small_pow2(bits - 1) {
                Ok(b as i64 - 128)
            } else {
                Err(DecodeError::MalformedInteger)
            }
        } else if bits > 7 {
            let ghost p1 = self.pos();
            let m = self.read_signed(bits - 7)?;
            proof {
                lemma_signed_bound(self.bytes(), p1, (bits - 7) as nat);
                lemma_pow2_adds(7, (bits - 8) as nat);
                let q = pow2((bits - 8) as nat);
                assert(((bits - 8) as nat) + 7 == (bits - 1) as nat);
                assert(128 * q == pow2((bits - 1) as nat));
                if bits < 64 {
                    lemma_pow2_strictly_increases((bits - 1) as nat, 63);
                }
                lemma2_to64_rest();
                assert(128 * q <= 0x8000_0000_0000_0000);
                assert(-128 * q <= 128 * m + (b - 128) < 128 * q) by (nonlinear_arith)
                    requires
                        -q <= m < q,
                        0 <= b - 128 < 128,
                ;
            }
            Ok(m * 128 + (b - 128) as i64)
        } else {
            Err(DecodeError::MalformedInteger)
        }
    }

    /// Reads a `u32` in unsigned LEB128.
    pub fn read_u32(&mut self) -> (res: Result<u32, DecodeError>)
        requires
            old(self).wf(),
        ensures
            final(self).wf(),
            final(self).bytes() == old(self).bytes(),
            match spec_unsigned(old(self).bytes(), old(self).pos(), 32) {
                Ok((v, p)) => res == Ok::<u32, DecodeError>(v as u32) && final(self).pos() == p,
                Err(e) => res == Err::<u32, DecodeError>(e),
            },
    {
        proof {
            lemma_unsigned_bound(self.bytes(), self.pos(), 32);
            lemma2_to64();
        }
        let v = self.read_unsigned(32)?;
        Ok(v as u32)
    }

    /// Reads a length or count, encoded as a `u32` in unsigned LEB128.
    pub fn read_usize(&mut self) -> (res: Result<usize, DecodeError>)
        requires
            old(self).wf(),
        ensures
            final(self).wf(),
            final(self).bytes() == old(self).bytes(),
            match spec_unsigned(old(self).bytes(), old(self).pos(), 32) {
                Ok((v, p)) => res == Ok::<usize, DecodeError>(v as usize) && final(self).pos()
                    == p,
                Err(e) => res == Err::<usize, DecodeError>(e),
            },
    {
        proof {
            lemma_unsigned_bound(self.bytes(), self.pos(), 32);
            lemma2_to64();
        }
        let v = self.read_u32()?;
        Ok(v as usize)
    }

    /// Reads an `i32` in signed LEB128.
    pub fn read_i32(&mut self) -> (res: Result<i32, DecodeError>)
        requires
            old(self).wf(),
        ensures
            final(self).wf(),
            final(self).bytes() == old(self).bytes(),
            match spec_signed(old(self).bytes(), old(self).pos(), 32) {
                Ok((v, p)) => res == Ok::<i32, DecodeError>(v as i32) && final(self).pos() == p,
                Err(e) => res == Err::<i32, DecodeError>(e),
            },
    {
        proof {
            lemma_signed_bound(self.bytes(), self.pos(), 32);
            lemma2_to64();
        }
        let v = self.read_signed(32)?;
        Ok(v as i32)
    }

    /// Reads an `i64` in signed LEB128.
    pub fn read_i64(&mut self) -> (res: Result<i64, DecodeError>)
        requires
            old(self).wf(),
        ensures
            final(self).wf(),
            final(self).bytes() == old(self).bytes(),
            match spec_signed(old(self).bytes(), old(self).pos(), 64) {
                Ok((v, p)) => res == Ok::<i64, DecodeError>(v as i64) && final(self).pos() == p,
                Err(e) => res == Err::<i64, DecodeError>(e),
            },
    {
        self.read_signed(64)
    }

    /// Reads a signed LEB128 integer of at most `bits` bits (such as the
    /// 33-bit type index of a block type).
    pub fn read_integer_s(&mut self, bits: u32) -> (res: Result<i64, DecodeError>)
        requires
            old(self).wf(),
            1 <= bits <= 64,
        ensures
            final(self).wf(),
            final(self).bytes() == old(self).bytes(),
            match spec_signed(old(self).bytes(), old(self).pos(), bits as nat) {
                Ok((v, p)) => res == Ok::<i64, DecodeError>(v as i64) && final(self).pos() == p,
                Err(e) => res == Err::<i64, DecodeError>(e),
            },
    {
        self.read_signed(bits)
    }

    /// Reads the 4 bytes of an `f32` in little-endian order, as its bit pattern.
    pub fn read_f32_bits(&mut self) -> (res: Result<u32, DecodeError>)
        requires
            old(self).wf(),
        ensures
            final(self).wf(),
            final(self).bytes() == old(self).bytes(),
            old(self).pos() + 4 <= old(self).bytes().len() ==> res == Ok::<u32, DecodeError>(
                spec_le(old(self).bytes(), old(self).pos(), 4) as u32,
            ) && final(self).pos() == old(self).pos() + 4,
            old(self).pos() + 4 > old(self).bytes().len() ==> res == Err::<u32, DecodeError>(
                DecodeError::UnexpectedEndOfBytes,
            ),
    {
        let ghost d = self.bytes();
        let ghost p = self.pos();
        let b = self.read(4)?;
        proof {
            reveal_with_fuel(spec_le, 5);
            assert(b@[0] == d[p] && b@[1] == d[p + 1] && b@[2] == d[p + 2] && b@[3] == d[p + 3]);
        }
        Ok(b[0] as u32 + (b[1] as u32) * 0x100 + (b[2] as u32) * 0x1_0000 + (b[3] as u32)
            * 0x100_0000)
    }

    /// Reads the 8 bytes of an `f64` in little-endian order, as its bit pattern.
    pub fn read_f64_bits(&mut self) -> (res: Result<u64, DecodeError>)
        requires
            old(self).wf(),
        ensures
            final(self).wf(),
            final(self).bytes() == old(self).bytes(),
            old(self).pos() + 8 <= old(self).bytes().len() ==> res == Ok::<u64, DecodeError>(
                spec_le(old(self).bytes(), old(self).pos(), 8) as u64,
            ) && final(self).pos() == old(self).pos() + 8,
            old(self).pos() + 8 > old(self).bytes().len() ==> res == Err::<u64, DecodeError>(
                DecodeError::UnexpectedEndOfBytes,
            ),
    {
        let ghost d = self.bytes();
        let ghost p = self.pos();
        let b = self.read(8)?;
        proof {
            reveal_with_fuel(spec_le, 9);
            assert forall|k: int| 0 <= k < 8 implies b@[k] == d[p + k] by {}
        }
        let lo = b[0] as u64 + (b[1] as u64) * 0x100 + (b[2] as u64) * 0x1_0000 + (b[3] as u64)
            * 0x100_0000;
        let hi = b[4] as u64 + (b[5] as u64) * 0x100 + (b[6] as u64) * 0x1_0000 + (b[7] as u64)
            * 0x100_0000;
        Ok(lo + hi * 0x1_0000_0000)
    }
}

/// The unsigned LEB128 encoding of `x` in the fewest bytes.
pub open spec fn spec_uleb(x: nat) -> Seq<u8>
    decreases x,
{
    if x < 128 {
        seq![x as u8]
    } else {
        seq![(x % 128 + 128) as u8] + spec_uleb(x / 128)
    }
}

/// Decoding the LEB128 encoding of a value that fits in `bits` bits gives
/// the value back, and ends just after the encoding.
pub proof fn lemma_uleb_roundtrip(x: nat, bits: nat, data: Seq<u8>, pos: int)
    requires
        x < pow2(bits),
        0 <= pos,
        pos + spec_uleb(x).len() <= data.len(),
        data.subrange(pos, pos + spec_uleb(x).len()) == spec_uleb(x),
    ensures
        spec_unsigned(data, pos, bits) == Ok::<(nat, int), DecodeError>((x, pos + spec_uleb(x).len())),
    decreases x,
{
    let e = spec_uleb(x);
    assert(data[pos] == data.subrange(pos, pos + e.len())[0]);
    lemma2_to64();
    if x < 128 {
    } else {
        let y = x / 128;
        assert(bits > 7);
        lemma_pow2_adds(7, (bits - 7) as nat);
        assert(y < pow2((bits - 7) as nat)) by (nonlinear_arith)
            requires
                x < 128 * pow2((bits - 7) as nat),
                y == x / 128,
        ;
        let t = spec_uleb(y);
        assert(e == seq![(x % 128 + 128) as u8] + t);
        assert(data.subrange(pos + 1, pos + 1 + t.len()) =~= data.subrange(pos, pos + e.len()).subrange(
            1,
            e.len() as int,
        ));
        assert(e.subrange(1, e.len() as int) =~= t);
        lemma_uleb_roundtrip(y, (bits - 7) as nat, data, pos + 1);
        assert(128 * y + x % 128 == x) by (nonlinear_arith)
            requires
                y == x / 128,
        ;
    }
}

/// Decoding the LEB128 encoding of a `u32` as a `u32` gives it back.
pub proof fn lemma_u32_roundtrip(x: u32, data: Seq<u8>, pos: int)
    requires
        0 <= pos,
        pos + spec_uleb(x as nat).len() <= data.len(),
        data.subrange(pos, pos + spec_uleb(x as nat).len()) == spec_uleb(x as nat),
    ensures
        spec_unsigned(data, pos, 32) == Ok::<(nat, int), DecodeError>(
            (x as nat, pos + spec_uleb(x as nat).len()),
        ),
{
    lemma2_to64();
    lemma_uleb_roundtrip(x as nat, 32, data, pos);
}

} // verus!
