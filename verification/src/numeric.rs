//! The integer operators of WebAssembly and the floating-point operators that
//! act on bit patterns alone.
use crate::instructions::{Instr, SignExtensionInstr};
use vstd::prelude::*;
use vstd::std_specs::bits::*;

verus! {

/// `x` reduced modulo 2^32 and read as a two's complement `i32`.
pub open spec fn wrap_i32(x: int) -> i32 {
    let m = x % 0x1_0000_0000;
    if m >= 0x8000_0000 {
        (m - 0x1_0000_0000) as i32
    } else {
        m as i32
    }
}

/// `x` reduced modulo 2^64 and read as a two's complement `i64`.
pub open spec fn wrap_i64(x: int) -> i64 {
    let m = x % 0x1_0000_0000_0000_0000;
    if m >= 0x8000_0000_0000_0000 {
        (m - 0x1_0000_0000_0000_0000) as i64
    } else {
        m as i64
    }
}

/// The number of one bits of `x`.
pub open spec fn popcount(x: nat) -> nat
    decreases x,
{
    if x == 0 {
        0
    } else {
        x % 2 + popcount(x / 2)
    }
}

/// `x` rotated left by `n` bits (modulo 32).
pub open spec fn rotl32(x: u32, n: u32) -> u32 {
    let k = n % 32;
    if k == 0 {
        x
    } else {
        (x << k) | (x >> (32 - k) as u32)
    }
}

/// `x` rotated left by `n` bits (modulo 64).
pub open spec fn rotl64(x: u64, n: u64) -> u64 {
    let k = n % 64;
    if k == 0 {
        x
    } else {
        (x << k) | (x >> (64 - k) as u64)
    }
}

/// 1 for true, 0 for false.
pub open spec fn bool_i32(b: bool) -> i32 {
    if b {
        1
    } else {
        0
    }
}

/// Whether `i` is a binary operator on `i32` with an `i32` result.
pub open spec fn is_i32_binop(i: Instr) -> bool {
    match i {
        Instr::I32Add | Instr::I32Sub | Instr::I32Mul | Instr::I32DivS | Instr::I32DivU
        | Instr::I32RemS | Instr::I32RemU | Instr::I32And | Instr::I32Or | Instr::I32Xor
        | Instr::I32Shl | Instr::I32ShrS | Instr::I32ShrU | Instr::I32Rotl | Instr::I32Rotr => true,
        _ => false,
    }
}

/// The result of the `i32` binary operator `i` on `a` (below) and `b` (top
/// of the stack), or `None` for a trap: a division by zero, or a signed
/// division whose quotient does not fit (the least `i32` by -1).
pub open spec fn spec_i32_binop(i: Instr, a: i32, b: i32) -> Option<i32> {
    match i {
        Instr::I32Add => Some(wrap_i32(a + b)),
        Instr::I32Sub => Some(wrap_i32(a - b)),
        Instr::I32Mul => Some(wrap_i32(a * b)),
        Instr::I32DivS => if b == 0 {
            None
        } else if a == i32::MIN && b == -1 {
            None
        } else {
            a.checked_div(b)
        },
        Instr::I32DivU => if b == 0 {
            None
        } else {
            Some(((a as u32) / (b as u32)) as i32)
        },
        Instr::I32RemS => if b == 0 {
            None
        } else if b == -1 {
            Some(0)
        } else {
            a.checked_rem(b)
        },
        Instr::I32RemU => if b == 0 {
            None
        } else {
            Some(((a as u32) % (b as u32)) as i32)
        },
        Instr::I32And => Some(a & b),
        Instr::I32Or => Some(a | b),
        Instr::I32Xor => Some(a ^ b),
        Instr::I32Shl => Some(a << ((b as u32) % 32)),
        Instr::I32ShrS => Some(a >> ((b as u32) % 32)),
        Instr::I32ShrU => Some(((a as u32) >> ((b as u32) % 32)) as i32),
        Instr::I32Rotl => Some(rotl32(a as u32, b as u32) as i32),
        Instr::I32Rotr => Some(rotl32(a as u32, (32 - (b as u32) % 32) as u32) as i32),
        _ => None,
    }
}

/// Whether `i` is a binary operator on `i64` with an `i64` result.
pub open spec fn is_i64_binop(i: Instr) -> bool {
    match i {
        Instr::I64Add | Instr::I64Sub | Instr::I64Mul | Instr::I64DivS | Instr::I64DivU
        | Instr::I64RemS | Instr::I64RemU | Instr::I64And | Instr::I64Or | Instr::I64Xor
        | Instr::I64Shl | Instr::I64ShrS | Instr::I64ShrU | Instr::I64Rotl | Instr::I64Rotr => true,
        _ => false,
    }
}

/// The result of the `i64` binary operator `i` on `a` and `b`, or `None`
/// for a trap: a division by zero, or a signed division whose quotient does
/// not fit (the least `i64` by -1).
pub open spec fn spec_i64_binop(i: Instr, a: i64, b: i64) -> Option<i64> {
    match i {
        Instr::I64Add => Some(wrap_i64(a + b)),
        Instr::I64Sub => Some(wrap_i64(a - b)),
        Instr::I64Mul => Some(wrap_i64(a * b)),
        Instr::I64DivS => if b == 0 {
            None
        } else if a == i64::MIN && b == -1 {
            None
        } else {
            a.checked_div(b)
        },
        Instr::I64DivU => if b == 0 {
            None
        } else {
            Some(((a as u64) / (b as u64)) as i64)
        },
        Instr::I64RemS => if b == 0 {
            None
        } else if b == -1 {
            Some(0)
        } else {
            a.checked_rem(b)
        },
        Instr::I64RemU => if b == 0 {
            None
        } else {
            Some(((a as u64) % (b as u64)) as i64)
        },
        Instr::I64And => Some(a & b),
        Instr::I64Or => Some(a | b),
        Instr::I64Xor => Some(a ^ b),
        Instr::I64Shl => Some(a << ((b as u64) % 64)),
        Instr::I64ShrS => Some(a >> ((b as u64) % 64)),
        Instr::I64ShrU => Some(((a as u64) >> ((b as u64) % 64)) as i64),
        Instr::I64Rotl => Some(rotl64(a as u64, b as u64) as i64),
        Instr::I64Rotr => Some(rotl64(a as u64, (64 - (b as u64) % 64) as u64) as i64),
        _ => None,
    }
}

/// Whether `i` compares two `i32` values.
pub open spec fn is_i32_relop(i: Instr) -> bool {
    match i {
        Instr::I32Eq | Instr::I32Ne | Instr::I32LtS | Instr::I32LtU | Instr::I32GtS
        | Instr::I32GtU | Instr::I32LeS | Instr::I32LeU | Instr::I32GeS | Instr::I32GeU => true,
        _ => false,
    }
}

/// The outcome of the `i32` comparison `i` of `a` with `b`.
pub open spec fn spec_i32_relop(i: Instr, a: i32, b: i32) -> bool {
    match i {
        Instr::I32Eq => a == b,
        Instr::I32Ne => a != b,
        Instr::I32LtS => a < b,
        Instr::I32LtU => (a as u32) < (b as u32),
        Instr::I32GtS => a > b,
        Instr::I32GtU => (a as u32) > (b as u32),
        Instr::I32LeS => a <= b,
        Instr::I32LeU => (a as u32) <= (b as u32),
        Instr::I32GeS => a >= b,
        Instr::I32GeU => (a as u32) >= (b as u32),
        _ => false,
    }
}

/// Whether `i` compares two `i64` values.
pub open spec fn is_i64_relop(i: Instr) -> bool {
    match i {
        Instr::I64Eq | Instr::I64Ne | Instr::I64LtS | Instr::I64LtU | Instr::I64GtS
        | Instr::I64GtU | Instr::I64LeS | Instr::I64LeU | Instr::I64GeS | Instr::I64GeU => true,
        _ => false,
    }
}

/// The outcome of the `i64` comparison `i` of `a` with `b`.
pub open spec fn spec_i64_relop(i: Instr, a: i64, b: i64) -> bool {
    match i {
        Instr::I64Eq => a == b,
        Instr::I64Ne => a != b,
        Instr::I64LtS => a < b,
        Instr::I64LtU => (a as u64) < (b as u64),
        Instr::I64GtS => a > b,
        Instr::I64GtU => (a as u64) > (b as u64),
        Instr::I64LeS => a <= b,
        Instr::I64LeU => (a as u64) <= (b as u64),
        Instr::I64GeS => a >= b,
        Instr::I64GeU => (a as u64) >= (b as u64),
        _ => false,
    }
}

/// Whether `i` is a unary operator on `i32` with an `i32` result.
pub open spec fn is_i32_unop(i: Instr) -> bool {
    match i {
        Instr::I32Clz | Instr::I32Ctz | Instr::I32Popcnt | Instr::I32Eqz => true,
        Instr::SignExtension(SignExtensionInstr::I32Extend8S) => true,
        Instr::SignExtension(SignExtensionInstr::I32Extend16S) => true,
        _ => false,
    }
}

/// The result of the unary `i32` operator `i` on `a`.
pub open spec fn spec_i32_unop(i: Instr, a: i32) -> i32 {
    match i {
        Instr::I32Clz => u32_leading_zeros(a as u32) as i32,
        Instr::I32Ctz => u32_trailing_zeros(a as u32) as i32,
        Instr::I32Popcnt => popcount((a as u32) as nat) as i32,
        Instr::I32Eqz => bool_i32(a == 0),
        Instr::SignExtension(SignExtensionInstr::I32Extend8S) => (a as i8) as i32,
        Instr::SignExtension(SignExtensionInstr::I32Extend16S) => (a as i16) as i32,
        _ => a,
    }
}

/// Whether `i` is a unary operator on `i64` with an `i64` result.
pub open spec fn is_i64_unop(i: Instr) -> bool {
    match i {
        Instr::I64Clz | Instr::I64Ctz | Instr::I64Popcnt => true,
        Instr::SignExtension(SignExtensionInstr::I64Extend8S) => true,
        Instr::SignExtension(SignExtensionInstr::I64Extend16S) => true,
        Instr::SignExtension(SignExtensionInstr::I64Extend32S) => true,
        _ => false,
    }
}

/// The result of the unary `i64` operator `i` on `a`.
pub open spec fn spec_i64_unop(i: Instr, a: i64) -> i64 {
    match i {
        Instr::I64Clz => u64_leading_zeros(a as u64) as i64,
        Instr::I64Ctz => u64_trailing_zeros(a as u64) as i64,
        Instr::I64Popcnt => popcount((a as u64) as nat) as i64,
        Instr::SignExtension(SignExtensionInstr::I64Extend8S) => (a as i8) as i64,
        Instr::SignExtension(SignExtensionInstr::I64Extend16S) => (a as i16) as i64,
        Instr::SignExtension(SignExtensionInstr::I64Extend32S) => (a as i32) as i64,
        _ => a,
    }
}

/// The sign bit of an `f32` bit pattern.
pub open spec fn f32_sign() -> u32 {
    0x8000_0000
}

/// The sign bit of an `f64` bit pattern.
pub open spec fn f64_sign() -> u64 {
    0x8000_0000_0000_0000
}

/// Whether `i` is `f32.abs`, `f32.neg` or `f32.copysign`, which act on the
/// sign bit alone.
pub open spec fn is_f32_signop(i: Instr) -> bool {
    match i {
        Instr::F32Abs | Instr::F32Neg | Instr::F32Copysign => true,
        _ => false,
    }
}

/// Whether `i` is `f64.abs`, `f64.neg` or `f64.copysign`.
pub open spec fn is_f64_signop(i: Instr) -> bool {
    match i {
        Instr::F64Abs | Instr::F64Neg | Instr::F64Copysign => true,
        _ => false,
    }
}

/// The bit pattern that `f32.abs`, `f32.neg` or `f32.copysign` gives for
/// `a` (and `b`, the operand that gives the sign of `f32.copysign`).
pub open spec fn spec_f32_signop(i: Instr, a: u32, b: u32) -> u32 {
    match i {
        Instr::F32Abs => a & !f32_sign(),
        Instr::F32Neg => a ^ f32_sign(),
        _ => (a & !f32_sign()) | (b & f32_sign()),
    }
}

/// The bit pattern that `f64.abs`, `f64.neg` or `f64.copysign` gives.
pub open spec fn spec_f64_signop(i: Instr, a: u64, b: u64) -> u64 {
    match i {
        Instr::F64Abs => a & !f64_sign(),
        Instr::F64Neg => a ^ f64_sign(),
        _ => (a & !f64_sign()) | (b & f64_sign()),
    }
}

/// `x` rotated left by `n` bits.
pub fn rotate_left_u32(x: u32, n: u32) -> (r: u32)
    ensures
        r == rotl32(x, n),
{
    let k = n % 32;
    if k == 0 {
        x
    } else {
        (x << k) | (x >> (32 - k))
    }
}

/// `x` rotated left by `n` bits.
pub fn rotate_left_u64(x: u64, n: u64) -> (r: u64)
    ensures
        r == rotl64(x, n),
{
    let k = n % 64;
    if k == 0 {
        x
    } else {
        (x << k) | (x >> (64 - k))
    }
}

/// The number of one bits of `x`.
pub fn count_ones(x: u64) -> (r: u64)
    ensures
        r == popcount(x as nat),
        r <= 64,
{
    let mut n: u64 = 0;
    let mut y: u64 = x;
    let mut k: u64 = 0;
    assert(pow2_64(64) == 0x1_0000_0000_0000_0000) by {
        reveal_with_fuel(pow2_64, 65);
    }
    while y != 0
        invariant
            n + popcount(y as nat) == popcount(x as nat),
            k <= 64,
            n <= k,
            y < pow2_64(64 - k),
        decreases y,
    {
        assert((y & 1) == y % 2 && (y >> 1) == y / 2) by (bit_vector);
        proof {
            lemma_pow2_64_halves(64 - k, y);
        }
        n = n + (y & 1);
        y = y >> 1;
        k = k + 1;
    }
    n
}

/// 2 to the `e`, for exponents up to 64.
pub open spec fn pow2_64(e: int) -> int
    decreases e,
{
    if e <= 0 {
        1
    } else {
        2 * pow2_64(e - 1)
    }
}

/// A nonzero value below 2^e halves to one below 2^(e - 1), and e is then
/// positive.
proof fn lemma_pow2_64_halves(e: int, y: u64)
    requires
        y != 0,
        y < pow2_64(e),
    ensures
        e >= 1,
        y / 2 < pow2_64(e - 1),
{
    if e <= 0 {
        assert(pow2_64(e) == 1);
    }
}

/// The result of the `i32` binary operator `i`, or `None` for a trap.
pub fn i32_binop(i: &Instr, a: i32, b: i32) -> (r: Option<i32>)
    requires
        is_i32_binop(*i),
    ensures
        r == spec_i32_binop(*i, a, b),
{
    match i {
        Instr::I32Add => Some(a.wrapping_add(b)),
        Instr::I32Sub => Some(a.wrapping_sub(b)),
        Instr::I32Mul => Some(a.wrapping_mul(b)),
        Instr::I32DivS => {
            if b == 0 {
                None
            } else if a == i32::MIN && b == -1 {
                None
            } else {
                a.checked_div(b)
            }
        },
        Instr::I32DivU => {
            if b == 0 {
                None
            } else {
                assert((b as u32) != 0) by (bit_vector)
                    requires
                        b != 0,
                ;
                Some(((a as u32) / (b as u32)) as i32)
            }
        },
        Instr::I32RemS => {
            if b == 0 {
                None
            } else if b == -1 {
                Some(0)
            } else {
                a.checked_rem(b)
            }
        },
        Instr::I32RemU => {
            if b == 0 {
                None
            } else {
                assert((b as u32) != 0) by (bit_vector)
                    requires
                        b != 0,
                ;
                Some(((a as u32) % (b as u32)) as i32)
            }
        },
        Instr::I32And => Some(a & b),
        Instr::I32Or => Some(a | b),
        Instr::I32Xor => Some(a ^ b),
        Instr::I32Shl => Some(a << ((b as u32) % 32)),
        Instr::I32ShrS => Some(a >> ((b as u32) % 32)),
        Instr::I32ShrU => Some(((a as u32) >> ((b as u32) % 32)) as i32),
        Instr::I32Rotl => Some(rotate_left_u32(a as u32, b as u32) as i32),
        _ => Some(rotate_left_u32(a as u32, 32 - (b as u32) % 32) as i32),
    }
}

/// The result of the `i64` binary operator `i`, or `None` for a trap.
pub fn i64_binop(i: &Instr, a: i64, b: i64) -> (r: Option<i64>)
    requires
        is_i64_binop(*i),
    ensures
        r == spec_i64_binop(*i, a, b),
{
    match i {
        Instr::I64Add => Some(a.wrapping_add(b)),
        Instr::I64Sub => Some(a.wrapping_sub(b)),
        Instr::I64Mul => Some(a.wrapping_mul(b)),
        Instr::I64DivS => {
            if b == 0 {
                None
            } else if a == i64::MIN && b == -1 {
                None
            } else {
                a.checked_div(b)
            }
        },
        Instr::I64DivU => {
            if b == 0 {
                None
            } else {
                assert((b as u64) != 0) by (bit_vector)
                    requires
                        b != 0,
                ;
                Some(((a as u64) / (b as u64)) as i64)
            }
        },
        Instr::I64RemS => {
            if b == 0 {
                None
            } else if b == -1 {
                Some(0)
            } else {
                a.checked_rem(b)
            }
        },
        Instr::I64RemU => {
            if b == 0 {
                None
            } else {
                assert((b as u64) != 0) by (bit_vector)
                    requires
                        b != 0,
                ;
                Some(((a as u64) % (b as u64)) as i64)
            }
        },
        Instr::I64And => Some(a & b),
        Instr::I64Or => Some(a | b),
        Instr::I64Xor => Some(a ^ b),
        Instr::I64Shl => Some(a << ((b as u64) % 64)),
        Instr::I64ShrS => Some(a >> ((b as u64) % 64)),
        Instr::I64ShrU => Some(((a as u64) >> ((b as u64) % 64)) as i64),
        Instr::I64Rotl => Some(rotate_left_u64(a as u64, b as u64) as i64),
        _ => Some(rotate_left_u64(a as u64, 64 - (b as u64) % 64) as i64),
    }
}

/// The outcome of the `i32` comparison `i`.
pub fn i32_relop(i: &Instr, a: i32, b: i32) -> (r: bool)
    requires
        is_i32_relop(*i),
    ensures
        r == spec_i32_relop(*i, a, b),
{
    match i {
        Instr::I32Eq => a == b,
        Instr::I32Ne => a != b,
        Instr::I32LtS => a < b,
        Instr::I32LtU => (a as u32) < (b as u32),
        Instr::I32GtS => a > b,
        Instr::I32GtU => (a as u32) > (b as u32),
        Instr::I32LeS => a <= b,
        Instr::I32LeU => (a as u32) <= (b as u32),
        Instr::I32GeS => a >= b,
        _ => (a as u32) >= (b as u32),
    }
}

/// The outcome of the `i64` comparison `i`.
pub fn i64_relop(i: &Instr, a: i64, b: i64) -> (r: bool)
    requires
        is_i64_relop(*i),
    ensures
        r == spec_i64_relop(*i, a, b),
{
    match i {
        Instr::I64Eq => a == b,
        Instr::I64Ne => a != b,
        Instr::I64LtS => a < b,
        Instr::I64LtU => (a as u64) < (b as u64),
        Instr::I64GtS => a > b,
        Instr::I64GtU => (a as u64) > (b as u64),
        Instr::I64LeS => a <= b,
        Instr::I64LeU => (a as u64) <= (b as u64),
        Instr::I64GeS => a >= b,
        _ => (a as u64) >= (b as u64),
    }
}

/// The result of the unary `i32` operator `i`.
pub fn i32_unop(i: &Instr, a: i32) -> (r: i32)
    requires
        is_i32_unop(*i),
    ensures
        r == spec_i32_unop(*i, a),
{
    match i {
        Instr::I32Clz => {
            proof {
                broadcast use axiom_u32_leading_zeros;
            }
            (a as u32).leading_zeros() as i32
        },
        Instr::I32Ctz => {
            proof {
                broadcast use axiom_u32_trailing_zeros;
            }
            (a as u32).trailing_zeros() as i32
        },
        Instr::I32Popcnt => count_ones((a as u32) as u64) as i32,
        Instr::I32Eqz => if a == 0 {
            1
        } else {
            0
        },
        Instr::SignExtension(SignExtensionInstr::I32Extend8S) => (a as i8) as i32,
        _ => (a as i16) as i32,
    }
}

/// The result of the unary `i64` operator `i`.
pub fn i64_unop(i: &Instr, a: i64) -> (r: i64)
    requires
        is_i64_unop(*i),
    ensures
        r == spec_i64_unop(*i, a),
{
    match i {
        Instr::I64Clz => {
            proof {
                broadcast use axiom_u64_leading_zeros;
            }
            (a as u64).leading_zeros() as i64
        },
        Instr::I64Ctz => {
            proof {
                broadcast use axiom_u64_trailing_zeros;
            }
            (a as u64).trailing_zeros() as i64
        },
        Instr::I64Popcnt => count_ones(a as u64) as i64,
        Instr::SignExtension(SignExtensionInstr::I64Extend8S) => (a as i8) as i64,
        Instr::SignExtension(SignExtensionInstr::I64Extend16S) => (a as i16) as i64,
        _ => (a as i32) as i64,
    }
}

/// The bit pattern that the `f32` sign operator `i` gives.
pub fn f32_signop(i: &Instr, a: u32, b: u32) -> (r: u32)
    requires
        is_f32_signop(*i),
    ensures
        r == spec_f32_signop(*i, a, b),
{
    match i {
        Instr::F32Abs => a & !0x8000_0000u32,
        Instr::F32Neg => a ^ 0x8000_0000u32,
        _ => (a & !0x8000_0000u32) | (b & 0x8000_0000u32),
    }
}

/// The bit pattern that the `f64` sign operator `i` gives.
pub fn f64_signop(i: &Instr, a: u64, b: u64) -> (r: u64)
    requires
        is_f64_signop(*i),
    ensures
        r == spec_f64_signop(*i, a, b),
{
    match i {
        Instr::F64Abs => a & !0x8000_0000_0000_0000u64,
        Instr::F64Neg => a ^ 0x8000_0000_0000_0000u64,
        _ => (a & !0x8000_0000_0000_0000u64) | (b & 0x8000_0000_0000_0000u64),
    }
}

/// Wrapping subtraction undoes wrapping addition: `(a - b) + b` is `a`
/// for `i32.sub` and `i32.add`.
pub proof fn lemma_i32_sub_then_add(a: i32, b: i32)
    ensures
        spec_i32_binop(Instr::I32Sub, a, b) matches Some(d) && spec_i32_binop(Instr::I32Add, d, b)
            == Some(a),
{
    let d = wrap_i32(a - b);
    let m = 0x1_0000_0000int;
    assert(d == a - b || d == a - b + m || d == a - b - m);
    assert(wrap_i32(d + b) == a);
}

/// Wrapping subtraction undoes wrapping addition for `i64.sub` and
/// `i64.add`.
pub proof fn lemma_i64_sub_then_add(a: i64, b: i64)
    ensures
        spec_i64_binop(Instr::I64Sub, a, b) matches Some(d) && spec_i64_binop(Instr::I64Add, d, b)
            == Some(a),
{
    let d = wrap_i64(a - b);
    let m = 0x1_0000_0000_0000_0000int;
    assert(d == a - b || d == a - b + m || d == a - b - m);
    assert(wrap_i64(d + b) == a);
}

/// Rotating an `i32` left and then right by the same amount gives it back.
pub proof fn lemma_rotl_then_rotr(x: i32, n: i32)
    ensures
        spec_i32_binop(Instr::I32Rotl, x, n) matches Some(y) && spec_i32_binop(Instr::I32Rotr, y, n)
            == Some(x),
{
    let u = x as u32;
    let k = (n as u32) % 32;
    let y = rotl32(u, n as u32);
    assert(((y as i32) as u32) == y) by (bit_vector);
    let back = rotl32(y, (32 - k) as u32);
    if k == 0 {
        assert((32 - k) as u32 % 32 == 0);
        assert(back == u);
    } else {
        assert((32 - k) as u32 % 32 == 32 - k);
        assert(back == u) by (bit_vector)
            requires
                0 < k < 32,
                y == (u << k) | (u >> (32 - k) as u32),
                back == (y << (32 - k) as u32) | (y >> (32 - (32 - k)) as u32),
        ;
    }
    assert((u as i32) == x) by (bit_vector)
        requires
            u == x as u32,
    ;
}

/// The value of `a`'s 64 bits read as an unsigned number.
pub open spec fn unsigned64(a: i64) -> int {
    if a < 0 {
        a + 0x1_0000_0000_0000_0000
    } else {
        a as int
    }
}

/// The value of `a`'s 32 bits read as an unsigned number.
pub open spec fn unsigned32(a: i32) -> int {
    if a < 0 {
        a + 0x1_0000_0000
    } else {
        a as int
    }
}

/// The `i64` comparisons: the signed ones compare the values, the unsigned
/// ones compare the bits read as unsigned numbers, so a negative operand is
/// above every non-negative one.
pub proof fn lemma_i64_relops(a: i64, b: i64)
    ensures
        spec_i64_relop(Instr::I64Eq, a, b) == (a == b),
        spec_i64_relop(Instr::I64Ne, a, b) == (a != b),
        spec_i64_relop(Instr::I64LtS, a, b) == (a < b),
        spec_i64_relop(Instr::I64GtS, a, b) == (a > b),
        spec_i64_relop(Instr::I64LeS, a, b) == (a <= b),
        spec_i64_relop(Instr::I64GeS, a, b) == (a >= b),
        spec_i64_relop(Instr::I64LtU, a, b) == (unsigned64(a) < unsigned64(b)),
        spec_i64_relop(Instr::I64GtU, a, b) == (unsigned64(a) > unsigned64(b)),
        spec_i64_relop(Instr::I64LeU, a, b) == (unsigned64(a) <= unsigned64(b)),
        spec_i64_relop(Instr::I64GeU, a, b) == (unsigned64(a) >= unsigned64(b)),
        a < 0 <= b ==> spec_i64_relop(Instr::I64LtU, b, a) && !spec_i64_relop(Instr::I64LtU, a, b),
{
    assert(a < 0 ==> (a as u64) as int == a + 0x1_0000_0000_0000_0000) by (bit_vector);
    assert(a >= 0 ==> (a as u64) as int == a) by (bit_vector);
    assert(b < 0 ==> (b as u64) as int == b + 0x1_0000_0000_0000_0000) by (bit_vector);
    assert(b >= 0 ==> (b as u64) as int == b) by (bit_vector);
}

/// The `i32` comparisons: the signed ones compare the values, the unsigned
/// ones compare the bits read as unsigned numbers.
pub proof fn lemma_i32_relops(a: i32, b: i32)
    ensures
        spec_i32_relop(Instr::I32Eq, a, b) == (a == b),
        spec_i32_relop(Instr::I32Ne, a, b) == (a != b),
        spec_i32_relop(Instr::I32LtS, a, b) == (a < b),
        spec_i32_relop(Instr::I32GtS, a, b) == (a > b),
        spec_i32_relop(Instr::I32LeS, a, b) == (a <= b),
        spec_i32_relop(Instr::I32GeS, a, b) == (a >= b),
        spec_i32_relop(Instr::I32LtU, a, b) == (unsigned32(a) < unsigned32(b)),
        spec_i32_relop(Instr::I32GtU, a, b) == (unsigned32(a) > unsigned32(b)),
        spec_i32_relop(Instr::I32LeU, a, b) == (unsigned32(a) <= unsigned32(b)),
        spec_i32_relop(Instr::I32GeU, a, b) == (unsigned32(a) >= unsigned32(b)),
        a < 0 <= b ==> spec_i32_relop(Instr::I32LtU, b, a) && !spec_i32_relop(Instr::I32LtU, a, b),
{
    assert(a < 0 ==> (a as u32) as int == a + 0x1_0000_0000) by (bit_vector);
    assert(a >= 0 ==> (a as u32) as int == a) by (bit_vector);
    assert(b < 0 ==> (b as u32) as int == b + 0x1_0000_0000) by (bit_vector);
    assert(b >= 0 ==> (b as u32) as int == b) by (bit_vector);
}

/// The `f64` sign operators act on the sign bit (the top bit) alone:
/// `neg` flips it, so it changes every pattern and undoes itself; `abs`
/// clears it; `copysign` takes it from `b`. Read as numbers, `neg` adds or
/// removes 2^63.
pub proof fn lemma_f64_signops(a: u64, b: u64)
    ensures
        spec_f64_signop(Instr::F64Neg, a, b) as int == if a >= 0x8000_0000_0000_0000 {
            a - 0x8000_0000_0000_0000
        } else {
            a + 0x8000_0000_0000_0000
        },
        spec_f64_signop(Instr::F64Neg, a, b) != a,
        spec_f64_signop(Instr::F64Neg, spec_f64_signop(Instr::F64Neg, a, b), b) == a,
        spec_f64_signop(Instr::F64Abs, a, b) as int == if a >= 0x8000_0000_0000_0000 {
            a - 0x8000_0000_0000_0000
        } else {
            a as int
        },
        spec_f64_signop(Instr::F64Copysign, a, b) as int == (if a >= 0x8000_0000_0000_0000 {
            a - 0x8000_0000_0000_0000
        } else {
            a as int
        }) + (if b >= 0x8000_0000_0000_0000 {
            0x8000_0000_0000_0000int
        } else {
            0
        }),
{
    assert(a ^ 0x8000_0000_0000_0000u64 == (if a >= 0x8000_0000_0000_0000u64 {
        (a - 0x8000_0000_0000_0000u64) as u64
    } else {
        (a + 0x8000_0000_0000_0000u64) as u64
    })) by (bit_vector);
    assert((a ^ 0x8000_0000_0000_0000u64) ^ 0x8000_0000_0000_0000u64 == a) by (bit_vector);
    assert(a & !0x8000_0000_0000_0000u64 == (if a >= 0x8000_0000_0000_0000u64 {
        (a - 0x8000_0000_0000_0000u64) as u64
    } else {
        a
    })) by (bit_vector);
    assert((a & !0x8000_0000_0000_0000u64) | (b & 0x8000_0000_0000_0000u64) == (if a
        >= 0x8000_0000_0000_0000u64 {
        (a - 0x8000_0000_0000_0000u64) as u64
    } else {
        a
    }) + (if b >= 0x8000_0000_0000_0000u64 {
        0x8000_0000_0000_0000u64
    } else {
        0u64
    })) by (bit_vector);
}

/// The `f32` sign operators act on the sign bit (the top bit) alone:
/// `neg` flips it, so it changes every pattern and undoes itself; `abs`
/// clears it; `copysign` takes it from `b`.
pub proof fn lemma_f32_signops(a: u32, b: u32)
    ensures
        spec_f32_signop(Instr::F32Neg, a, b) as int == if a >= 0x8000_0000 {
            a - 0x8000_0000
        } else {
            a + 0x8000_0000
        },
        spec_f32_signop(Instr::F32Neg, a, b) != a,
        spec_f32_signop(Instr::F32Neg, spec_f32_signop(Instr::F32Neg, a, b), b) == a,
        spec_f32_signop(Instr::F32Abs, a, b) as int == if a >= 0x8000_0000 {
            a - 0x8000_0000
        } else {
            a as int
        },
        spec_f32_signop(Instr::F32Copysign, a, b) as int == (if a >= 0x8000_0000 {
            a - 0x8000_0000
        } else {
            a as int
        }) + (if b >= 0x8000_0000 {
            0x8000_0000int
        } else {
            0
        }),
{
    assert(a ^ 0x8000_0000u32 == (if a >= 0x8000_0000u32 {
        (a - 0x8000_0000u32) as u32
    } else {
        (a + 0x8000_0000u32) as u32
    })) by (bit_vector);
    assert((a ^ 0x8000_0000u32) ^ 0x8000_0000u32 == a) by (bit_vector);
    assert(a & !0x8000_0000u32 == (if a >= 0x8000_0000u32 {
        (a - 0x8000_0000u32) as u32
    } else {
        a
    })) by (bit_vector);
    assert((a & !0x8000_0000u32) | (b & 0x8000_0000u32) == (if a >= 0x8000_0000u32 {
        (a - 0x8000_0000u32) as u32
    } else {
        a
    }) + (if b >= 0x8000_0000u32 {
        0x8000_0000u32
    } else {
        0u32
    })) by (bit_vector);
}

} // verus!
