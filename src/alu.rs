use vstd::arithmetic::power::pow;
use vstd::prelude::*;

verus! {

pub const OP_ADD: u8 = 0x0;
pub const OP_SUB: u8 = 0x1;
pub const OP_MUL: u8 = 0x2;
pub const OP_DIV: u8 = 0x3;
pub const OP_POW: u8 = 0x4;
pub const OP_REM: u8 = 0x5;
pub const OP_AND: u8 = 0x6;
pub const OP_OR: u8 = 0x7;
pub const OP_XOR: u8 = 0x8;
pub const OP_NOT: u8 = 0x9;
pub const OP_SHL: u8 = 0xA;
pub const OP_SHR: u8 = 0xB;

/// Whether `x` lies in the signed 16-bit range.
pub open spec fn fits16(x: int) -> bool {
    -32768 <= x <= 32767
}

/// `x` reduced into the signed 16-bit range, as two's-complement wraparound does.
pub open spec fn wrap16(x: int) -> int {
    (x + 32768) % 65536 - 32768
}

pub open spec fn magnitude(x: int) -> nat {
    if x < 0 {
        (-x) as nat
    } else {
        x as nat
    }
}

/// Division rounding toward zero.
pub open spec fn trunc_div(a: int, b: int) -> int {
    let q = magnitude(a) / magnitude(b);
    if (a < 0) == (b < 0) {
        q as int
    } else {
        -(q as int)
    }
}

/// The remainder of division rounding toward zero: it takes the sign of `a`.
pub open spec fn trunc_rem(a: int, b: int) -> int {
    let m = magnitude(a) % magnitude(b);
    if a < 0 {
        -(m as int)
    } else {
        m as int
    }
}

/// The exact mathematical result of arithmetic operation `op` (add, sub,
/// mul, div, pow, rem) on `a` and `b`. The exponent of pow is `b` read as
/// an unsigned 32-bit number.
pub open spec fn exact_result(op: u8, a: i16, b: i16) -> int {
    if op == OP_ADD {
        a + b
    } else if op == OP_SUB {
        a - b
    } else if op == OP_MUL {
        a * b
    } else if op == OP_DIV {
        trunc_div(a as int, b as int)
    } else if op == OP_POW {
        pow(a as int, (b as u32) as nat)
    } else {
        trunc_rem(a as int, b as int)
    }
}

/// The inputs on which `op` gives a result: no division or remainder by
/// zero, and shift counts within `0..=15`.
pub open spec fn alu_defined(op: u8, a: i16, b: i16) -> bool {
    &&& (op == OP_DIV || op == OP_REM) ==> b != 0
    &&& (op == OP_SHL || op == OP_SHR) ==> 0 <= b <= 15
}

/// What the ALU yields for `op` on `a` and `b`: the result and whether the
/// arithmetic overflowed. Opcodes past the twelve defined ones give `(0, false)`.
pub open spec fn alu_spec(op: u8, a: i16, b: i16) -> (i16, bool) {
    if op <= OP_REM {
        let x = exact_result(op, a, b);
        (wrap16(x) as i16, !fits16(x))
    } else if op == OP_AND {
        (a & b, false)
    } else if op == OP_OR {
        (a | b, false)
    } else if op == OP_XOR {
        (a ^ b, false)
    } else if op == OP_NOT {
        (!a, false)
    } else if op == OP_SHL {
        (a << (b as u32), false)
    } else if op == OP_SHR {
        (a >> (b as u32), false)
    } else {
        (0, false)
    }
}

proof fn lemma_wrap_shift(x: int, k: int)
    ensures
        wrap16(x + 65536 * k) == wrap16(x),
{
    vstd::arithmetic::div_mod::lemma_mod_multiples_vanish(k, x + 32768, 65536);
    assert(x + 65536 * k + 32768 == 65536 * k + (x + 32768));
}

/// `wrap16` is two's-complement wraparound: it lands in the signed 16-bit
/// range, differs from its argument by a multiple of 2^16, and leaves values
/// already in range unchanged.
pub proof fn lemma_wrap16_is_wraparound(x: int)
    ensures
        fits16(wrap16(x)),
        (x - wrap16(x)) % 65536 == 0,
        fits16(x) ==> wrap16(x) == x,
{
    let q = (x + 32768) / 65536;
    vstd::arithmetic::div_mod::lemma_fundamental_div_mod(x + 32768, 65536);
    assert(x - wrap16(x) == 65536 * q);
    vstd::arithmetic::div_mod::lemma_mod_multiples_basic(q, 65536);
    assert((65536 * q) % 65536 == 0) by {
        vstd::arithmetic::mul::lemma_mul_is_commutative(q, 65536);
    }
    if fits16(x) {
        vstd::arithmetic::div_mod::lemma_small_mod((x + 32768) as nat, 65536);
    }
}

/// Reduces `x` into the signed 16-bit range.
fn wrap(x: i64) -> (r: i16)
    requires
        -0x100_0000_0000 <= x <= 0x100_0000_0000,
    ensures
        r as int == wrap16(x as int),
{
    let u: u64 = (x + 0x100_0000_0000 + 32768) as u64;
    let m: u64 = u % 65536;
    proof {
        lemma_wrap_shift(x as int, 0x100_0000int);
        assert(u as int == (x + 65536 * 0x100_0000int) + 32768);
    }
    (m as i64 - 32768) as i16
}

fn magnitude_of(x: i16) -> (r: u32)
    ensures
        r as nat == magnitude(x as int),
{
    if x < 0 {
        (-(x as i32)) as u32
    } else {
        x as u32
    }
}

/// Relies on `i16::overflowing_pow`: the power wrapped into 16 bits, and
/// whether the true power lies outside the signed 16-bit range.
#[verifier::external_body]
fn overflowing_pow(a: i16, e: u32) -> (r: (i16, bool))
    ensures
        r.0 as int == wrap16(pow(a as int, e as nat)),
        r.1 == !fits16(pow(a as int, e as nat)),
{
    a.overflowing_pow(e)
}

/// Applies ALU operation `op` to `a` and `b`, returning the result and
/// whether the arithmetic overflowed.
pub fn alu_op(op: u8, a: i16, b: i16) -> (r: (i16, bool))
    requires
        alu_defined(op, a, b),
    ensures
        r == alu_spec(op, a, b),
        op <= OP_REM ==> r.0 as int == wrap16(exact_result(op, a, b)) && r.1 == !fits16(
            exact_result(op, a, b),
        ),
        op > OP_REM ==> !r.1,
{
    if op == OP_ADD || op == OP_SUB || op == OP_MUL {
        let x: i64 = if op == OP_ADD {
            a as i64 + b as i64
        } else if op == OP_SUB {
            a as i64 - b as i64
        } else {
            assert(-0x4000_0000 <= a * b <= 0x4000_0000) by (nonlinear_arith)
                requires
                    -32768 <= a <= 32767,
                    -32768 <= b <= 32767,
            ;
            a as i64 * b as i64
        };
        let r = wrap(x);
        (r, !(-32768 <= x && x <= 32767))
    } else if op == OP_DIV || op == OP_REM {
        let ma = magnitude_of(a);
        let mb = magnitude_of(b);
        let x: i64 = if op == OP_DIV {
            let q = ma / mb;
            if (a < 0) == (b < 0) {
                q as i64
            } else {
                -(q as i64)
            }
        } else {
            let m = ma % mb;
            if a < 0 {
                -(m as i64)
            } else {
                m as i64
            }
        };
        let r = wrap(x);
        (r, !(-32768 <= x && x <= 32767))
    } else if op == OP_POW {
        overflowing_pow(a, b as u32)
    } else if op == OP_AND {
        (a & b, false)
    } else if op == OP_OR {
        (a | b, false)
    } else if op == OP_XOR {
        (a ^ b, false)
    } else if op == OP_NOT {
        (!a, false)
    } else if op == OP_SHL {
        (a << (b as u32), false)
    } else if op == OP_SHR {
        (a >> (b as u32), false)
    } else {
        (0, false)
    }
}

} // verus!
