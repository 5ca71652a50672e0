use vstd::arithmetic::power2::pow2;
use vstd::bits::{lemma_u32_shl_is_mul, lemma_u32_shr_is_div};
use vstd::prelude::*;

verus! {

/// The `len`-bit unsigned field of `w` that starts at bit `start`, counting
/// bit 0 as the least significant.
pub open spec fn field(w: u16, start: nat, len: nat) -> nat {
    (w as nat / pow2(start)) % pow2(len)
}

/// Extracts the `len`-bit unsigned field of `num` starting at bit `start`.
pub fn extract_bits(num: u16, start: u8, len: u8) -> (r: u16)
    requires
        start + len <= 16,
    ensures
        r as nat == field(num, start as nat, len as nat),
{
    let x: u32 = num as u32;
    let shifted: u32 = x >> (start as u32);
    let modulus: u32 = 1u32 << (len as u32);
    proof {
        lemma_u32_shr_is_div(x, start as u32);
        vstd::bits::lemma_u32_pow2_no_overflow(len as nat);
        lemma_u32_shl_is_mul(1u32, len as u32);
        vstd::arithmetic::power2::lemma_pow2_pos(start as nat);
        vstd::arithmetic::div_mod::lemma_div_is_ordered_by_denominator(x as int, 1, pow2(start as nat) as int);
        vstd::arithmetic::div_mod::lemma_div_basics(x as int);
        vstd::arithmetic::div_mod::lemma_mod_decreases(shifted as nat, modulus as nat);
    }
    let r: u32 = shifted % modulus;
    r as u16
}

/// Where each operand of an instruction with opcode `op` lies in the word:
/// a sequence of (start bit, width) pairs, in operand order.
pub open spec fn operand_layout(op: nat) -> Seq<(nat, nat)> {
    if op == 0x0 || op == 0x1 || op == 0x4 || op == 0x5 || op == 0x6 || op == 0xA {
        seq![(6, 6), (0, 6)]
    } else if op == 0x2 {
        seq![(8, 4), (2, 6)]
    } else if op == 0x3 {
        seq![(8, 4), (0, 8)]
    } else if op == 0x8 || op == 0x9 {
        seq![(6, 6)]
    } else {
        seq![]
    }
}

/// The opcode of an instruction word: its most significant nibble.
pub open spec fn opcode_of(w: u16) -> nat {
    field(w, 12, 4)
}

/// The operands of an instruction word, extracted by its opcode's layout.
pub open spec fn operands_of(w: u16) -> Seq<u8> {
    operand_layout(opcode_of(w)).map_values(|p: (nat, nat)| field(w, p.0, p.1) as u8)
}

fn operand(ins: u16, start: u8, len: u8) -> (r: u8)
    requires
        start + len <= 16,
        len <= 8,
    ensures
        r as nat == field(ins, start as nat, len as nat),
{
    let v = extract_bits(ins, start, len);
    proof {
        vstd::arithmetic::power2::lemma_pow2_pos(start as nat);
        if len < 8 {
            vstd::arithmetic::power2::lemma_pow2_strictly_increases(len as nat, 8);
        }
        vstd::arithmetic::power2::lemma2_to64();
    }
    v as u8
}

/// Splits an instruction word into its opcode and its operand list.
pub fn parse_instruction(ins: u16) -> (r: (u8, Vec<u8>))
    ensures
        r.0 as nat == opcode_of(ins),
        r.0 < 16,
        r.1@ == operands_of(ins),
{
    let opcode = extract_bits(ins, 12, 4) as u8;
    proof {
        vstd::arithmetic::power2::lemma2_to64();
    }
    let args: Vec<u8> = match opcode {
        0x0 | 0x1 | 0x4 | 0x5 | 0x6 | 0xA => vec![operand(ins, 6, 6), operand(ins, 0, 6)],
        0x2 => vec![operand(ins, 8, 4), operand(ins, 2, 6)],
        0x3 => vec![operand(ins, 8, 4), operand(ins, 0, 8)],
        0x8 | 0x9 => vec![operand(ins, 6, 6)],
        _ => vec![],
    };
    assert(args@ =~= operands_of(ins));
    (opcode, args)
}

/// Every instruction word has the opcode in its top nibble and exactly the
/// operands its opcode's layout gives, each no wider than its field:
/// register operands below 64, ALU selectors below 16, immediates below 256.
pub proof fn lemma_operand_bounds(w: u16)
    ensures
        opcode_of(w) < 16,
        operands_of(w).len() == operand_layout(opcode_of(w)).len(),
        forall|i: int|
            0 <= i < operands_of(w).len() ==> (#[trigger] operands_of(w)[i]) as nat == field(
                w,
                operand_layout(opcode_of(w))[i].0,
                operand_layout(opcode_of(w))[i].1,
            ) && (operands_of(w)[i] as nat) < pow2(operand_layout(opcode_of(w))[i].1),
{
    vstd::arithmetic::power2::lemma2_to64();
    let layout = operand_layout(opcode_of(w));
    assert forall|i: int| 0 <= i < operands_of(w).len() implies (#[trigger] operands_of(
        w,
    )[i]) as nat == field(w, layout[i].0, layout[i].1) && (operands_of(w)[i] as nat) < pow2(
        layout[i].1,
    ) by {
        let p = layout[i];
        vstd::arithmetic::power2::lemma_pow2_pos(p.1);
        assert(p.1 <= 8);
        if p.1 < 8 {
            vstd::arithmetic::power2::lemma_pow2_strictly_increases(p.1, 8);
        }
    }
}

} // verus!
