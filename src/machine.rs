use crate::alu::{alu_op, alu_spec, OP_DIV, OP_REM, OP_SHL, OP_SHR};
use crate::decode::{lemma_operand_bounds, opcode_of, operands_of, parse_instruction};
use crate::interrupts::{
    dispatch, InterruptModel, Interrupts, OVERFLOW_INTERRUPT, STACK_INTERRUPT,
};
use crate::memory::{read_word, u16_to_u32, word_at, word_fits, word_in_bounds};
use crate::registers::{RegisterModel, Registers};
use vstd::prelude::*;

verus! {

/// A condition that stops the machine for good.
#[derive(Debug, Clone, Copy, PartialEq, Eq, Structural)]
pub enum Fault {
    /// The program image has an odd number of bytes.
    OddImage,
    /// A fetch, read or store addressed a word outside memory.
    MemoryOutOfBounds,
    /// A division or remainder by zero.
    DivideByZero,
    /// A shift count outside `0..=15`.
    ShiftOutOfRange,
    /// An interrupt handler could not be entered: no call frame was left.
    InterruptStackExhausted,
    /// The output port was sent half of a surrogate pair.
    UnpairedSurrogate,
}

/// The abstract state of the whole machine.
#[verifier::ext_equal]
pub struct MachineModel {
    pub regs: RegisterModel,
    pub handlers: Seq<Option<u32>>,
    pub pending: Seq<u8>,
    pub ram: Seq<u8>,
    pub sleeping: bool,
}

impl MachineModel {
    pub open spec fn well_formed(self) -> bool {
        &&& self.regs.well_formed()
        &&& InterruptModel { handlers: self.handlers, pending: self.pending }.well_formed()
        &&& self.ram.len() % 2 == 0
    }
}

/// `ip` advanced by `inc` words, wrapping around at 2^32.
pub open spec fn next_ip(ip: u32, inc: u32) -> u32 {
    if ip + inc <= u32::MAX {
        (ip + inc) as u32
    } else {
        (ip + inc - 0x1_0000_0000) as u32
    }
}

/// The fault, if any, of ALU operation `op` with right operand `b`.
pub open spec fn alu_fault(op: u8, b: i16) -> Option<Fault> {
    if (op == OP_DIV || op == OP_REM) && b == 0 {
        Some(Fault::DivideByZero)
    } else if (op == OP_SHL || op == OP_SHR) && !(0 <= b <= 15) {
        Some(Fault::ShiftOutOfRange)
    } else {
        None
    }
}

/// Whether `u` is half of a UTF-16 surrogate pair.
pub open spec fn is_surrogate(u: u32) -> bool {
    0xD800 <= u <= 0xDFFF
}

/// Whether `c` is the character that code unit `u` encodes (or both are absent).
pub open spec fn emits(c: Option<char>, u: Option<u16>) -> bool {
    match (c, u) {
        (None, None) => true,
        (Some(c), Some(u)) => c as u32 == u,
        _ => false,
    }
}

/// The effect of executing instruction word `w` in state `s`: the new
/// state (before the instruction pointer advances), the number of words by
/// which the instruction pointer then advances, and the code unit sent to
/// the output port, if any.
pub open spec fn execute(s: MachineModel, w: u16) -> Result<(MachineModel, u32, Option<u16>), Fault> {
    let op = opcode_of(w);
    let args = operands_of(w);
    let regs = s.regs;
    if op == 0x0 {
        let v = regs.value(args[1] as int);
        Ok((MachineModel { regs: regs.written(args[0] as int, v), ..s }, 1, None))
    } else if op == 0x1 {
        let hi = regs.value(args[0] as int) as u16;
        let lo = regs.value(args[1] as int) as u16;
        Ok((MachineModel { regs: regs.with_ip((hi * 65536 + lo) as u32), ..s }, 0, None))
    } else if op == 0x2 || op == 0x3 {
        let alu = args[0];
        let b = if op == 0x2 {
            regs.value(args[1] as int)
        } else {
            args[1] as i16
        };
        match alu_fault(alu, b) {
            Some(f) => Err(f),
            None => {
                let (r, overflowed) = alu_spec(alu, regs.value(1), b);
                let pending = if overflowed {
                    s.pending.push(OVERFLOW_INTERRUPT)
                } else {
                    s.pending
                };
                Ok((MachineModel { regs: regs.written(1, r), pending, ..s }, 1, None))
            },
        }
    } else if op == 0x4 {
        let addr = args[0] * 65536 + args[1];
        if word_in_bounds(s.ram.len() as int, addr) {
            let v = word_at(s.ram, addr) as i16;
            Ok((MachineModel { regs: regs.written(2, v), ..s }, 1, None))
        } else {
            Err(Fault::MemoryOutOfBounds)
        }
    } else if op == 0x5 {
        let addr = (regs.value(args[0] as int) as u16) * 65536 + (regs.value(args[1] as int) as u16);
        let v = regs.value(2) as u16;
        if addr == 0 {
            if is_surrogate(v as u32) {
                Err(Fault::UnpairedSurrogate)
            } else {
                Ok((s, 1, Some(v)))
            }
        } else if word_in_bounds(s.ram.len() as int, addr) {
            let ram = s.ram.update(2 * addr, (v / 256) as u8).update(2 * addr + 1, (v % 256) as u8);
            Ok((MachineModel { ram, ..s }, 1, None))
        } else {
            Err(Fault::MemoryOutOfBounds)
        }
    } else if op == 0x6 {
        let addr = regs.value(args[1] as int) as u32;
        Ok((MachineModel { handlers: s.handlers.update(args[0] as int, Some(addr)), ..s }, 1, None))
    } else if op == 0x7 {
        Ok((MachineModel { sleeping: true, ..s }, 1, None))
    } else if op == 0x8 || op == 0x9 || op == 0xA || op == 0xB {
        let r = args[0] as int;
        let ok = if op == 0x8 {
            regs.can_save(r)
        } else if op == 0x9 {
            regs.can_restore(r)
        } else if op == 0xA {
            regs.can_push_frame()
        } else {
            regs.can_pop_frame()
        };
        let after = if op == 0x8 {
            regs.saved(r)
        } else if op == 0x9 {
            regs.restored(r)
        } else if op == 0xA {
            regs.frame_pushed()
        } else {
            regs.frame_popped()
        };
        if ok {
            Ok((MachineModel { regs: after, ..s }, 1, None))
        } else {
            Ok((MachineModel { pending: s.pending.push(STACK_INTERRUPT), ..s }, 1, None))
        }
    } else if op == 0xC {
        Ok((s, 1, None))
    } else {
        let acc = regs.value(1);
        let skip = if op == 0xD {
            acc == 0
        } else if op == 0xE {
            acc < 0
        } else {
            acc > 0
        };
        Ok((s, if skip { 2 } else { 1 }, None))
    }
}

/// One machine cycle from state `s`: pending interrupts are handled (an
/// entered handler wakes a sleeping machine); then, unless the machine
/// sleeps, the word at the instruction pointer is fetched and executed and
/// the instruction pointer advances. Yields the new state and the code unit
/// sent to the output port, if any.
pub open spec fn cycle(s: MachineModel) -> Result<(MachineModel, Option<u16>), Fault> {
    match dispatch(s.regs, s.handlers, s.pending) {
        None => Err(Fault::InterruptStackExhausted),
        Some((regs, entered)) => {
            let s1 = MachineModel {
                regs,
                pending: Seq::empty(),
                sleeping: s.sleeping && !entered,
                ..s
            };
            if s1.sleeping {
                Ok((s1, None))
            } else if !word_in_bounds(s1.ram.len() as int, s1.regs.ip() as int) {
                Err(Fault::MemoryOutOfBounds)
            } else {
                match execute(s1, word_at(s1.ram, s1.regs.ip() as int)) {
                    Err(f) => Err(f),
                    Ok((s2, inc, out)) => Ok(
                        (
                            MachineModel {
                                regs: s2.regs.with_ip(next_ip(s2.regs.ip(), inc)),
                                ..s2
                            },
                            out,
                        ),
                    ),
                }
            }
        },
    }
}

/// A division or remainder by zero, through `mtr` or `mti`, stops the
/// machine with `DivideByZero`: it yields no result, no overflow flag and
/// no interrupt.
pub proof fn lemma_zero_divisor_is_fatal(s: MachineModel, w: u16)
    requires
        s.well_formed(),
        opcode_of(w) == 0x2 || opcode_of(w) == 0x3,
        operands_of(w)[0] == OP_DIV || operands_of(w)[0] == OP_REM,
        opcode_of(w) == 0x2 ==> s.regs.value(operands_of(w)[1] as int) == 0,
        opcode_of(w) == 0x3 ==> operands_of(w)[1] == 0,
    ensures
        execute(s, w) == Err::<(MachineModel, u32, Option<u16>), Fault>(Fault::DivideByZero),
{
    lemma_operand_bounds(w);
}

/// Relies on `char::from_u32`: `Some` exactly for Unicode scalar values
/// (not a surrogate, at most 0x10FFFF), holding that value.
#[verifier::external_body]
fn char_from_u32(v: u32) -> (r: Option<char>)
    ensures
        r is Some <==> (v <= 0x10FFFF && !is_surrogate(v)),
        r is Some ==> r.unwrap() as u32 == v,
{
    char::from_u32(v)
}

fn advance(ip: u32, inc: u32) -> (r: u32)
    ensures
        r == next_ip(ip, inc),
{
    if ip <= u32::MAX - inc {
        ip + inc
    } else {
        ip - (u32::MAX - inc) - 1
    }
}

/// The virtual CPU: registers, interrupt controller, memory and sleep flag.
pub struct Machine {
    pub regs: Registers,
    pub interrupts: Interrupts,
    pub ram: Vec<u8>,
    pub sleeping: bool,
}

impl View for Machine {
    type V = MachineModel;

    open spec fn view(&self) -> MachineModel {
        MachineModel {
            regs: self.regs@,
            handlers: self.interrupts@.handlers,
            pending: self.interrupts@.pending,
            ram: self.ram@,
            sleeping: self.sleeping,
        }
    }
}

impl Machine {
    pub open spec fn wf(&self) -> bool {
        &&& self.regs.wf()
        &&& self.interrupts.wf()
        &&& self.ram.len() % 2 == 0
    }

    /// A machine with `image` as its memory, every register zero, no
    /// handler registered and nothing pending. Fails on an odd-length image.
    pub fn new(image: Vec<u8>) -> (r: Result<Machine, Fault>)
        ensures
            image.len() % 2 == 1 <==> r == Err::<Machine, Fault>(Fault::OddImage),
            image.len() % 2 == 0 <==> r is Ok,
            r matches Ok(m) ==> {
                &&& m.wf()
                &&& m@.regs == RegisterModel::initial()
                &&& m@.handlers == Seq::new(64, |i: int| None::<u32>)
                &&& m@.pending.len() == 0
                &&& m@.ram == image@
                &&& !m@.sleeping
            },
    {
        if image.len() % 2 == 1 {
            return Err(Fault::OddImage);
        }
        Ok(Machine { regs: Registers::new(), interrupts: Interrupts::new(), ram: image, sleeping: false })
    }

    /// Executes instruction word `w`, whose opcode is `op` and operands `args`,
    /// without advancing the instruction pointer. Returns the advance and the
    /// character sent to the output port, if any.
    fn execute(&mut self, w: u16, op: u8, args: &Vec<u8>) -> (r: Result<(u32, Option<char>), Fault>)
        requires
            old(self).wf(),
            op as nat == opcode_of(w),
            args@ == operands_of(w),
        ensures
            match execute(old(self)@, w) {
                Err(f) => r == Err::<(u32, Option<char>), Fault>(f),
                Ok((s, inc, out)) => {
                    &&& r is Ok
                    &&& r.unwrap().0 == inc
                    &&& emits(r.unwrap().1, out)
                    &&& final(self).wf()
                    &&& final(self)@ == s
                },
            },
    {
        let ghost pre = self@;
        proof {
            lemma_operand_bounds(w);
            vstd::arithmetic::power2::lemma2_to64();
        }
        if op == 0x0 {
            let v = self.regs.read(args[1]);
            self.regs.write(args[0], v);
            Ok((1, None))
        } else if op == 0x1 {
            let hi = self.regs.read(args[0]) as u16;
            let lo = self.regs.read(args[1]) as u16;
            self.regs.set_ip(u16_to_u32(hi, lo));
            Ok((0, None))
        } else if op == 0x2 || op == 0x3 {
            let alu = args[0];
            let b: i16 = if op == 0x2 {
                self.regs.read(args[1])
            } else {
                args[1] as i16
            };
            if (alu == OP_DIV || alu == OP_REM) && b == 0 {
                return Err(Fault::DivideByZero);
            }
            if (alu == OP_SHL || alu == OP_SHR) && (b < 0 || b > 15) {
                return Err(Fault::ShiftOutOfRange);
            }
            let a = self.regs.read(1);
            let (r, overflowed) = alu_op(alu, a, b);
            self.regs.write(1, r);
            if overflowed {
                self.interrupts.raise(OVERFLOW_INTERRUPT);
            }
            Ok((1, None))
        } else if op == 0x4 {
            let addr = u16_to_u32(args[0] as u16, args[1] as u16);
            if !word_fits(self.ram.len(), addr) {
                return Err(Fault::MemoryOutOfBounds);
            }
            let v = read_word(&self.ram, addr);
            self.regs.write(2, #[verifier::truncate] (v as i16));
            Ok((1, None))
        } else if op == 0x5 {
            let hi = self.regs.read(args[0]) as u16;
            let lo = self.regs.read(args[1]) as u16;
            let addr = u16_to_u32(hi, lo);
            let v = self.regs.read(2) as u16;
            if addr == 0 {
                match char_from_u32(v as u32) {
                    None => Err(Fault::UnpairedSurrogate),
                    Some(c) => Ok((1, Some(c))),
                }
            } else {
                if !word_fits(self.ram.len(), addr) {
                    return Err(Fault::MemoryOutOfBounds);
                }
                let i = addr as usize * 2;
                self.ram.set(i, (v / 256) as u8);
                self.ram.set(i + 1, (v % 256) as u8);
                assert(self@ =~= MachineModel {
                    ram: pre.ram.update(2 * addr, (v / 256) as u8).update(
                        2 * addr + 1,
                        (v % 256) as u8,
                    ),
                    ..pre
                });
                Ok((1, None))
            }
        } else if op == 0x6 {
            let v = self.regs.read(args[1]);
            self.interrupts.register(args[0], v as u32);
            Ok((1, None))
        } else if op == 0x7 {
            self.sleeping = true;
            Ok((1, None))
        } else if op == 0x8 {
            if !self.regs.push_reg(args[0]) {
                self.interrupts.raise(STACK_INTERRUPT);
            }
            Ok((1, None))
        } else if op == 0x9 {
            if !self.regs.pop_reg(args[0]) {
                self.interrupts.raise(STACK_INTERRUPT);
            }
            Ok((1, None))
        } else if op == 0xA {
            if !self.regs.push_frame() {
                self.interrupts.raise(STACK_INTERRUPT);
            }
            Ok((1, None))
        } else if op == 0xB {
            if !self.regs.pop_frame() {
                self.interrupts.raise(STACK_INTERRUPT);
            }
            Ok((1, None))
        } else if op == 0xC {
            Ok((1, None))
        } else {
            let acc = self.regs.read(1);
            let skip = if op == 0xD {
                acc == 0
            } else if op == 0xE {
                acc < 0
            } else {
                acc > 0
            };
            Ok((if skip { 2 } else { 1 }, None))
        }
    }

    /// Runs one machine cycle. Returns the character sent to the output
    /// port, if any, or the fault that stops the machine.
    pub fn step(&mut self) -> (r: Result<Option<char>, Fault>)
        requires
            old(self).wf(),
        ensures
            match cycle(old(self)@) {
                Err(f) => r == Err::<Option<char>, Fault>(f),
                Ok((s, out)) => {
                    &&& r is Ok
                    &&& emits(r.unwrap(), out)
                    &&& final(self).wf()
                    &&& final(self)@ == s
                },
            },
    {
        match self.interrupts.drain_and_dispatch(&mut self.regs) {
            Err(_) => {
                return Err(Fault::InterruptStackExhausted);
            },
            Ok(entered) => {
                if entered {
                    self.sleeping = false;
                }
            },
        }
        if self.sleeping {
            return Ok(None);
        }
        let ip = self.regs.get_ip();
        if !word_fits(self.ram.len(), ip) {
            return Err(Fault::MemoryOutOfBounds);
        }
        let w = read_word(&self.ram, ip);
        let (op, args) = parse_instruction(w);
        match self.execute(w, op, &args) {
            Err(f) => Err(f),
            Ok((inc, out)) => {
                let cur = self.regs.get_ip();
                self.regs.set_ip(advance(cur, inc));
                Ok(out)
            },
        }
    }
}

} // verus!
