use vstd::prelude::*;

verus! {

/// How many call frames the register file holds (the deepest frame is `FRAMES - 1`).
pub const FRAMES: usize = 256;

/// How many general registers each call frame holds (indices 4 to 35).
pub const GENERALS: usize = 32;

/// How many procedure registers there are (indices 36 to 63).
pub const PROCS: usize = 28;

/// How many save levels each procedure register's stack holds.
pub const LEVELS: usize = 256;

/// Number of addressable registers.
pub const REGISTER_COUNT: u8 = 64;

/// Index of the first general register.
pub const FIRST_GENERAL: u8 = 4;

/// Index of the first procedure register.
pub const FIRST_PROC: u8 = 36;

pub open spec fn zeros(n: nat) -> Seq<i16> {
    Seq::new(n, |i: int| 0i16)
}

pub open spec fn is_proc_register(r: int) -> bool {
    FIRST_PROC <= r < REGISTER_COUNT
}

/// The abstract state of a register file.
#[verifier::ext_equal]
pub struct RegisterModel {
    /// Current call-frame depth.
    pub depth: nat,
    /// Instruction pointer of each frame.
    pub ips: Seq<u32>,
    /// Accumulator (register 1) of each frame.
    pub accs: Seq<i16>,
    /// Memory-operand register (register 2) of each frame.
    pub mems: Seq<i16>,
    /// The input register (register 3), shared by all frames.
    pub input: u16,
    /// The general registers of each frame: `generals[frame][index - 4]`.
    pub generals: Seq<Seq<i16>>,
    /// The save stack of each procedure register: `procs[index - 36][level]`.
    pub procs: Seq<Seq<i16>>,
    /// The current save level of each procedure register.
    pub proc_depths: Seq<nat>,
}

impl RegisterModel {
    pub open spec fn well_formed(self) -> bool {
        &&& self.depth < FRAMES
        &&& self.ips.len() == FRAMES
        &&& self.accs.len() == FRAMES
        &&& self.mems.len() == FRAMES
        &&& self.generals.len() == FRAMES
        &&& forall|f: int| 0 <= f < FRAMES ==> (#[trigger] self.generals[f]).len() == GENERALS
        &&& self.procs.len() == PROCS
        &&& forall|k: int| 0 <= k < PROCS ==> (#[trigger] self.procs[k]).len() == LEVELS
        &&& self.proc_depths.len() == PROCS
        &&& forall|k: int| 0 <= k < PROCS ==> #[trigger] self.proc_depths[k] < LEVELS
    }

    /// The freshly reset register file: depth 0 and every value zero.
    pub open spec fn initial() -> RegisterModel {
        RegisterModel {
            depth: 0,
            ips: Seq::new(FRAMES as nat, |i: int| 0u32),
            accs: zeros(FRAMES as nat),
            mems: zeros(FRAMES as nat),
            input: 0,
            generals: Seq::new(FRAMES as nat, |i: int| zeros(GENERALS as nat)),
            procs: Seq::new(PROCS as nat, |i: int| zeros(LEVELS as nat)),
            proc_depths: Seq::new(PROCS as nat, |i: int| 0nat),
        }
    }

    /// What reading register `r` yields.
    pub open spec fn value(self, r: int) -> i16 {
        let d = self.depth as int;
        if r == 0 {
            0
        } else if r == 1 {
            self.accs[d]
        } else if r == 2 {
            self.mems[d]
        } else if r == 3 {
            self.input as i16
        } else if r < FIRST_PROC {
            self.generals[d][r - FIRST_GENERAL]
        } else {
            let k = r - FIRST_PROC;
            self.procs[k][self.proc_depths[k] as int]
        }
    }

    /// The state after writing `v` to register `r`.
    pub open spec fn written(self, r: int, v: i16) -> RegisterModel {
        let d = self.depth as int;
        if r == 0 {
            self
        } else if r == 1 {
            RegisterModel { accs: self.accs.update(d, v), ..self }
        } else if r == 2 {
            RegisterModel { mems: self.mems.update(d, v), ..self }
        } else if r == 3 {
            RegisterModel { input: v as u16, ..self }
        } else if r < FIRST_PROC {
            RegisterModel {
                generals: self.generals.update(d, self.generals[d].update(r - FIRST_GENERAL, v)),
                ..self
            }
        } else {
            let k = r - FIRST_PROC;
            let level = self.proc_depths[k] as int;
            RegisterModel { procs: self.procs.update(k, self.procs[k].update(level, v)), ..self }
        }
    }

    /// The current frame's instruction pointer.
    pub open spec fn ip(self) -> u32 {
        self.ips[self.depth as int]
    }

    /// The state with the current frame's instruction pointer set to `n`.
    pub open spec fn with_ip(self, n: u32) -> RegisterModel {
        RegisterModel { ips: self.ips.update(self.depth as int, n), ..self }
    }

    pub open spec fn can_push_frame(self) -> bool {
        self.depth + 1 < FRAMES
    }

    /// The state after entering a new call frame, whose registers and
    /// instruction pointer start at zero.
    pub open spec fn frame_pushed(self) -> RegisterModel {
        let d: int = (self.depth + 1) as int;
        RegisterModel {
            depth: d as nat,
            ips: self.ips.update(d, 0),
            accs: self.accs.update(d, 0),
            mems: self.mems.update(d, 0),
            generals: self.generals.update(d, zeros(GENERALS as nat)),
            ..self
        }
    }

    pub open spec fn can_pop_frame(self) -> bool {
        self.depth > 0
    }

    /// The state after returning to the parent call frame.
    pub open spec fn frame_popped(self) -> RegisterModel {
        RegisterModel { depth: (self.depth - 1) as nat, ..self }
    }

    /// The save level of register `r`, a procedure register.
    pub open spec fn proc_depth(self, r: int) -> nat {
        self.proc_depths[r - FIRST_PROC]
    }

    pub open spec fn can_save(self, r: int) -> bool {
        is_proc_register(r) && self.proc_depth(r) + 1 < LEVELS
    }

    /// The state after saving procedure register `r`: one level deeper, the
    /// new level zeroed.
    pub open spec fn saved(self, r: int) -> RegisterModel {
        let k = r - FIRST_PROC;
        let level: int = (self.proc_depths[k] + 1) as int;
        RegisterModel {
            procs: self.procs.update(k, self.procs[k].update(level, 0)),
            proc_depths: self.proc_depths.update(k, level as nat),
            ..self
        }
    }

    pub open spec fn can_restore(self, r: int) -> bool {
        is_proc_register(r) && self.proc_depth(r) > 0
    }

    /// The state after restoring procedure register `r` to its previous level.
    pub open spec fn restored(self, r: int) -> RegisterModel {
        let k = r - FIRST_PROC;
        RegisterModel {
            proc_depths: self.proc_depths.update(k, (self.proc_depths[k] - 1) as nat),
            ..self
        }
    }
}

/// The register file: banked per-frame registers, the shared input
/// register, and a save stack per procedure register.
pub struct Registers {
    ip: Vec<u32>,
    acc: Vec<i16>,
    mem: Vec<i16>,
    inn: u16,
    g_reg: Vec<Vec<i16>>,
    p_reg: Vec<Vec<i16>>,
    p_stack_frames: Vec<u8>,
    stack_frame: u8,
}

impl View for Registers {
    type V = RegisterModel;

    closed spec fn view(&self) -> RegisterModel {
        RegisterModel {
            depth: self.stack_frame as nat,
            ips: self.ip@,
            accs: self.acc@,
            mems: self.mem@,
            input: self.inn,
            generals: self.g_reg@.map_values(|row: Vec<i16>| row@),
            procs: self.p_reg@.map_values(|row: Vec<i16>| row@),
            proc_depths: self.p_stack_frames@.map_values(|d: u8| d as nat),
        }
    }
}

fn zeroed(n: usize) -> (v: Vec<i16>)
    ensures
        v@ == zeros(n as nat),
{
    let mut v: Vec<i16> = Vec::new();
    let mut i: usize = 0;
    while i < n
        invariant
            i <= n,
            v@ == zeros(i as nat),
        decreases n - i,
    {
        v.push(0);
        i = i + 1;
        assert(v@ =~= zeros(i as nat));
    }
    v
}

impl Registers {
    pub open spec fn wf(&self) -> bool {
        self@.well_formed()
    }

    /// A register file at depth 0 with every register zero.
    pub fn new() -> (r: Registers)
        ensures
            r.wf(),
            r@ == RegisterModel::initial(),
    {
        let mut ip: Vec<u32> = Vec::new();
        let mut g_reg: Vec<Vec<i16>> = Vec::new();
        let mut i: usize = 0;
        while i < FRAMES
            invariant
                i <= FRAMES,
                ip@ == Seq::new(i as nat, |j: int| 0u32),
                g_reg@.len() == i,
                forall|j: int| 0 <= j < i ==> (#[trigger] g_reg@[j])@ == zeros(GENERALS as nat),
            decreases FRAMES - i,
        {
            ip.push(0);
            g_reg.push(zeroed(GENERALS));
            i = i + 1;
            assert(ip@ =~= Seq::new(i as nat, |j: int| 0u32));
        }
        let mut p_reg: Vec<Vec<i16>> = Vec::new();
        let mut p_stack_frames: Vec<u8> = Vec::new();
        let mut k: usize = 0;
        while k < PROCS
            invariant
                k <= PROCS,
                p_stack_frames@ == Seq::new(k as nat, |j: int| 0u8),
                p_reg@.len() == k,
                forall|j: int| 0 <= j < k ==> (#[trigger] p_reg@[j])@ == zeros(LEVELS as nat),
            decreases PROCS - k,
        {
            p_reg.push(zeroed(LEVELS));
            p_stack_frames.push(0);
            k = k + 1;
            assert(p_stack_frames@ =~= Seq::new(k as nat, |j: int| 0u8));
        }
        let r = Registers {
            ip,
            acc: zeroed(FRAMES),
            mem: zeroed(FRAMES),
            inn: 0,
            g_reg,
            p_reg,
            p_stack_frames,
            stack_frame: 0,
        };
        assert(r@ =~~= RegisterModel::initial());
        r
    }

    proof fn lemma_rows(&self, f: int)
        requires
            self.wf(),
            0 <= f < FRAMES,
        ensures
            self.g_reg@[f]@ == self@.generals[f],
            self.g_reg@[f]@.len() == GENERALS,
            forall|k: int|
                0 <= k < PROCS ==> (#[trigger] self.p_reg@[k])@ == self@.procs[k]
                    && self.p_reg@[k]@.len() == LEVELS && self.p_stack_frames@[k] as nat
                    == self@.proc_depths[k] && self.p_stack_frames@[k] < LEVELS,
    {
        assert forall|k: int| 0 <= k < PROCS implies (#[trigger] self.p_reg@[k])@ == self@.procs[k]
            && self.p_reg@[k]@.len() == LEVELS && self.p_stack_frames@[k] as nat
            == self@.proc_depths[k] && self.p_stack_frames@[k] < LEVELS by {
            assert(self@.procs[k].len() == LEVELS);
            assert(self@.proc_depths[k] < LEVELS);
        }
    }

    /// Reads register `register` of the current frame.
    pub fn read(&self, register: u8) -> (r: i16)
        requires
            self.wf(),
            register < REGISTER_COUNT,
        ensures
            r == self@.value(register as int),
    {
        let d = self.stack_frame as usize;
        proof {
            self.lemma_rows(d as int);
        }
        if register == 0 {
            0
        } else if register == 1 {
            self.acc[d]
        } else if register == 2 {
            self.mem[d]
        } else if register == 3 {
            self.inn as i16
        } else if register < FIRST_PROC {
            self.g_reg[d][(register - FIRST_GENERAL) as usize]
        } else {
            let k = (register - FIRST_PROC) as usize;
            self.p_reg[k][self.p_stack_frames[k] as usize]
        }
    }

    /// Writes `value` to register `register`; writes to register 0 are discarded.
    pub fn write(&mut self, register: u8, value: i16)
        requires
            old(self).wf(),
            register < REGISTER_COUNT,
        ensures
            final(self).wf(),
            final(self)@ == old(self)@.written(register as int, value),
    {
        let ghost pre = self@;
        let d = self.stack_frame as usize;
        proof {
            self.lemma_rows(d as int);
        }
        if register == 0 {
            return;
        } else if register == 1 {
            self.acc.set(d, value);
        } else if register == 2 {
            self.mem.set(d, value);
        } else if register == 3 {
            self.inn = #[verifier::truncate] (value as u16);
        } else if register < FIRST_PROC {
            self.g_reg[d][(register - FIRST_GENERAL) as usize] = value;
        } else {
            let k = (register - FIRST_PROC) as usize;
            let level = self.p_stack_frames[k] as usize;
            self.p_reg[k][level] = value;
        }
        assert(self@ =~~= pre.written(register as int, value));
    }

    /// Saves procedure register `register`: its stack goes one level deeper
    /// and the new level starts at zero. Fails, changing nothing, when the
    /// stack is full or `register` is no procedure register.
    pub fn push_reg(&mut self, register: u8) -> (r: bool)
        requires
            old(self).wf(),
        ensures
            final(self).wf(),
            r == old(self)@.can_save(register as int),
            final(self)@ == if r {
                old(self)@.saved(register as int)
            } else {
                old(self)@
            },
    {
        let ghost pre = self@;
        if register >= FIRST_PROC && register < REGISTER_COUNT {
            let k = (register - FIRST_PROC) as usize;
            proof {
                self.lemma_rows(self.stack_frame as int);
            }
            let level = self.p_stack_frames[k];
            if (level as usize) + 1 < LEVELS {
                self.p_stack_frames.set(k, level + 1);
                self.p_reg[k][(level + 1) as usize] = 0;
                assert(self@ =~~= pre.saved(register as int));
                true
            } else {
                false
            }
        } else {
            false
        }
    }

    /// Restores procedure register `register` to its previous level. Fails,
    /// changing nothing, at level 0 or when `register` is no procedure register.
    pub fn pop_reg(&mut self, register: u8) -> (r: bool)
        requires
            old(self).wf(),
        ensures
            final(self).wf(),
            r == old(self)@.can_restore(register as int),
            final(self)@ == if r {
                old(self)@.restored(register as int)
            } else {
                old(self)@
            },
    {
        let ghost pre = self@;
        if register >= FIRST_PROC && register < REGISTER_COUNT {
            let k = (register - FIRST_PROC) as usize;
            proof {
                self.lemma_rows(self.stack_frame as int);
            }
            let level = self.p_stack_frames[k];
            if level > 0 {
                self.p_stack_frames.set(k, level - 1);
                assert(self@ =~~= pre.restored(register as int));
                true
            } else {
                false
            }
        } else {
            false
        }
    }

    /// Enters a new call frame whose registers and instruction pointer start
    /// at zero. Fails, changing nothing, at the deepest frame.
    pub fn push_frame(&mut self) -> (r: bool)
        requires
            old(self).wf(),
        ensures
            final(self).wf(),
            r == old(self)@.can_push_frame(),
            final(self)@ == if r {
                old(self)@.frame_pushed()
            } else {
                old(self)@
            },
    {
        let ghost pre = self@;
        if (self.stack_frame as usize) + 1 < FRAMES {
            let d = (self.stack_frame + 1) as usize;
            self.stack_frame = self.stack_frame + 1;
            self.acc.set(d, 0);
            self.mem.set(d, 0);
            self.g_reg.set(d, zeroed(GENERALS));
            self.ip.set(d, 0);
            assert(self@ =~~= pre.frame_pushed());
            true
        } else {
            false
        }
    }

    /// Returns to the parent call frame, whose registers are as they were.
    /// Fails, changing nothing, at depth 0.
    pub fn pop_frame(&mut self) -> (r: bool)
        requires
            old(self).wf(),
        ensures
            final(self).wf(),
            r == old(self)@.can_pop_frame(),
            final(self)@ == if r {
                old(self)@.frame_popped()
            } else {
                old(self)@
            },
    {
        let ghost pre = self@;
        if self.stack_frame > 0 {
            self.stack_frame = self.stack_frame - 1;
            assert(self@ =~~= pre.frame_popped());
            true
        } else {
            false
        }
    }

    /// Advances the current frame's instruction pointer by one word.
    pub fn increment_ip(&mut self)
        requires
            old(self).wf(),
            old(self)@.ip() < u32::MAX,
        ensures
            final(self).wf(),
            final(self)@ == old(self)@.with_ip((old(self)@.ip() + 1) as u32),
    {
        self.increment_ip_by_n(1);
    }

    /// Advances the current frame's instruction pointer by `n` words.
    pub fn increment_ip_by_n(&mut self, n: u32)
        requires
            old(self).wf(),
            old(self)@.ip() + n <= u32::MAX,
        ensures
            final(self).wf(),
            final(self)@ == old(self)@.with_ip((old(self)@.ip() + n) as u32),
    {
        let d = self.stack_frame as usize;
        let cur = self.ip[d];
        self.set_ip(cur + n);
    }

    /// Sets the current frame's instruction pointer.
    pub fn set_ip(&mut self, n: u32)
        requires
            old(self).wf(),
        ensures
            final(self).wf(),
            final(self)@ == old(self)@.with_ip(n),
    {
        let ghost pre = self@;
        let d = self.stack_frame as usize;
        self.ip.set(d, n);
        assert(self@ =~~= pre.with_ip(n));
    }

    /// The current frame's instruction pointer.
    pub fn get_ip(&self) -> (r: u32)
        requires
            self.wf(),
        ensures
            r == self@.ip(),
    {
        self.ip[self.stack_frame as usize]
    }
}

/// Register 0 reads as zero whatever was written to it.
pub proof fn lemma_zero_register_ignores_writes(m: RegisterModel, v: i16)
    requires
        m.well_formed(),
    ensures
        m.written(0, v).value(0) == 0,
{
}

/// The input register is shared by all frames: a value written to it reads
/// back unchanged from the frame entered next.
pub proof fn lemma_input_shared_across_frames(m: RegisterModel, v: i16)
    requires
        m.well_formed(),
        m.can_push_frame(),
    ensures
        m.written(3, v).frame_pushed().value(3) == v,
{
    assert((v as u16) as i16 == v) by (bit_vector);
}

/// Entering a frame shows zeroed banked registers; returning from it shows
/// every register and the instruction pointer exactly as before. In
/// particular a general register written before the push reads back as
/// zero inside the new frame and as the written value after the pop.
pub proof fn lemma_frame_round_trip(m: RegisterModel, r: int, v: i16)
    requires
        m.well_formed(),
        m.can_push_frame(),
        FIRST_GENERAL <= r < FIRST_PROC,
    ensures
        m.written(r, v).frame_pushed().value(r) == 0,
        m.written(r, v).frame_pushed().frame_popped().value(r) == v,
        forall|s: int|
            1 <= s < FIRST_PROC && s != 3 ==> #[trigger] m.frame_pushed().value(s) == 0,
        forall|s: int|
            0 <= s < REGISTER_COUNT ==> #[trigger] m.frame_pushed().frame_popped().value(s)
                == m.value(s),
        m.frame_pushed().ip() == 0,
        m.frame_pushed().frame_popped().ip() == m.ip(),
{
}

/// Saving or restoring one procedure register leaves the level and value of
/// every other register unchanged, and entering or leaving a call frame
/// leaves the level and value of every procedure register unchanged.
pub proof fn lemma_proc_registers_independent(m: RegisterModel, r: int, s: int)
    requires
        m.well_formed(),
        is_proc_register(r),
        is_proc_register(s),
        r != s,
    ensures
        m.can_save(r) ==> m.saved(r).proc_depth(s) == m.proc_depth(s),
        m.can_save(r) ==> m.saved(r).value(s) == m.value(s),
        m.can_restore(r) ==> m.restored(r).proc_depth(s) == m.proc_depth(s),
        m.can_restore(r) ==> m.restored(r).value(s) == m.value(s),
        m.can_push_frame() ==> m.frame_pushed().proc_depth(r) == m.proc_depth(r),
        m.can_push_frame() ==> m.frame_pushed().value(r) == m.value(r),
        m.can_pop_frame() ==> m.frame_popped().proc_depth(r) == m.proc_depth(r),
        m.can_pop_frame() ==> m.frame_popped().value(r) == m.value(r),
{
}

/// Saving a procedure register exposes a zeroed level, and restoring it
/// afterwards brings back the value it held before the save.
pub proof fn lemma_save_restore_round_trip(m: RegisterModel, r: int)
    requires
        m.well_formed(),
        m.can_save(r),
    ensures
        m.saved(r).value(r) == 0,
        m.saved(r).can_restore(r),
        m.saved(r).restored(r).value(r) == m.value(r),
        m.saved(r).restored(r).proc_depth(r) == m.proc_depth(r),
{
}

} // verus!
