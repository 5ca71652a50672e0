use crate::registers::{RegisterModel, Registers};
use vstd::prelude::*;

verus! {

/// Number of interrupt ids, and of slots in the handler table.
pub const INTERRUPT_SLOTS: usize = 64;

/// Raised when an ALU operation overflows.
pub const OVERFLOW_INTERRUPT: u8 = 0;

/// Raised when a call-frame or procedure-register stack overflows or underflows.
pub const STACK_INTERRUPT: u8 = 1;

/// The abstract state of the interrupt controller.
#[verifier::ext_equal]
pub struct InterruptModel {
    /// The handler address registered for each id, if any.
    pub handlers: Seq<Option<u32>>,
    /// The ids raised and not yet handled, oldest first.
    pub pending: Seq<u8>,
}

impl InterruptModel {
    pub open spec fn well_formed(self) -> bool {
        &&& self.handlers.len() == INTERRUPT_SLOTS
        &&& forall|i: int| 0 <= i < self.pending.len() ==> #[trigger] self.pending[i] < INTERRUPT_SLOTS
    }
}

/// The register file after entering, in order, the handler of each id of
/// `pending` that has one, and whether any handler was entered; `None` when
/// some handler cannot be entered because no call frame is left.
pub open spec fn dispatch(regs: RegisterModel, handlers: Seq<Option<u32>>, pending: Seq<u8>) -> Option<
    (RegisterModel, bool),
>
    decreases pending.len(),
{
    if pending.len() == 0 {
        Some((regs, false))
    } else {
        let rest = pending.drop_first();
        match handlers[pending[0] as int] {
            None => dispatch(regs, handlers, rest),
            Some(addr) => {
                if regs.can_push_frame() {
                    match dispatch(regs.frame_pushed().with_ip(addr), handlers, rest) {
                        Some((r, _)) => Some((r, true)),
                        None => None,
                    }
                } else {
                    None
                }
            },
        }
    }
}

/// Why entering an interrupt handler failed: no call frame was left.
#[derive(Debug, Clone, Copy, PartialEq, Eq, Structural)]
pub struct FrameExhausted;

/// The interrupt controller: a handler table and a queue of raised ids.
pub struct Interrupts {
    handlers: Vec<Option<u32>>,
    pending: Vec<u8>,
}

impl View for Interrupts {
    type V = InterruptModel;

    closed spec fn view(&self) -> InterruptModel {
        InterruptModel { handlers: self.handlers@, pending: self.pending@ }
    }
}

impl Interrupts {
    pub open spec fn wf(&self) -> bool {
        self@.well_formed()
    }

    /// A controller with no handler registered and nothing pending.
    pub fn new() -> (r: Interrupts)
        ensures
            r.wf(),
            r@.handlers == Seq::new(INTERRUPT_SLOTS as nat, |i: int| None::<u32>),
            r@.pending == Seq::<u8>::empty(),
    {
        let mut handlers: Vec<Option<u32>> = Vec::new();
        let mut i: usize = 0;
        while i < INTERRUPT_SLOTS
            invariant
                i <= INTERRUPT_SLOTS,
                handlers@ == Seq::new(i as nat, |j: int| None::<u32>),
            decreases INTERRUPT_SLOTS - i,
        {
            handlers.push(None);
            i = i + 1;
            assert(handlers@ =~= Seq::new(i as nat, |j: int| None::<u32>));
        }
        let r = Interrupts { handlers, pending: Vec::new() };
        assert(r@.pending =~= Seq::<u8>::empty());
        r
    }

    /// Installs `addr` as the handler of interrupt `id`.
    pub fn register(&mut self, id: u8, addr: u32)
        requires
            old(self).wf(),
            id < INTERRUPT_SLOTS,
        ensures
            final(self).wf(),
            final(self)@.handlers == old(self)@.handlers.update(id as int, Some(addr)),
            final(self)@.pending == old(self)@.pending,
    {
        self.handlers.set(id as usize, Some(addr));
        assert(self@.pending == old(self)@.pending);
    }

    /// The handler registered for interrupt `id`, if any.
    pub fn handler(&self, id: u8) -> (r: Option<u32>)
        requires
            self.wf(),
            id < INTERRUPT_SLOTS,
        ensures
            r == self@.handlers[id as int],
    {
        self.handlers[id as usize]
    }

    /// Queues interrupt `id` behind those already pending.
    pub fn raise(&mut self, id: u8)
        requires
            old(self).wf(),
            id < INTERRUPT_SLOTS,
        ensures
            final(self).wf(),
            final(self)@.handlers == old(self)@.handlers,
            final(self)@.pending == old(self)@.pending.push(id),
    {
        self.pending.push(id);
        assert(forall|i: int|
            0 <= i < self@.pending.len() ==> #[trigger] self@.pending[i] < INTERRUPT_SLOTS
                || i == old(self)@.pending.len());
    }

    /// The ids raised and not yet handled, oldest first.
    pub fn pending(&self) -> (r: Vec<u8>)
        ensures
            r@ == self@.pending,
    {
        let mut r: Vec<u8> = Vec::new();
        let mut i: usize = 0;
        while i < self.pending.len()
            invariant
                i <= self.pending.len(),
                r@ == self.pending@.take(i as int),
            decreases self.pending.len() - i,
        {
            r.push(self.pending[i]);
            i = i + 1;
            assert(r@ =~= self.pending@.take(i as int));
        }
        assert(r@ =~= self.pending@);
        r
    }

    /// Handles every pending interrupt, oldest first: one with a handler
    /// enters a new call frame at the handler's address, one without is
    /// dropped. The queue is empty afterwards. Returns whether any handler
    /// was entered, or `Err` when a handler could not be entered because no
    /// call frame was left.
    pub fn drain_and_dispatch(&mut self, regs: &mut Registers) -> (r: Result<bool, FrameExhausted>)
        requires
            old(self).wf(),
            old(regs).wf(),
        ensures
            final(self).wf(),
            final(regs).wf(),
            final(self)@.handlers == old(self)@.handlers,
            match dispatch(old(regs)@, old(self)@.handlers, old(self)@.pending) {
                Some((m, entered)) => r == Ok::<bool, FrameExhausted>(entered) && final(regs)@ == m
                    && final(self)@.pending.len() == 0,
                None => r == Err::<bool, FrameExhausted>(FrameExhausted),
            },
    {
        let ghost regs0 = regs@;
        let ghost pending0 = self.pending@;
        let ghost handlers0 = self.handlers@;
        let mut entered = false;
        let mut i: usize = 0;
        assert(pending0.skip(0) =~= pending0);
        while i < self.pending.len()
            invariant
                self.wf(),
                regs.wf(),
                self.pending@ == pending0,
                self.handlers@ == handlers0,
                regs0 == old(regs)@,
                pending0 == old(self)@.pending,
                handlers0 == old(self)@.handlers,
                i <= self.pending.len(),
                dispatch(regs0, self.handlers@, pending0) == match dispatch(
                    regs@,
                    self.handlers@,
                    pending0.skip(i as int),
                ) {
                    Some((m, e)) => Some((m, e || entered)),
                    None => None,
                },
            decreases self.pending.len() - i,
        {
            let id = self.pending[i];
            assert(pending0.skip(i as int).drop_first() =~= pending0.skip(i + 1));
            assert(pending0.skip(i as int)[0] == id);
            match self.handlers[id as usize] {
                None => {},
                Some(addr) => {
                    if !regs.push_frame() {
                        assert(dispatch(regs@, self.handlers@, pending0.skip(i as int)) is None);
                        return Err(FrameExhausted);
                    }
                    regs.set_ip(addr);
                    entered = true;
                },
            }
            i = i + 1;
        }
        assert(pending0.skip(i as int).len() == 0);
        self.pending = Vec::new();
        assert(self@.pending.len() == 0);
        Ok(entered)
    }
}

/// Handling a single raised id: with a handler at `a` and a frame to spare,
/// a fresh call frame is entered with its instruction pointer at `a`; with
/// no handler the id is dropped and the register file is left as it was.
pub proof fn lemma_interrupt_delivery(regs: RegisterModel, handlers: Seq<Option<u32>>, k: u8)
    requires
        regs.well_formed(),
        handlers.len() == INTERRUPT_SLOTS,
        k < INTERRUPT_SLOTS,
    ensures
        handlers[k as int] is Some && regs.can_push_frame() ==> {
            let a = handlers[k as int].unwrap();
            let m = regs.frame_pushed().with_ip(a);
            &&& dispatch(regs, handlers, seq![k]) == Some((m, true))
            &&& m.ip() == a
            &&& m.depth == regs.depth + 1
            &&& forall|r: int| 1 <= r < 36 && r != 3 ==> #[trigger] m.value(r) == 0
        },
        handlers[k as int] is Some && !regs.can_push_frame() ==> dispatch(regs, handlers, seq![k])
            is None,
        handlers[k as int] is None ==> dispatch(regs, handlers, seq![k]) == Some((regs, false)),
{
    reveal_with_fuel(dispatch, 2);
    let p = seq![k];
    assert(p.drop_first() =~= Seq::<u8>::empty());
    assert(p[0] == k);
    assert(p.len() == 1);
}

} // verus!
