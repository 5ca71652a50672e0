use vcpu::machine::{Fault, Machine};

fn machine(image: Vec<u8>) -> Machine {
    Machine::new(image).unwrap()
}

#[test]
fn mti_add_immediate_scenario() {
    let mut m = machine(vec![0x30, 0x0A]);
    assert_eq!(m.step(), Ok(None));
    assert_eq!(m.regs.read(1), 10);
    assert!(m.interrupts.pending().is_empty());
    assert_eq!(m.regs.get_ip(), 1);
}

#[test]
fn store_to_port_emits_character() {
    let mut m = machine(vec![0x50, 0x00, 0x12, 0x34]);
    m.regs.write(2, 0x0041);
    assert_eq!(m.step(), Ok(Some('A')));
    assert_eq!(m.ram, vec![0x50, 0x00, 0x12, 0x34]);
    assert_eq!(m.regs.get_ip(), 1);
}

#[test]
fn store_to_port_emits_non_ascii_character() {
    let mut m = machine(vec![0x50, 0x00]);
    m.regs.write(2, 0x00E9);
    assert_eq!(m.step(), Ok(Some('\u{e9}')));
}

#[test]
fn mti_overflow_raises_interrupt() {
    let mut m = machine(vec![0x30, 0x01]);
    m.regs.write(1, 32767);
    assert_eq!(m.step(), Ok(None));
    assert_eq!(m.regs.read(1), -32768);
    assert_eq!(m.interrupts.pending(), vec![0]);
}

#[test]
fn odd_image_is_rejected() {
    assert!(matches!(Machine::new(vec![0x30]), Err(Fault::OddImage)));
    assert!(Machine::new(vec![]).is_ok());
}

#[test]
fn fetch_past_memory_faults() {
    let mut m = machine(vec![]);
    assert_eq!(m.step(), Err(Fault::MemoryOutOfBounds));
}

#[test]
fn division_by_zero_faults() {
    // mti div 0
    let mut m = machine(vec![0x33, 0x00]);
    assert_eq!(m.step(), Err(Fault::DivideByZero));
    // mtr rem by register 4 (zero)
    let mut m = machine(vec![0x25, 0x10]);
    assert_eq!(m.step(), Err(Fault::DivideByZero));
}

#[test]
fn shift_count_out_of_range_faults() {
    // mti shl 16
    let mut m = machine(vec![0x3A, 0x10]);
    assert_eq!(m.step(), Err(Fault::ShiftOutOfRange));
    // mti shr 15 is fine
    let mut m = machine(vec![0x3B, 0x0F]);
    assert_eq!(m.step(), Ok(None));
}

#[test]
fn surrogate_at_port_faults() {
    let mut m = machine(vec![0x50, 0x00]);
    m.regs.write(2, 0xD800u16 as i16);
    assert_eq!(m.step(), Err(Fault::UnpairedSurrogate));
}

#[test]
fn interrupt_without_frame_faults() {
    let mut m = machine(vec![0xC0, 0x00]);
    for _ in 0..255 {
        assert!(m.regs.push_frame());
    }
    m.interrupts.register(1, 0);
    m.interrupts.raise(1);
    assert_eq!(m.step(), Err(Fault::InterruptStackExhausted));
}

#[test]
fn interrupt_enters_handler_in_new_frame() {
    let mut m = machine(vec![0xC0, 0x00, 0xC0, 0x00, 0xC0, 0x00]);
    m.regs.write(5, 17);
    m.interrupts.register(7, 2);
    m.interrupts.raise(7);
    assert_eq!(m.interrupts.drain_and_dispatch(&mut m.regs), Ok(true));
    assert_eq!(m.regs.get_ip(), 2);
    assert_eq!(m.regs.read(5), 0);
    assert!(m.interrupts.pending().is_empty());
    assert!(m.regs.pop_frame());
    assert_eq!(m.regs.read(5), 17);
}

#[test]
fn interrupt_without_handler_is_dropped() {
    let mut m = machine(vec![0xC0, 0x00]);
    m.regs.set_ip(0);
    m.interrupts.raise(9);
    assert_eq!(m.interrupts.drain_and_dispatch(&mut m.regs), Ok(false));
    assert_eq!(m.regs.get_ip(), 0);
    assert!(m.interrupts.pending().is_empty());
    assert!(!m.regs.pop_frame());
}

#[test]
fn step_dispatches_before_fetch() {
    // noop, noop, noop; handler for id 0 at word 2
    let mut m = machine(vec![0xC0, 0x00, 0xC0, 0x00, 0xC0, 0x00]);
    m.interrupts.register(0, 2);
    m.interrupts.raise(0);
    assert_eq!(m.step(), Ok(None));
    assert_eq!(m.regs.get_ip(), 3);
    assert!(m.regs.pop_frame());
    assert_eq!(m.regs.get_ip(), 0);
}

#[test]
fn sleep_parks_until_interrupt() {
    // slp, noop ; handler at word 1
    let mut m = machine(vec![0x70, 0x00, 0xC0, 0x00]);
    assert_eq!(m.step(), Ok(None));
    assert!(m.sleeping);
    assert_eq!(m.regs.get_ip(), 1);
    assert_eq!(m.step(), Ok(None));
    assert_eq!(m.regs.get_ip(), 1);
    m.interrupts.register(3, 1);
    m.interrupts.raise(3);
    assert_eq!(m.step(), Ok(None));
    assert!(!m.sleeping);
    assert_eq!(m.regs.get_ip(), 2);
}

#[test]
fn mov_and_jmp() {
    // mov r4 <- r1 ; jmp r0:r5
    let mut m = machine(vec![0x01, 0x01, 0x10, 0x05, 0xC0, 0x00, 0xC0, 0x00]);
    m.regs.write(1, 3);
    m.regs.write(5, 3);
    assert_eq!(m.step(), Ok(None));
    assert_eq!(m.regs.read(4), 3);
    assert_eq!(m.step(), Ok(None));
    assert_eq!(m.regs.get_ip(), 3);
}

#[test]
fn read_and_store_memory() {
    // read word 3 into r2 ; store r2 at word (r0:r4)
    let mut m = machine(vec![0x40, 0x03, 0x50, 0x04, 0x00, 0x00, 0xBE, 0xEF]);
    m.regs.write(4, 2);
    assert_eq!(m.step(), Ok(None));
    assert_eq!(m.regs.read(2), 0xBEEFu16 as i16);
    assert_eq!(m.step(), Ok(None));
    assert_eq!(m.ram, vec![0x40, 0x03, 0x50, 0x04, 0xBE, 0xEF, 0xBE, 0xEF]);
}

#[test]
fn read_and_store_out_of_bounds_fault() {
    let mut m = machine(vec![0x40, 0x05]);
    assert_eq!(m.step(), Err(Fault::MemoryOutOfBounds));
    let mut m = machine(vec![0x50, 0x04]);
    m.regs.write(4, 1);
    assert_eq!(m.step(), Err(Fault::MemoryOutOfBounds));
}

#[test]
fn regisr_installs_handler_from_register() {
    // regisr id 2 <- r4
    let mut m = machine(vec![0x60, 0x84]);
    m.regs.write(4, 40);
    assert_eq!(m.step(), Ok(None));
    assert_eq!(m.interrupts.handler(2), Some(40));
    assert_eq!(m.interrupts.handler(3), None);
}

#[test]
fn stack_failures_raise_interrupt_one() {
    // res r40 (nothing saved) ; pop (depth 0)
    let mut m = machine(vec![0x9A, 0x00, 0xB0, 0x00]);
    assert_eq!(m.step(), Ok(None));
    assert_eq!(m.interrupts.pending(), vec![1]);
    assert_eq!(m.step(), Ok(None));
    assert_eq!(m.regs.get_ip(), 2);
    assert!(m.interrupts.pending() == vec![1]);
}

#[test]
fn sav_push_and_pop() {
    // sav r40 ; push ; (new frame continues at word 1)
    let mut m = machine(vec![0x8A, 0x00, 0xA0, 0x00, 0xB0, 0x00]);
    m.regs.write(40, 8);
    assert_eq!(m.step(), Ok(None));
    assert_eq!(m.regs.read(40), 0);
    assert_eq!(m.step(), Ok(None));
    assert_eq!(m.regs.get_ip(), 1);
    assert!(m.interrupts.pending().is_empty());
}

#[test]
fn skips_follow_the_accumulator() {
    let image = vec![0xD0, 0x00, 0xE0, 0x00, 0xF0, 0x00];
    let mut m = machine(image.clone());
    assert_eq!(m.step(), Ok(None));
    assert_eq!(m.regs.get_ip(), 2);
    let mut m = machine(image.clone());
    m.regs.write(1, -1);
    m.regs.set_ip(1);
    assert_eq!(m.step(), Ok(None));
    assert_eq!(m.regs.get_ip(), 3);
    let mut m = machine(image);
    m.regs.write(1, 1);
    m.regs.set_ip(2);
    assert_eq!(m.step(), Ok(None));
    assert_eq!(m.regs.get_ip(), 4);
}
