use vcpu::registers::Registers;

#[test]
fn set_and_read() {
    let mut r = Registers::new();
    r.write(0, 5);
    r.write(1, 10);
    r.write(2, 15);
    r.write(3, 9);
    r.write(4, 25);
    r.write(10, 20);
    r.write(56, 2);

    assert_eq!(r.read(0), 0);
    assert_eq!(r.read(1), 10);
    assert_eq!(r.read(2), 15);
    assert_eq!(r.read(3), 9);
    assert_eq!(r.read(4), 25);
    assert_eq!(r.read(10), 20);
    assert_eq!(r.read(56), 2);
    assert_eq!(r.read(34), 0);
}

#[test]
#[should_panic]
fn test_read_bounds() {
    let r = Registers::new();
    r.read(64);
}

#[test]
#[should_panic]
fn test_write_bounds() {
    let mut r = Registers::new();
    r.write(64, 2);
}

#[test]
fn instruction_pointer() {
    let mut r = Registers::new();

    assert_eq!(r.get_ip(), 0);

    r.set_ip(1234);
    assert_eq!(r.get_ip(), 1234);

    r.increment_ip();
    assert_eq!(r.get_ip(), 1235);

    r.increment_ip_by_n(5);
    assert_eq!(r.get_ip(), 1240);

    r.set_ip(12);
    assert_eq!(r.get_ip(), 12);
}

#[test]
fn main_stack() {
    let mut r = Registers::new();

    r.set_ip(12);
    r.write(26, 12);
    r.write(4, 6);
    r.write(35, 3);

    r.push_frame();

    assert_eq!(r.get_ip(), 0);
    assert_eq!(r.read(26), 0);
    assert_eq!(r.read(4), 0);
    assert_eq!(r.read(35), 0);

    r.pop_frame();

    assert_eq!(r.get_ip(), 12);
    assert_eq!(r.read(26), 12);
    assert_eq!(r.read(4), 6);
    assert_eq!(r.read(35), 3);
}

#[test]
fn reg_stacks() {
    let mut r = Registers::new();
    r.write(40, 7);
    assert!(r.push_reg(40));
    assert_eq!(r.read(40), 0);
    r.write(40, 9);
    assert!(r.pop_reg(40));
    assert_eq!(r.read(40), 7);
    assert!(!r.pop_reg(40));
    assert_eq!(r.read(40), 7);
}

#[test]
fn zero_register_discards_writes() {
    let mut r = Registers::new();
    r.write(0, -1);
    assert_eq!(r.read(0), 0);
    r.write(0, i16::MAX);
    assert_eq!(r.read(0), 0);
}

#[test]
fn input_register_is_shared_by_frames() {
    let mut r = Registers::new();
    r.write(3, -42);
    assert!(r.push_frame());
    assert_eq!(r.read(3), -42);
    r.write(3, 77);
    assert!(r.pop_frame());
    assert_eq!(r.read(3), 77);
}

#[test]
fn frame_push_pop_round_trip() {
    let mut r = Registers::new();
    r.write(1, 11);
    r.write(2, 22);
    r.write(20, 33);
    assert!(r.push_frame());
    assert_eq!(r.read(1), 0);
    assert_eq!(r.read(2), 0);
    assert_eq!(r.read(20), 0);
    r.write(20, 99);
    assert!(r.pop_frame());
    assert_eq!(r.read(1), 11);
    assert_eq!(r.read(2), 22);
    assert_eq!(r.read(20), 33);
}

#[test]
fn frame_stack_limits() {
    let mut r = Registers::new();
    assert!(!r.pop_frame());
    for _ in 0..255 {
        assert!(r.push_frame());
    }
    r.set_ip(5);
    assert!(!r.push_frame());
    assert_eq!(r.get_ip(), 5);
    assert!(r.pop_frame());
}

#[test]
fn proc_registers_are_independent() {
    let mut r = Registers::new();
    r.write(40, 4);
    r.write(41, 5);
    assert!(r.push_reg(40));
    assert_eq!(r.read(41), 5);
    assert!(!r.pop_reg(41));
    assert!(r.push_frame());
    assert_eq!(r.read(40), 0);
    assert_eq!(r.read(41), 5);
    assert!(r.pop_reg(40));
    assert_eq!(r.read(40), 4);
    assert!(r.pop_frame());
    assert_eq!(r.read(40), 4);
    assert_eq!(r.read(41), 5);
}

#[test]
fn save_stack_limits_and_non_proc_registers() {
    let mut r = Registers::new();
    for _ in 0..255 {
        assert!(r.push_reg(63));
    }
    assert!(!r.push_reg(63));
    assert!(r.push_reg(36));
    assert!(!r.push_reg(35));
    assert!(!r.pop_reg(4));
    assert!(!r.push_reg(64));
}
