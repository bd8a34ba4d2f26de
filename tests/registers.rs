use svm::{ErrorPolicy, NoOp, Svm, REGISTER_COUNT};

#[test]
fn fresh_registers_hold_integer_zero() {
    let mut vm: Svm<NoOp> = Svm::new(&[0x00], 16);
    for reg in 0..REGISTER_COUNT {
        assert_eq!(vm.get_int_reg(reg), 0);
    }
    assert_eq!(vm.error_count(), 0);
}

#[test]
fn integer_set_then_get() {
    let mut vm: Svm<NoOp> = Svm::new(&[0x00], 16);
    for (reg, value) in [(0usize, 0u32), (1, 5), (7, 123_456), (REGISTER_COUNT - 1, u32::MAX)] {
        vm.set_int_reg(reg, value);
        assert_eq!(vm.get_int_reg(reg), value);
    }
    assert_eq!(vm.error_count(), 0);
}

#[test]
fn string_set_then_get() {
    let mut vm: Svm<NoOp> = Svm::new(&[0x00], 16);
    vm.set_string_reg(3, "hello");
    assert_eq!(vm.get_string_reg(3), "hello");
    vm.set_string_reg(4, "");
    assert_eq!(vm.get_string_reg(4), "");
    assert_eq!(vm.error_count(), 0);
}

#[test]
fn string_overwrite_keeps_only_new_value() {
    let mut vm: Svm<NoOp> = Svm::new(&[0x00], 16);
    vm.set_string_reg(2, "first value");
    vm.set_string_reg(2, "second");
    assert_eq!(vm.get_string_reg(2), "second");
    vm.set_int_reg(2, 9);
    assert_eq!(vm.get_int_reg(2), 9);
    vm.set_string_reg(2, "third");
    assert_eq!(vm.get_string_reg(2), "third");
    assert_eq!(vm.error_count(), 0);
}

#[test]
fn integer_read_of_string_reports_once() {
    let mut vm: Svm<NoOp> = Svm::new(&[0x00, 0x00], 16);
    vm.set_string_reg(1, "text");
    assert_eq!(vm.get_int_reg(1), 0);
    assert_eq!(vm.error_count(), 1);
    assert_eq!(vm.error_message(0), "The register doesn't contain an integer");
    assert_eq!(vm.ip(), 0);
    assert_eq!(vm.get_string_reg(1), "text");
    vm.run();
    assert_eq!(vm.ip(), 2);
    assert_eq!(vm.error_count(), 1);
}

#[test]
fn string_read_of_integer_reports_once() {
    let mut vm: Svm<NoOp> = Svm::new(&[0x00], 16);
    vm.set_int_reg(5, 42);
    assert_eq!(vm.get_string_reg(5), "");
    assert_eq!(vm.error_count(), 1);
    assert_eq!(vm.error_message(0), "The register doesn't contain a string");
    assert_eq!(vm.get_int_reg(5), 42);
}

#[test]
fn halt_policy_stops_execution_on_error() {
    let mut vm: Svm<NoOp> = Svm::new(&[0x00, 0x00, 0x00], 16);
    assert_eq!(vm.error_policy(), ErrorPolicy::Continue);
    vm.set_error_policy(ErrorPolicy::Halt);
    vm.set_string_reg(0, "x");
    assert_eq!(vm.get_int_reg(0), 0);
    assert_eq!(vm.error_count(), 1);
    assert_eq!(vm.ip(), 3);
}

#[test]
fn memory_is_zeroed_and_writable() {
    let mut vm: Svm<NoOp> = Svm::new(&[0x00], 200);
    assert_eq!(vm.memory_size(), 200);
    assert_eq!(vm.load_byte(0), 0);
    assert_eq!(vm.load_byte(199), 0);
    vm.store_byte(10, 0xAB);
    assert_eq!(vm.load_byte(10), 0xAB);
    assert_eq!(vm.load_byte(11), 0);
}

#[test]
fn zero_memory_size_gives_no_memory() {
    let vm: Svm<NoOp> = Svm::new(&[0x00], 0);
    assert_eq!(vm.memory_size(), 0);
    vm.free();
}
