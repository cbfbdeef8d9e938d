use chip8_vm::decode::{
    get_4_bit_constant, get_address, get_constant, get_op_code, get_x, get_y, lsfr,
};
use chip8_vm::memory::Memory;
use chip8_vm::vm::Vm;

#[test]
fn test_get_address() {
    let val = 0b1111111111111111;
    let out = get_address(val);

    assert_eq!(out, 0b0000111111111111);
}

#[test]
fn test_get_address_2() {
    let val = 0xA25F;
    let out = get_address(val);
    assert_eq!(out, 0x25F)
}

#[test]
fn test_get_op_code() {
    let val = 0b1111111111111111;
    let out = get_op_code(val);

    assert_eq!(out, 0b00001111);
}

#[test]
fn test_get_constant() {
    let val = 0b1111111111111111;
    let out = get_constant(val);

    assert_eq!(out, 0b11111111);
}

#[test]
fn test_get_4_bit_constant() {
    let val = 0b1111111111111111;
    let out = get_4_bit_constant(val);

    assert_eq!(out, 0b00001111);
}

#[test]
fn test_get_x() {
    let val = 0b1010101010101010;
    let out = get_x(val);

    assert_eq!(out, 0b00001010);
}

#[test]
fn test_get_y() {
    let val = 0b1010101010101010;
    let out = get_y(val);

    assert_eq!(out, 0b00001010);
}

#[test]
fn test_get_set_memory() {
    let p1: u8 = 0x00;
    let p2: u8 = 0xE0;

    let mut mem = Memory::new();
    mem.set(0x200, p1);
    mem.set(0x200 + 1, p2);

    assert_eq!(mem.get(0x200), p1);
    assert_eq!(mem.get(0x200 + 1), p2);
}

#[test]
fn test_get_op() {
    let p1: u8 = 0x00;
    let p2: u8 = 0xE0;

    let mut mem = Memory::new();
    mem.set(0x200, p1);
    mem.set(0x200 + 1, p2);

    let vm = Vm::new_with_memory(mem);

    let val = vm.get_op(0x200);

    assert_eq!(val, 0x00E0);
}
