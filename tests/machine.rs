use batpu2::assembler::assemble;
use batpu2::io::{BUFFER_SCREEN, DRAW_PIXEL, LOAD_PIXEL, PIXEL_X, PIXEL_Y};
use batpu2::isa::Instruction;
use batpu2::vm::{BatPU2, LoadError};

fn machine(src: &str) -> BatPU2 {
    BatPU2::new(assemble(src).unwrap()).unwrap()
}

#[test]
fn add_sets_carry() {
    let mut vm = machine("ldi r1 250\nldi r2 10\nadd r1 r2 r3\n");
    assert_eq!(vm.step_multiple(3), 3);
    assert_eq!(vm.register(3), 4);
    assert!(vm.carry_flag());
    assert!(!vm.zero_flag());
}

#[test]
fn sub_sets_zero() {
    let mut vm = machine("ldi r1 7\nsub r1 r1 r0\n");
    vm.step_multiple(2);
    assert!(vm.zero_flag());
    assert!(!vm.carry_flag());
    assert_eq!(vm.register(0), 0);
}

#[test]
fn sub_borrow_sets_carry() {
    let mut vm = machine("ldi r1 3\nldi r2 5\nsub r1 r2 r3\n");
    vm.step_multiple(3);
    assert_eq!(vm.register(3), 254);
    assert!(vm.carry_flag());
}

#[test]
fn branch_on_zero_taken() {
    let mut vm = machine("sub r0 r0 r0\nbrh 0 5\n");
    vm.step_multiple(2);
    assert_eq!(vm.pc(), 5);
}

#[test]
fn branch_on_not_zero_falls_through() {
    let mut vm = machine("sub r0 r0 r0\nbrh 1 5\n");
    vm.step_multiple(2);
    assert_eq!(vm.pc(), 2);
}

#[test]
fn batch_stops_at_halt() {
    let mut vm = BatPU2::new(vec![Instruction::NOP, Instruction::NOP, Instruction::HLT]).unwrap();
    assert_eq!(vm.step_multiple(100), 3);
    assert!(vm.is_halted());
    assert!(!vm.step());
    assert_eq!(vm.step_multiple(10), 0);
}

#[test]
fn running_off_the_end_halts() {
    let mut vm = BatPU2::new(vec![Instruction::NOP]).unwrap();
    assert_eq!(vm.step_multiple(10), 2);
    assert!(vm.is_halted());
}

#[test]
fn register_zero_stays_zero() {
    let mut vm = machine("ldi r0 99\nadi r0 5\nadd r0 r0 r1\n");
    vm.step_multiple(3);
    assert_eq!(vm.register(0), 0);
    assert_eq!(vm.register(1), 0);
}

#[test]
fn load_store_memory() {
    let mut vm = machine("ldi r1 10\nldi r2 42\nstr r1 r2 3\nlod r1 r3 3\n");
    vm.step_multiple(4);
    assert_eq!(vm.memory(13), 42);
    assert_eq!(vm.register(3), 42);
}

#[test]
fn call_and_return() {
    let mut vm = machine("cal f\nhlt\nf:\nldi r1 9\nret\n");
    vm.step_multiple(10);
    assert!(vm.is_halted());
    assert_eq!(vm.register(1), 9);
    assert_eq!(vm.pc(), 1);
}

#[test]
fn pixel_visible_only_after_commit() {
    let mut vm = machine("");
    vm.io.store(PIXEL_X, 3);
    vm.io.store(PIXEL_Y, 4);
    vm.io.store(DRAW_PIXEL, 0);
    assert_eq!(vm.io.load(LOAD_PIXEL), 0);
    assert!(!vm.io.pixel(3, 4));
    vm.io.store(BUFFER_SCREEN, 0);
    assert_eq!(vm.io.load(LOAD_PIXEL), 1);
    assert!(vm.io.pixel(3, 4));
}

#[test]
fn pixel_program_commit() {
    let src = "ldi r1 240\nldi r2 7\nstr r1 r2 0\nstr r1 r2 1\nstr r1 r0 2\nlod r1 r3 4\nstr r1 r0 5\nlod r1 r4 4\nhlt\n";
    let mut vm = machine(src);
    vm.step_multiple(100);
    assert_eq!(vm.register(3), 0);
    assert_eq!(vm.register(4), 1);
    assert!(vm.io.pixel(7, 7));
}

#[test]
fn char_and_number_display() {
    let src = "ldi r1 247\nldi r2 'H'\nstr r1 r2 0\nldi r2 'I'\nstr r1 r2 0\nstr r1 r0 1\nldi r2 200\nstr r1 r2 3\nstr r1 r0 5\nhlt\n";
    let mut vm = machine(src);
    vm.step_multiple(100);
    let chars = vm.io.chars();
    assert_eq!(chars[0], 8);
    assert_eq!(chars[1], 9);
    assert_eq!(chars[2], 0);
    assert_eq!(vm.io.number(), Some(200));
    assert!(vm.io.is_signed());
}

#[test]
fn random_is_seeded() {
    let mut a = machine("ldi r1 254\nlod r1 r2 0\nlod r1 r3 0\n");
    let mut b = machine("ldi r1 254\nlod r1 r2 0\nlod r1 r3 0\n");
    a.io.set_seed(12345);
    b.io.set_seed(12345);
    a.step_multiple(3);
    b.step_multiple(3);
    assert_eq!(a.register(2), b.register(2));
    assert_eq!(a.register(3), b.register(3));
    // first draw from seed 12345: state 1103515245 * 12345 + 12345 mod 2^32
    let state = (12345u64 * 1103515245 + 12345) % (1u64 << 32);
    assert_eq!(a.register(2) as u64, (state >> 16) & 0xFF);
}

#[test]
fn controller_buttons() {
    let mut vm = machine("ldi r1 255\nlod r1 r2 0\n");
    vm.io.set_button(0);
    vm.io.set_button(7);
    vm.io.clear_button(0);
    vm.step_multiple(2);
    assert_eq!(vm.register(2), 0x80);
    vm.io.clear_buttons();
    assert_eq!(vm.io.buttons(), 0);
}

#[test]
fn program_too_long() {
    let p = vec![Instruction::NOP; 1025];
    assert!(matches!(BatPU2::new(p), Err(LoadError::TooLong { len: 1025 })));
    assert!(BatPU2::new(vec![Instruction::NOP; 1024]).is_ok());
}
