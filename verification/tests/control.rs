use chip8::chip::{Chip, Effect};
use chip8::cpu::CPU;
use chip8::error::ChipError;
use chip8::instruction::{
    decode, operand_class, operand_n, operand_nn, operand_nnn, operand_x, operand_y, Instruction,
};
use chip8::keys::Keys;

fn machine_with(program: &[u8]) -> Chip {
    Chip::new(program.to_vec()).unwrap()
}

fn run(chip: &mut Chip, word: u16) {
    assert_eq!(chip.execute_with(word, &Keys::none(), 0), Ok(Effect::Nothing));
}

#[test]
fn new_cpu_is_at_power_on() {
    let cpu = CPU::new();
    for x in 0..16u8 {
        assert_eq!(cpu.register(x), 0);
    }
    assert_eq!(cpu.pc(), 0x200);
    assert_eq!(cpu.index(), 0);
    assert_eq!(cpu.delay_timer(), 0);
    assert_eq!(cpu.sound_timer(), 0);
    assert_eq!(cpu.stack_depth(), 0);
}

#[test]
fn cpu_jump_call_and_return() {
    let mut cpu = CPU::new();
    cpu.jump(0x345);
    assert_eq!(cpu.pc(), 0x345);
    cpu.call(0x400);
    assert_eq!((cpu.pc(), cpu.stack_depth()), (0x400, 1));
    cpu.call(0x500);
    assert_eq!((cpu.pc(), cpu.stack_depth()), (0x500, 2));
    assert_eq!(cpu.ret(), Ok(()));
    assert_eq!((cpu.pc(), cpu.stack_depth()), (0x400, 1));
    assert_eq!(cpu.ret(), Ok(()));
    assert_eq!((cpu.pc(), cpu.stack_depth()), (0x345, 0));
    assert_eq!(cpu.ret(), Err(ChipError::StackUnderflow));
    assert_eq!((cpu.pc(), cpu.stack_depth()), (0x345, 0));
}

#[test]
fn cpu_table_hands_back_machine_instructions() {
    let mut cpu = CPU::new();
    let keys = Keys::none();
    assert_eq!(cpu.table(0x00E0, &keys, 0), Ok(Some(Instruction::ClearScreen)));
    assert_eq!(cpu.table(0xD125, &keys, 0), Ok(Some(Instruction::Draw { x: 1, y: 2, n: 5 })));
    assert_eq!(cpu.table(0xF30A, &keys, 0), Ok(Some(Instruction::WaitKey { x: 3 })));
    assert_eq!(cpu.table(0xF433, &keys, 0), Ok(Some(Instruction::StoreBcd { x: 4 })));
    assert_eq!(cpu.table(0xF555, &keys, 0), Ok(Some(Instruction::StoreRegs { x: 5 })));
    assert_eq!(cpu.table(0xF665, &keys, 0), Ok(Some(Instruction::LoadRegs { x: 6 })));
    assert_eq!(cpu.pc(), 0x200);
    assert_eq!(cpu.table(0x6712, &keys, 0), Ok(None));
    assert_eq!(cpu.register(7), 0x12);
    assert_eq!(cpu.table(0xC8F0, &keys, 0x3C), Ok(None));
    assert_eq!(cpu.register(8), 0x30);
    assert_eq!(cpu.table(0xFFFF, &keys, 0), Err(ChipError::Decode { word: 0xFFFF, pc: 0x200 }));
    assert_eq!(cpu.table(0x00EE, &keys, 0), Err(ChipError::StackUnderflow));
}

#[test]
fn cpu_execute_draws_only_for_random() {
    let mut cpu = CPU::new();
    let keys = Keys::none();
    assert_eq!(cpu.execute(0x6155, &keys), Ok(None));
    assert_eq!(cpu.register(1), 0x55);
    assert_eq!(cpu.execute(0x1234, &keys), Ok(None));
    assert_eq!(cpu.pc(), 0x234);
    for _ in 0..100 {
        assert_eq!(cpu.execute(0xC203, &keys), Ok(None));
        assert!(cpu.register(2) <= 3);
    }
    assert_eq!(cpu.execute(0xD001, &keys), Ok(Some(Instruction::Draw { x: 0, y: 0, n: 1 })));
    assert_eq!(cpu.execute(0x8008, &keys), Err(ChipError::Decode { word: 0x8008, pc: 0x234 }));
}

#[test]
fn jump_sets_pc() {
    let mut chip = machine_with(&[]);
    run(&mut chip, 0x1ABC);
    assert_eq!(chip.cpu().pc(), 0xABC);
    assert_eq!(chip.cpu().stack_depth(), 0);
}

#[test]
fn jump_with_offset_adds_v0() {
    let mut chip = machine_with(&[]);
    run(&mut chip, 0x6010);
    run(&mut chip, 0xB300);
    assert_eq!(chip.cpu().pc(), 0x310);
    run(&mut chip, 0x60FF);
    run(&mut chip, 0xBFFF);
    assert_eq!(chip.cpu().pc(), 0x10FE);
}

#[test]
fn call_then_return_comes_back() {
    let mut chip = machine_with(&[0x23, 0x00]);
    assert_eq!(chip.step_with(&Keys::none(), 0), Ok(Effect::Nothing));
    assert_eq!(chip.cpu().pc(), 0x300);
    assert_eq!(chip.cpu().stack_depth(), 1);
    run(&mut chip, 0x00EE);
    assert_eq!(chip.cpu().pc(), 0x202);
    assert_eq!(chip.cpu().stack_depth(), 0);
}

#[test]
fn return_on_empty_stack_is_an_error() {
    let mut chip = machine_with(&[]);
    assert_eq!(chip.execute_with(0x00EE, &Keys::none(), 0), Err(ChipError::StackUnderflow));
    assert_eq!(chip.cpu().pc(), 0x200);
    assert_eq!(chip.cpu().stack_depth(), 0);
}

#[test]
fn step_restores_pc_on_stack_underflow() {
    let mut chip = machine_with(&[0x00, 0xEE]);
    assert_eq!(chip.step_with(&Keys::none(), 0), Err(ChipError::StackUnderflow));
    assert_eq!(chip.cpu().pc(), 0x200);
    assert_eq!(chip.step(&Keys::none()), Err(ChipError::StackUnderflow));
    assert_eq!(chip.cpu().pc(), 0x200);
}

#[test]
fn step_reports_bad_word_and_its_address() {
    let mut chip = machine_with(&[0x61, 0x07, 0x81, 0x28]);
    assert_eq!(chip.step_with(&Keys::none(), 0), Ok(Effect::Nothing));
    assert_eq!(
        chip.step_with(&Keys::none(), 0),
        Err(ChipError::Decode { word: 0x8128, pc: 0x202 })
    );
    assert_eq!(chip.cpu().pc(), 0x202);
    assert_eq!(chip.cpu().register(1), 7);
    assert_eq!(chip.step(&Keys::none()), Err(ChipError::Decode { word: 0x8128, pc: 0x202 }));
}

#[test]
fn empty_memory_word_is_a_decode_error() {
    let mut chip = machine_with(&[]);
    assert_eq!(
        chip.step_with(&Keys::none(), 0),
        Err(ChipError::Decode { word: 0x0000, pc: 0x200 })
    );
}

#[test]
fn skips_on_immediate() {
    let mut chip = machine_with(&[]);
    run(&mut chip, 0x6142);
    run(&mut chip, 0x3142);
    assert_eq!(chip.cpu().pc(), 0x202);
    run(&mut chip, 0x3143);
    assert_eq!(chip.cpu().pc(), 0x202);
    run(&mut chip, 0x4143);
    assert_eq!(chip.cpu().pc(), 0x204);
    run(&mut chip, 0x4142);
    assert_eq!(chip.cpu().pc(), 0x204);
}

#[test]
fn skips_on_registers() {
    let mut chip = machine_with(&[]);
    run(&mut chip, 0x6142);
    run(&mut chip, 0x6242);
    run(&mut chip, 0x6343);
    run(&mut chip, 0x5120);
    assert_eq!(chip.cpu().pc(), 0x202);
    run(&mut chip, 0x5130);
    assert_eq!(chip.cpu().pc(), 0x202);
    run(&mut chip, 0x9130);
    assert_eq!(chip.cpu().pc(), 0x204);
    run(&mut chip, 0x9120);
    assert_eq!(chip.cpu().pc(), 0x204);
}

#[test]
fn skip_wraps_at_end_of_memory() {
    let mut chip = machine_with(&[]);
    run(&mut chip, 0x1FFE);
    run(&mut chip, 0x3000);
    assert_eq!(chip.cpu().pc(), 0x000);
}

#[test]
fn skips_on_keys() {
    let mut chip = machine_with(&[]);
    let mut keys = Keys::none();
    keys.press(0xB);
    run(&mut chip, 0x610B);
    assert_eq!(chip.execute_with(0xE19E, &keys, 0), Ok(Effect::Nothing));
    assert_eq!(chip.cpu().pc(), 0x202);
    assert_eq!(chip.execute_with(0xE1A1, &keys, 0), Ok(Effect::Nothing));
    assert_eq!(chip.cpu().pc(), 0x202);
    assert_eq!(chip.execute_with(0xE19E, &Keys::none(), 0), Ok(Effect::Nothing));
    assert_eq!(chip.cpu().pc(), 0x202);
    assert_eq!(chip.execute_with(0xE1A1, &Keys::none(), 0), Ok(Effect::Nothing));
    assert_eq!(chip.cpu().pc(), 0x204);
}

#[test]
fn key_codes_above_f_are_never_held() {
    let mut chip = machine_with(&[]);
    let mut keys = Keys::none();
    for key in 0..16u8 {
        keys.press(key);
    }
    keys.press(0x1B);
    assert!(!keys.is_pressed(0x1B));
    assert!(!keys.is_pressed(16));
    assert!(keys.is_pressed(15));
    run(&mut chip, 0x611B);
    assert_eq!(chip.execute_with(0xE19E, &keys, 0), Ok(Effect::Nothing));
    assert_eq!(chip.cpu().pc(), 0x200);
    assert_eq!(chip.execute_with(0xE1A1, &keys, 0), Ok(Effect::Nothing));
    assert_eq!(chip.cpu().pc(), 0x202);
}

#[test]
fn keys_first_pressed_is_the_lowest() {
    let mut keys = Keys::none();
    assert_eq!(keys.first_pressed(), None);
    keys.press(0xC);
    assert_eq!(keys.first_pressed(), Some(0xC));
    keys.press(0x3);
    keys.press(0xF);
    assert_eq!(keys.first_pressed(), Some(0x3));
    keys.press(0x0);
    assert_eq!(keys.first_pressed(), Some(0x0));
}

#[test]
fn consecutive_fetches_advance_pc_by_two() {
    let mut chip = machine_with(&[]);
    for n in 1..=5000u32 {
        chip.next_instruction();
        assert_eq!(chip.cpu().pc() as u32, (0x200 + 2 * n) % 4096);
    }
}

#[test]
fn fetch_reads_big_endian_words() {
    let mut chip = machine_with(&[0x12, 0x34, 0xAB, 0xCD]);
    assert_eq!(chip.next_instruction(), 0x1234);
    assert_eq!(chip.next_instruction(), 0xABCD);
    assert_eq!(chip.next_instruction(), 0x0000);
    assert_eq!(chip.cpu().pc(), 0x206);
}

#[test]
fn fetch_wraps_at_end_of_memory() {
    let mut program = vec![0u8; 3584];
    program[3583] = 0x9A;
    let mut chip = Chip::new(program).unwrap();
    run(&mut chip, 0x1FFF);
    assert_eq!(chip.next_instruction(), 0x9AF0);
    assert_eq!(chip.cpu().pc(), 0x001);
}

#[test]
fn fetch_from_pc_beyond_memory_wraps() {
    let mut chip = machine_with(&[0x60, 0x11]);
    run(&mut chip, 0x60FF);
    run(&mut chip, 0xBF01);
    assert_eq!(chip.cpu().pc(), 0x1000);
    assert_eq!(chip.next_instruction(), 0xF090);
    assert_eq!(chip.cpu().pc(), 0x002);
}

#[test]
fn decode_extracts_fields() {
    assert_eq!(decode(0x00E0), Some(Instruction::ClearScreen));
    assert_eq!(decode(0x00EE), Some(Instruction::Return));
    assert_eq!(decode(0x1ABC), Some(Instruction::Jump { addr: 0xABC }));
    assert_eq!(decode(0x2FFF), Some(Instruction::Call { addr: 0xFFF }));
    assert_eq!(decode(0x3A12), Some(Instruction::SkipEqImm { x: 0xA, nn: 0x12 }));
    assert_eq!(decode(0x4B34), Some(Instruction::SkipNeImm { x: 0xB, nn: 0x34 }));
    assert_eq!(decode(0x5CD0), Some(Instruction::SkipEqReg { x: 0xC, y: 0xD }));
    assert_eq!(decode(0x6E56), Some(Instruction::LoadImm { x: 0xE, nn: 0x56 }));
    assert_eq!(decode(0x7F78), Some(Instruction::AddImm { x: 0xF, nn: 0x78 }));
    assert_eq!(decode(0x8120), Some(Instruction::Move { x: 1, y: 2 }));
    assert_eq!(decode(0x8121), Some(Instruction::Or { x: 1, y: 2 }));
    assert_eq!(decode(0x8122), Some(Instruction::And { x: 1, y: 2 }));
    assert_eq!(decode(0x8123), Some(Instruction::Xor { x: 1, y: 2 }));
    assert_eq!(decode(0x8124), Some(Instruction::AddReg { x: 1, y: 2 }));
    assert_eq!(decode(0x8125), Some(Instruction::SubReg { x: 1, y: 2 }));
    assert_eq!(decode(0x8126), Some(Instruction::ShiftRight { x: 1, y: 2 }));
    assert_eq!(decode(0x8127), Some(Instruction::SubFrom { x: 1, y: 2 }));
    assert_eq!(decode(0x812E), Some(Instruction::ShiftLeft { x: 1, y: 2 }));
    assert_eq!(decode(0x9340), Some(Instruction::SkipNeReg { x: 3, y: 4 }));
    assert_eq!(decode(0xA123), Some(Instruction::LoadIndex { addr: 0x123 }));
    assert_eq!(decode(0xB456), Some(Instruction::JumpOffset { addr: 0x456 }));
    assert_eq!(decode(0xC7F0), Some(Instruction::Random { x: 7, nn: 0xF0 }));
    assert_eq!(decode(0xD89A), Some(Instruction::Draw { x: 8, y: 9, n: 0xA }));
    assert_eq!(decode(0xE59E), Some(Instruction::SkipKey { x: 5 }));
    assert_eq!(decode(0xE6A1), Some(Instruction::SkipNotKey { x: 6 }));
    assert_eq!(decode(0xF107), Some(Instruction::ReadDelay { x: 1 }));
    assert_eq!(decode(0xF20A), Some(Instruction::WaitKey { x: 2 }));
    assert_eq!(decode(0xF315), Some(Instruction::SetDelay { x: 3 }));
    assert_eq!(decode(0xF418), Some(Instruction::SetSound { x: 4 }));
    assert_eq!(decode(0xF51E), Some(Instruction::AddIndex { x: 5 }));
    assert_eq!(decode(0xF629), Some(Instruction::FontAddr { x: 6 }));
    assert_eq!(decode(0xF733), Some(Instruction::StoreBcd { x: 7 }));
    assert_eq!(decode(0xF855), Some(Instruction::StoreRegs { x: 8 }));
    assert_eq!(decode(0xF965), Some(Instruction::LoadRegs { x: 9 }));
}

#[test]
fn decode_refuses_unmatched_words() {
    for word in [
        0x0000u16, 0x00E1, 0x00EF, 0x0FFF, 0x5AB1, 0x5ABF, 0x8AB8, 0x8AB9, 0x8ABA, 0x8ABB,
        0x8ABC, 0x8ABD, 0x8ABF, 0x9AB1, 0xE09F, 0xE0A0, 0xE000, 0xF000, 0xF008, 0xF016,
        0xF01F, 0xF030, 0xF056, 0xF066, 0xF0FF,
    ] {
        assert_eq!(decode(word), None);
    }
}

#[test]
fn decode_accepts_the_instruction_count_of_the_table() {
    let accepted = (0..=0xFFFFu32).filter(|w| decode(*w as u16).is_some()).count();
    let expected = 2 + 2 * 4096 + 4 * 4096 + 2 * 256 + 9 * 256 + 3 * 4096 + 4096 + 2 * 16 + 9 * 16;
    assert_eq!(accepted, expected);
}

#[test]
fn operand_helpers_split_a_word() {
    assert_eq!(operand_class(0xD89A), 0xD);
    assert_eq!(operand_x(0xD89A), 0x8);
    assert_eq!(operand_y(0xD89A), 0x9);
    assert_eq!(operand_n(0xD89A), 0xA);
    assert_eq!(operand_nn(0xD89A), 0x9A);
    assert_eq!(operand_nnn(0xD89A), 0x89A);
}

#[test]
fn key_wait_resumes_on_first_held_key() {
    let mut chip = machine_with(&[0xF3, 0x0A, 0x64, 0x99]);
    run(&mut chip, 0x6011);
    run(&mut chip, 0xA222);
    run(&mut chip, 0x6505);
    run(&mut chip, 0xF515);
    assert_eq!(chip.waiting(), None);
    assert_eq!(chip.step_with(&Keys::none(), 0), Ok(Effect::Nothing));
    assert_eq!(chip.waiting(), Some(3));
    assert_eq!(chip.cpu().pc(), 0x202);
    for _ in 0..5 {
        assert_eq!(chip.step_with(&Keys::none(), 0), Ok(Effect::Nothing));
        assert_eq!(chip.waiting(), Some(3));
        assert_eq!(chip.cpu().pc(), 0x202);
        assert_eq!(chip.cpu().register(3), 0);
    }
    chip.tick();
    assert_eq!(chip.cpu().delay_timer(), 4);
    assert_eq!(chip.waiting(), Some(3));
    let mut keys = Keys::none();
    keys.press(0xE);
    keys.press(0x7);
    assert_eq!(chip.step_with(&keys, 0), Ok(Effect::Nothing));
    assert_eq!(chip.waiting(), None);
    assert_eq!(chip.cpu().register(3), 0x7);
    assert_eq!(chip.cpu().pc(), 0x202);
    assert_eq!(chip.cpu().register(0), 0x11);
    assert_eq!(chip.cpu().register(5), 0x05);
    assert_eq!(chip.cpu().index(), 0x222);
    assert_eq!(chip.cpu().delay_timer(), 4);
    assert_eq!(chip.cpu().stack_depth(), 0);
    for x in [1u8, 2, 4, 6, 7, 8, 9, 10, 11, 12, 13, 14, 15] {
        assert_eq!(chip.cpu().register(x), 0);
    }
    assert_eq!(chip.step_with(&keys, 0), Ok(Effect::Nothing));
    assert_eq!(chip.cpu().register(4), 0x99);
    assert_eq!(chip.cpu().pc(), 0x204);
}

#[test]
fn key_wait_with_drawn_random_steps() {
    let mut chip = machine_with(&[0xF1, 0x0A, 0xC2, 0x0F]);
    assert_eq!(chip.step(&Keys::none()), Ok(Effect::Nothing));
    assert_eq!(chip.waiting(), Some(1));
    assert_eq!(chip.step(&Keys::none()), Ok(Effect::Nothing));
    assert_eq!(chip.waiting(), Some(1));
    let mut keys = Keys::none();
    keys.press(0x0);
    assert_eq!(chip.step(&keys), Ok(Effect::Nothing));
    assert_eq!(chip.waiting(), None);
    assert_eq!(chip.cpu().register(1), 0);
    assert_eq!(chip.step(&keys), Ok(Effect::Nothing));
    assert!(chip.cpu().register(2) <= 0x0F);
    assert_eq!(chip.cpu().pc(), 0x204);
}

#[test]
fn program_runs_step_by_step() {
    let mut chip = machine_with(&[
        0x60, 0x05, 0x61, 0x00, 0x71, 0x03, 0x70, 0xFF, 0x30, 0x00, 0x12, 0x04, 0x12, 0x0C,
    ]);
    let keys = Keys::none();
    for _ in 0..200 {
        assert_eq!(chip.step_with(&keys, 0), Ok(Effect::Nothing));
        if chip.cpu().pc() == 0x20C {
            break;
        }
    }
    assert_eq!(chip.cpu().pc(), 0x20C);
    assert_eq!(chip.cpu().register(0), 0);
    assert_eq!(chip.cpu().register(1), 15);
}
