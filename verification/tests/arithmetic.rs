use chip8::chip::{Chip, Effect};
use chip8::error::ChipError;
use chip8::keys::Keys;

fn machine() -> Chip {
    Chip::new(Vec::new()).unwrap()
}

fn run(chip: &mut Chip, word: u16) {
    assert_eq!(chip.execute_with(word, &Keys::none(), 0), Ok(Effect::Nothing));
}

fn registers(chip: &Chip) -> Vec<u8> {
    (0..16u8).map(|x| chip.cpu().register(x)).collect()
}

#[test]
fn load_immediate_sets_only_that_register() {
    let mut chip = machine();
    run(&mut chip, 0x6A42);
    let mut expected = vec![0u8; 16];
    expected[0xA] = 0x42;
    assert_eq!(registers(&chip), expected);
    assert_eq!(chip.cpu().pc(), 0x200);
}

#[test]
fn add_immediate_wraps_and_leaves_flag() {
    let mut chip = machine();
    run(&mut chip, 0x6FEE);
    run(&mut chip, 0x63F0);
    run(&mut chip, 0x7320);
    assert_eq!(chip.cpu().register(3), 0x10);
    assert_eq!(chip.cpu().register(0xF), 0xEE);
}

#[test]
fn move_copies_register() {
    let mut chip = machine();
    run(&mut chip, 0x6277);
    run(&mut chip, 0x8120);
    assert_eq!(chip.cpu().register(1), 0x77);
    assert_eq!(chip.cpu().register(2), 0x77);
}

#[test]
fn or_and_xor_combine_bits() {
    let mut chip = machine();
    run(&mut chip, 0x61CC);
    run(&mut chip, 0x62AA);
    run(&mut chip, 0x8121);
    assert_eq!(chip.cpu().register(1), 0xEE);
    run(&mut chip, 0x61CC);
    run(&mut chip, 0x8122);
    assert_eq!(chip.cpu().register(1), 0x88);
    run(&mut chip, 0x61CC);
    run(&mut chip, 0x8123);
    assert_eq!(chip.cpu().register(1), 0x66);
    assert_eq!(chip.cpu().register(2), 0xAA);
}

#[test]
fn add_registers_without_carry() {
    let mut chip = machine();
    run(&mut chip, 0x6F09);
    run(&mut chip, 0x6164);
    run(&mut chip, 0x6232);
    run(&mut chip, 0x8124);
    assert_eq!(chip.cpu().register(1), 150);
    assert_eq!(chip.cpu().register(2), 50);
    assert_eq!(chip.cpu().register(0xF), 0);
}

#[test]
fn add_registers_with_carry() {
    let mut chip = machine();
    run(&mut chip, 0x61C8);
    run(&mut chip, 0x6264);
    run(&mut chip, 0x8124);
    assert_eq!(chip.cpu().register(1), 44);
    assert_eq!(chip.cpu().register(0xF), 1);
}

#[test]
fn add_carry_boundary() {
    let mut chip = machine();
    run(&mut chip, 0x61FF);
    run(&mut chip, 0x6200);
    run(&mut chip, 0x8124);
    assert_eq!(chip.cpu().register(1), 255);
    assert_eq!(chip.cpu().register(0xF), 0);
    run(&mut chip, 0x6201);
    run(&mut chip, 0x8124);
    assert_eq!(chip.cpu().register(1), 0);
    assert_eq!(chip.cpu().register(0xF), 1);
}

#[test]
fn add_holds_for_all_bytes() {
    for a in 0..=255u16 {
        for b in [0u16, 1, 2, 127, 128, 200, 254, 255] {
            let mut chip = machine();
            run(&mut chip, 0x6300 | a);
            run(&mut chip, 0x6700 | b);
            run(&mut chip, 0x8374);
            assert_eq!(chip.cpu().register(3) as u16, (a + b) % 256);
            assert_eq!(chip.cpu().register(0xF) == 1, a + b > 255);
            assert!(chip.cpu().register(0xF) <= 1);
        }
    }
}

#[test]
fn add_into_flag_register_keeps_the_flag() {
    let mut chip = machine();
    run(&mut chip, 0x6F01);
    run(&mut chip, 0x6001);
    run(&mut chip, 0x8F04);
    assert_eq!(chip.cpu().register(0xF), 0);
}

#[test]
fn subtract_without_borrow_sets_flag() {
    let mut chip = machine();
    run(&mut chip, 0x6164);
    run(&mut chip, 0x6232);
    run(&mut chip, 0x8125);
    assert_eq!(chip.cpu().register(1), 50);
    assert_eq!(chip.cpu().register(0xF), 1);
}

#[test]
fn subtract_with_borrow_clears_flag() {
    let mut chip = machine();
    run(&mut chip, 0x6F01);
    run(&mut chip, 0x6132);
    run(&mut chip, 0x6264);
    run(&mut chip, 0x8125);
    assert_eq!(chip.cpu().register(1), 206);
    assert_eq!(chip.cpu().register(0xF), 0);
}

#[test]
fn subtract_equal_values_sets_flag() {
    let mut chip = machine();
    run(&mut chip, 0x6107);
    run(&mut chip, 0x6207);
    run(&mut chip, 0x8125);
    assert_eq!(chip.cpu().register(1), 0);
    assert_eq!(chip.cpu().register(0xF), 1);
}

#[test]
fn subtract_holds_for_all_bytes() {
    for a in 0..=255u16 {
        for b in [0u16, 1, 2, 127, 128, 200, 254, 255] {
            let mut chip = machine();
            run(&mut chip, 0x6300 | a);
            run(&mut chip, 0x6700 | b);
            run(&mut chip, 0x8375);
            assert_eq!(chip.cpu().register(3) as u16, (256 + a - b) % 256);
            assert_eq!(chip.cpu().register(0xF) == 1, a >= b);
            assert!(chip.cpu().register(0xF) <= 1);
        }
    }
}

#[test]
fn reverse_subtract() {
    let mut chip = machine();
    run(&mut chip, 0x6132);
    run(&mut chip, 0x6264);
    run(&mut chip, 0x8127);
    assert_eq!(chip.cpu().register(1), 50);
    assert_eq!(chip.cpu().register(0xF), 1);
    run(&mut chip, 0x6165);
    run(&mut chip, 0x8127);
    assert_eq!(chip.cpu().register(1), 255);
    assert_eq!(chip.cpu().register(0xF), 0);
}

#[test]
fn shift_right_takes_low_bit_of_vx() {
    let mut chip = machine();
    run(&mut chip, 0x6105);
    run(&mut chip, 0x62F0);
    run(&mut chip, 0x8126);
    assert_eq!(chip.cpu().register(1), 2);
    assert_eq!(chip.cpu().register(2), 0xF0);
    assert_eq!(chip.cpu().register(0xF), 1);
    run(&mut chip, 0x8126);
    assert_eq!(chip.cpu().register(1), 1);
    assert_eq!(chip.cpu().register(0xF), 0);
}

#[test]
fn shift_left_takes_high_bit_of_vx() {
    let mut chip = machine();
    run(&mut chip, 0x61C1);
    run(&mut chip, 0x6201);
    run(&mut chip, 0x812E);
    assert_eq!(chip.cpu().register(1), 0x82);
    assert_eq!(chip.cpu().register(2), 0x01);
    assert_eq!(chip.cpu().register(0xF), 1);
    run(&mut chip, 0x6141);
    run(&mut chip, 0x812E);
    assert_eq!(chip.cpu().register(1), 0x82);
    assert_eq!(chip.cpu().register(0xF), 0);
}

#[test]
fn shift_of_flag_register_keeps_the_shifted_value() {
    let mut chip = machine();
    run(&mut chip, 0x6F07);
    run(&mut chip, 0x8F06);
    assert_eq!(chip.cpu().register(0xF), 3);
}

#[test]
fn random_is_masked() {
    let mut chip = machine();
    assert_eq!(chip.execute_with(0xC40F, &Keys::none(), 0xA7), Ok(Effect::Nothing));
    assert_eq!(chip.cpu().register(4), 0x07);
    assert_eq!(chip.execute_with(0xC4F0, &Keys::none(), 0xA7), Ok(Effect::Nothing));
    assert_eq!(chip.cpu().register(4), 0xA0);
    assert_eq!(chip.execute_with(0xC400, &Keys::none(), 0xFF), Ok(Effect::Nothing));
    assert_eq!(chip.cpu().register(4), 0x00);
}

#[test]
fn drawn_random_stays_under_the_mask() {
    let mut chip = machine();
    for _ in 0..200 {
        assert_eq!(chip.execute(0xC50F, &Keys::none()), Ok(Effect::Nothing));
        assert_eq!(chip.cpu().register(5) & 0xF0, 0);
    }
    let mut seen = [false; 256];
    for _ in 0..4000 {
        assert_eq!(chip.execute(0xC6FF, &Keys::none()), Ok(Effect::Nothing));
        seen[chip.cpu().register(6) as usize] = true;
    }
    assert!(seen.iter().filter(|s| **s).count() > 1);
}

#[test]
fn execute_without_draw_matches_given_byte() {
    let mut drawn = machine();
    let mut given = machine();
    for word in [0x6112u16, 0x6234, 0x8124, 0x8125, 0xA123, 0xF11E, 0x2400, 0x00EE] {
        assert_eq!(
            drawn.execute(word, &Keys::none()),
            given.execute_with(word, &Keys::none(), 0x5A)
        );
        assert_eq!(registers(&drawn), registers(&given));
        assert_eq!(drawn.cpu().pc(), given.cpu().pc());
        assert_eq!(drawn.cpu().index(), given.cpu().index());
    }
}

#[test]
fn timers_are_read_and_set() {
    let mut chip = machine();
    run(&mut chip, 0x6133);
    run(&mut chip, 0xF115);
    run(&mut chip, 0xF218);
    assert_eq!(chip.cpu().delay_timer(), 0x33);
    assert_eq!(chip.cpu().sound_timer(), 0);
    run(&mut chip, 0x6244);
    run(&mut chip, 0xF218);
    assert_eq!(chip.cpu().sound_timer(), 0x44);
    run(&mut chip, 0xF907);
    assert_eq!(chip.cpu().register(9), 0x33);
}

#[test]
fn instructions_do_not_tick_timers() {
    let mut chip = machine();
    run(&mut chip, 0x6103);
    run(&mut chip, 0xF115);
    run(&mut chip, 0xF118);
    for _ in 0..10 {
        run(&mut chip, 0x7201);
    }
    assert_eq!(chip.cpu().delay_timer(), 3);
    assert_eq!(chip.cpu().sound_timer(), 3);
}

#[test]
fn tick_counts_down_to_zero_and_stays() {
    let mut chip = machine();
    run(&mut chip, 0x6102);
    run(&mut chip, 0xF115);
    run(&mut chip, 0x6101);
    run(&mut chip, 0xF118);
    chip.tick();
    assert_eq!((chip.cpu().delay_timer(), chip.cpu().sound_timer()), (1, 0));
    chip.tick();
    assert_eq!((chip.cpu().delay_timer(), chip.cpu().sound_timer()), (0, 0));
    chip.tick();
    assert_eq!((chip.cpu().delay_timer(), chip.cpu().sound_timer()), (0, 0));
}

#[test]
fn index_register_operations() {
    let mut chip = machine();
    run(&mut chip, 0xAABC);
    assert_eq!(chip.cpu().index(), 0xABC);
    run(&mut chip, 0x61FF);
    run(&mut chip, 0xF11E);
    assert_eq!(chip.cpu().index(), 0xBBB);
    run(&mut chip, 0x620A);
    run(&mut chip, 0xF229);
    assert_eq!(chip.cpu().index(), 50);
    run(&mut chip, 0x62FF);
    run(&mut chip, 0xF229);
    assert_eq!(chip.cpu().index(), 1275);
}

#[test]
fn unknown_words_are_decode_errors() {
    let mut chip = machine();
    for word in [
        0x0000u16, 0x00E1, 0x0123, 0x5121, 0x8128, 0x812F, 0x9121, 0xE19F, 0xE100, 0xF100,
        0xF1FF, 0xF156,
    ] {
        assert_eq!(
            chip.execute_with(word, &Keys::none(), 0),
            Err(ChipError::Decode { word, pc: 0x200 })
        );
        assert_eq!(chip.execute(word, &Keys::none()), Err(ChipError::Decode { word, pc: 0x200 }));
    }
    assert_eq!(registers(&chip), vec![0u8; 16]);
    assert_eq!(chip.cpu().pc(), 0x200);
}
