use chip8::keypad::{key_matches, lookup_keycode, KeyCode};
use chip8::machine::Effect;
use chip8::state::{State, TIMER_PERIOD};

fn lit_pixels(state: &State) -> usize {
    let mut n = 0;
    for y in 0..32 {
        for x in 0..64 {
            if state.pixel(x, y) {
                n += 1;
            }
        }
    }
    n
}

fn with_display() -> State {
    let mut state: State = Default::default();
    state.initialize_graphics();
    state
}

#[test]
fn power_on_state() {
    let state: State = Default::default();
    assert_eq!(state.program_counter(), 0x200);
    assert_eq!(state.index(), 0);
    assert_eq!(state.stack_pointer(), 0);
    assert_eq!(state.delay_timer(), 0);
    assert_eq!(state.sound_timer(), 0);
    assert!(!state.display_attached());
    assert!(state.memory.iter().all(|&b| b == 0));
    assert!(state.registers.iter().all(|&r| r == 0));
    assert_eq!(lit_pixels(&state), 0);
}

#[test]
fn initialize_graphics_attaches_display() {
    let state = with_display();
    assert!(state.display_attached());
}

#[test]
fn jump_and_jump_with_offset() {
    let mut state: State = Default::default();
    state.dispatch(0x1ABC);
    assert_eq!(state.program_counter(), 0xABC);
    state.dispatch(0x6005);
    state.dispatch(0xB300);
    assert_eq!(state.program_counter(), 0x305);
}

#[test]
fn call_then_return_comes_back() {
    let mut state: State = Default::default();
    state.dispatch(0x2400);
    assert_eq!(state.program_counter(), 0x400);
    assert_eq!(state.stack_pointer(), 1);
    state.dispatch(0x00EE);
    assert_eq!(state.program_counter(), 0x200);
    assert_eq!(state.stack_pointer(), 0);
}

#[test]
fn return_needs_a_call_first() {
    let state: State = Default::default();
    assert!(!state.can_dispatch(0x00EE));
}

#[test]
fn call_needs_a_free_slot() {
    let mut state: State = Default::default();
    for _ in 0..16 {
        assert!(state.can_dispatch(0x2300));
        state.dispatch(0x2300);
    }
    assert_eq!(state.stack_pointer(), 16);
    assert!(!state.can_dispatch(0x2300));
}

#[test]
fn skips_move_by_two() {
    let mut state: State = Default::default();
    state.dispatch(0x6007);
    state.dispatch(0x3007);
    assert_eq!(state.program_counter(), 0x202);
    state.dispatch(0x3008);
    assert_eq!(state.program_counter(), 0x202);
    state.dispatch(0x4008);
    assert_eq!(state.program_counter(), 0x204);
    state.dispatch(0x6107);
    state.dispatch(0x5010);
    assert_eq!(state.program_counter(), 0x206);
    state.dispatch(0x9010);
    assert_eq!(state.program_counter(), 0x206);
}

#[test]
fn add_immediate_wraps() {
    let mut state: State = Default::default();
    state.dispatch(0x62F0);
    state.dispatch(0x7220);
    assert_eq!(state.registers[2], 0x10);
    assert_eq!(state.registers[15], 0);
}

#[test]
fn logic_operations() {
    let mut state: State = Default::default();
    state.dispatch(0x60CC);
    state.dispatch(0x61AA);
    state.dispatch(0x8011);
    assert_eq!(state.registers[0], 0xEE);
    state.dispatch(0x60CC);
    state.dispatch(0x8012);
    assert_eq!(state.registers[0], 0x88);
    state.dispatch(0x60CC);
    state.dispatch(0x8013);
    assert_eq!(state.registers[0], 0x66);
    state.dispatch(0x8010);
    assert_eq!(state.registers[0], 0xAA);
}

#[test]
fn add_with_carry_is_exact() {
    let mut state: State = Default::default();
    state.dispatch(0x60C8); // 200
    state.dispatch(0x6164); // 100
    state.dispatch(0x8014);
    assert_eq!(state.registers[0], 44);
    assert_eq!(state.registers[15], 1);
    assert_eq!(state.registers[0] as u32 + 256 * state.registers[15] as u32, 300);
    state.dispatch(0x6001);
    state.dispatch(0x8014);
    assert_eq!(state.registers[0], 101);
    assert_eq!(state.registers[15], 0);
}

#[test]
fn add_into_flag_register_keeps_sum() {
    let mut state: State = Default::default();
    state.dispatch(0x6FC8);
    state.dispatch(0x6164);
    state.dispatch(0x8F14);
    assert_eq!(state.registers[15], 44);
}

#[test]
fn subtraction_flags() {
    let mut state: State = Default::default();
    state.dispatch(0x6005);
    state.dispatch(0x6107);
    state.dispatch(0x8015);
    assert_eq!(state.registers[0], 254);
    assert_eq!(state.registers[15], 0);
    state.dispatch(0x6007);
    state.dispatch(0x8015);
    assert_eq!(state.registers[0], 0);
    assert_eq!(state.registers[15], 0);
    state.dispatch(0x6009);
    state.dispatch(0x8015);
    assert_eq!(state.registers[0], 2);
    assert_eq!(state.registers[15], 1);
}

#[test]
fn reverse_subtraction() {
    let mut state: State = Default::default();
    state.dispatch(0x6005);
    state.dispatch(0x6107);
    state.dispatch(0x8017);
    assert_eq!(state.registers[0], 2);
    assert_eq!(state.registers[15], 1);
    state.dispatch(0x6009);
    state.dispatch(0x8017);
    assert_eq!(state.registers[0], 254);
    assert_eq!(state.registers[15], 0);
}

#[test]
fn subtract_then_add_restores() {
    let mut state: State = Default::default();
    state.dispatch(0x6311);
    state.dispatch(0x64F0);
    state.dispatch(0x8345);
    state.dispatch(0x8344);
    assert_eq!(state.registers[3], 0x11);
}

#[test]
fn shifts() {
    let mut state: State = Default::default();
    state.dispatch(0x6081);
    state.dispatch(0x8006);
    assert_eq!(state.registers[0], 0x40);
    assert_eq!(state.registers[15], 1);
    state.dispatch(0x6081);
    state.dispatch(0x800E);
    assert_eq!(state.registers[0], 0x02);
    assert_eq!(state.registers[15], 1);
    state.dispatch(0x6040);
    state.dispatch(0x800E);
    assert_eq!(state.registers[0], 0x80);
    assert_eq!(state.registers[15], 0);
}

#[test]
fn shift_of_flag_register() {
    let mut state: State = Default::default();
    state.dispatch(0x6F03);
    state.dispatch(0x8F06);
    assert_eq!(state.registers[15], 0);
}

#[test]
fn unknown_opcodes_are_refused() {
    let state = with_display();
    assert!(!state.can_dispatch(0x8008));
    assert!(!state.can_dispatch(0x800F));
    assert!(!state.can_dispatch(0xE000));
    assert!(!state.can_dispatch(0xF000));
    assert!(!state.can_dispatch(0xF0FF));
    assert!(state.can_dispatch(0x0123));
    assert!(state.can_dispatch(0x800E));
}

#[test]
fn display_is_needed_for_screen_and_keys() {
    let state: State = Default::default();
    assert!(!state.can_dispatch(0x00E0));
    assert!(!state.can_dispatch(0xD015));
    assert!(!state.can_dispatch(0xE09E));
    assert!(!state.can_dispatch(0xF00A));
    let state = with_display();
    assert!(state.can_dispatch(0x00E0));
    assert!(state.can_dispatch(0xD015));
    assert!(state.can_dispatch(0xE09E));
    assert!(state.can_dispatch(0xF00A));
}

#[test]
fn other_system_calls_are_ignored() {
    let mut state: State = Default::default();
    assert_eq!(state.dispatch(0x0123), Effect::Nothing);
    assert_eq!(state.program_counter(), 0x200);
}

#[test]
fn set_index_and_add() {
    let mut state: State = Default::default();
    state.dispatch(0xA123);
    assert_eq!(state.index(), 0x123);
    state.dispatch(0x6210);
    state.dispatch(0xF21E);
    assert_eq!(state.index(), 0x133);
}

#[test]
fn index_overflow_is_refused() {
    let mut state: State = Default::default();
    state.dispatch(0xAFFF);
    state.dispatch(0x62FF);
    assert!(state.can_dispatch(0xF21E));
    state.dispatch(0xF21E);
    assert_eq!(state.index(), 0x10FE);
}

#[test]
fn bcd_digits() {
    let mut state: State = Default::default();
    state.dispatch(0x65EA); // 234
    state.dispatch(0xA300);
    state.dispatch(0xF533);
    assert_eq!(&state.memory[0x300..0x303], &[2, 3, 4]);
    state.dispatch(0xAFFE);
    assert!(!state.can_dispatch(0xF533));
}

#[test]
fn store_and_load_registers() {
    let mut state: State = Default::default();
    for r in 0..16u16 {
        state.dispatch(0x6000 | (r << 8) | (r * 3));
    }
    state.dispatch(0xA400);
    state.dispatch(0xFF55);
    for r in 0..16usize {
        assert_eq!(state.memory[0x400 + r], (r * 3) as u8);
    }
    assert_eq!(state.memory[0x410], 0);
    for r in 0..16u16 {
        state.dispatch(0x6000 | (r << 8));
    }
    state.dispatch(0xFF65);
    for r in 0..16usize {
        assert_eq!(state.registers[r], (r * 3) as u8);
    }
    state.dispatch(0xAFF1);
    assert!(!state.can_dispatch(0xF055));
    assert!(!state.can_dispatch(0xF065));
}

#[test]
fn timers() {
    let mut state: State = Default::default();
    state.dispatch(0x6002);
    state.dispatch(0xF015);
    state.dispatch(0xF118);
    assert_eq!(state.delay_timer(), 2);
    state.advance_timer();
    assert_eq!(state.delay_timer(), 1);
    assert_eq!(state.sound_timer(), 0);
    state.dispatch(0xF307);
    assert_eq!(state.registers[3], 1);
    state.advance_timer();
    state.advance_timer();
    assert_eq!(state.delay_timer(), 0);
}

#[test]
fn frame_tick_counts_down() {
    let mut state: State = Default::default();
    state.dispatch(0x6005);
    state.dispatch(0xF015);
    let next = state.frame_tick(0);
    assert_eq!(next, TIMER_PERIOD);
    assert_eq!(TIMER_PERIOD, 30);
    assert_eq!(state.delay_timer(), 4);
    let next = state.frame_tick(next);
    assert_eq!(next, 29);
    assert_eq!(state.delay_timer(), 4);
}

#[test]
fn font_glyph_address() {
    let mut state: State = Default::default();
    state.load_font();
    assert_eq!(&state.memory[0..5], &[0xF0, 0x90, 0x90, 0x90, 0xF0]);
    state.dispatch(0x670A);
    state.dispatch(0xF729);
    assert_eq!(state.index(), 50);
    let i = state.index() as usize;
    assert_eq!(&state.memory[i..i + 5], &[0xF0, 0x90, 0xF0, 0x90, 0x90]);
    state.dispatch(0x670F);
    state.dispatch(0xF729);
    let i = state.index() as usize;
    assert_eq!(&state.memory[i..i + 5], &[0xF0, 0x80, 0xF0, 0x80, 0x80]);
    assert_eq!(state.memory[80], 0);
}

#[test]
fn draw_sprite_and_erase() {
    let mut state = with_display();
    state.load_font();
    state.dispatch(0x6000); // glyph 0
    state.dispatch(0xF029);
    state.dispatch(0x610A); // x
    state.dispatch(0x6205); // y
    assert_eq!(state.dispatch(0xD125), Effect::DrawScreen);
    assert_eq!(state.registers[15], 0);
    assert_eq!(lit_pixels(&state), 14);
    assert!(state.pixel(10, 5));
    assert!(state.pixel(13, 5));
    assert!(!state.pixel(14, 5));
    assert!(state.pixel(10, 6));
    assert!(!state.pixel(11, 6));
    state.dispatch(0xD125);
    assert_eq!(state.registers[15], 1);
    assert_eq!(lit_pixels(&state), 0);
}

#[test]
fn sprites_wrap_around_edges() {
    let mut state = with_display();
    state.load_font();
    state.dispatch(0x6000);
    state.dispatch(0xF029);
    state.dispatch(0x613E); // x = 62
    state.dispatch(0x621F); // y = 31
    state.dispatch(0xD121);
    // first row of glyph 0 is 0xF0: columns 62, 63, 0, 1 on row 31
    assert!(state.pixel(62, 31));
    assert!(state.pixel(63, 31));
    assert!(state.pixel(0, 31));
    assert!(state.pixel(1, 31));
    assert!(!state.pixel(2, 31));
    assert_eq!(lit_pixels(&state), 4);
}

#[test]
fn sprite_collision_sets_flag() {
    let mut state = with_display();
    state.load_font();
    state.dispatch(0x6000);
    state.dispatch(0xF029);
    state.dispatch(0x6100);
    state.dispatch(0x6200);
    state.dispatch(0xD121);
    assert_eq!(state.registers[15], 0);
    state.dispatch(0x6102);
    state.dispatch(0xD121);
    assert_eq!(state.registers[15], 1);
    assert!(state.pixel(0, 0));
    assert!(state.pixel(1, 0));
    assert!(!state.pixel(2, 0));
    assert!(!state.pixel(3, 0));
    assert!(state.pixel(4, 0));
    assert!(state.pixel(5, 0));
}

#[test]
fn sprite_past_memory_is_refused() {
    let mut state = with_display();
    state.dispatch(0xAFFE);
    assert!(state.can_dispatch(0xD012));
    assert!(!state.can_dispatch(0xD013));
}

#[test]
fn clear_screen_turns_pixels_off() {
    let mut state = with_display();
    state.load_font();
    state.dispatch(0xD005);
    assert!(lit_pixels(&state) > 0);
    assert_eq!(state.dispatch(0x00E0), Effect::ClearScreen);
    assert_eq!(lit_pixels(&state), 0);
}

#[test]
fn key_instructions_ask_for_keys() {
    let mut state = with_display();
    state.dispatch(0x6307);
    assert_eq!(state.dispatch(0xE39E), Effect::SkipIfPressed { key: 7 });
    assert_eq!(state.program_counter(), 0x200);
    state.skip_if_pressed(true);
    assert_eq!(state.program_counter(), 0x202);
    state.skip_if_pressed(false);
    assert_eq!(state.program_counter(), 0x202);
    assert_eq!(state.dispatch(0xE3A1), Effect::SkipIfNotPressed { key: 7 });
    state.skip_ifn_pressed(false);
    assert_eq!(state.program_counter(), 0x204);
    state.skip_ifn_pressed(true);
    assert_eq!(state.program_counter(), 0x204);
}

#[test]
fn wait_for_key_polls_in_turn() {
    let mut state = with_display();
    assert_eq!(state.dispatch(0xF40A), Effect::WaitForKey { x: 4 });
    assert_eq!(state.wait_for_key_press(4, 0, false), Some(1));
    assert_eq!(state.wait_for_key_press(4, 15, false), Some(0));
    assert_eq!(state.registers[4], 0);
    assert_eq!(state.wait_for_key_press(4, 9, true), None);
    assert_eq!(state.registers[4], 9);
}

#[test]
fn random_is_masked() {
    let mut state: State = Default::default();
    for _ in 0..50 {
        state.dispatch(0xC50F);
        assert!(state.registers[5] <= 0x0F);
        state.dispatch(0xC600);
        assert_eq!(state.registers[6], 0);
    }
    state.set_random(0xC5F0, 0xAB);
    assert_eq!(state.registers[5], 0xA0);
}

#[test]
fn load_program_and_run() {
    let mut state: State = Default::default();
    state.load_program(&[0x60, 0x2A, 0x12, 0x00]);
    assert_eq!(state.memory[0x1FF], 0);
    assert_eq!(state.memory[0x200], 0x60);
    assert_eq!(state.next_opcode(), 0x602A);
    assert!(state.can_run());
    assert_eq!(state.run_opcode(), Effect::Nothing);
    assert_eq!(state.registers[0], 0x2A);
    assert_eq!(state.program_counter(), 0x202);
    assert_eq!(state.next_opcode(), 0x1200);
    state.run_opcode();
    assert_eq!(state.program_counter(), 0x200);
}

#[test]
fn cannot_run_past_memory() {
    let mut state: State = Default::default();
    state.dispatch(0x1FFF);
    assert!(!state.can_run());
    state.dispatch(0x1FFE);
    assert!(state.can_run());
}

#[test]
fn keypad_lookup() {
    assert_eq!(lookup_keycode(0), KeyCode::Num0);
    assert_eq!(lookup_keycode(9), KeyCode::Num9);
    assert_eq!(lookup_keycode(10), KeyCode::A);
    assert_eq!(lookup_keycode(15), KeyCode::F);
    assert_eq!(lookup_keycode(16), KeyCode::Unmapped);
    assert_eq!(lookup_keycode(200), KeyCode::Unmapped);
    assert!(key_matches(KeyCode::C, 12));
    assert!(!key_matches(KeyCode::C, 13));
    assert!(!key_matches(KeyCode::Other, 16));
}
