use chip8gui::cadence::Action;
use chip8gui::cadence::Event;
use chip8gui::cadence::Fault;
use chip8gui::cadence::Phase;
use chip8gui::cadence::Presenter;
use chip8gui::config::Config;
use chip8gui::config::PIXEL_COLOR_OFF;
use chip8gui::config::PIXEL_COLOR_ON;
use chip8gui::display_buffer;
use chip8gui::keypad::PhysicalKey;
use chip8gui::machine::advance;
use chip8gui::machine::check_key_input;
use chip8gui::machine::perform;
use chip8gui::raster::expand;
use chip8gui::HEIGHT;
use chip8gui::WIDTH;
use chip8sys::chip8::Chip8Sys;

fn patterned_machine() -> Chip8Sys {
    let mut machine = Chip8Sys::new_chip_8();
    for (index, byte) in machine.frame_buffer.iter_mut().enumerate() {
        *byte = (index as u8).wrapping_mul(73) ^ 0x5A;
    }
    machine
}

#[test]
fn display_buffer_of_a_new_machine_is_all_off() {
    let machine = Chip8Sys::new_chip_8();
    let pixels = display_buffer(&machine);
    assert_eq!(pixels.len(), WIDTH * HEIGHT);
    assert!(pixels.iter().all(|colour| *colour == PIXEL_COLOR_OFF));
}

#[test]
fn display_buffer_shows_the_first_bit_as_the_top_left_block() {
    let mut machine = Chip8Sys::new_chip_8();
    machine.frame_buffer[0] = 0b1000_0000;
    let pixels = display_buffer(&machine);
    for y in 0..HEIGHT {
        for x in 0..WIDTH {
            let expected = if x < 20 && y < 20 { PIXEL_COLOR_ON } else { PIXEL_COLOR_OFF };
            assert_eq!(pixels[y * WIDTH + x], expected);
        }
    }
}

#[test]
fn display_buffer_is_the_machine_frame_magnified_twenty_times() {
    let machine = patterned_machine();
    let frame = machine.frame_buffer.to_vec();
    let pixels = display_buffer(&machine);
    assert_eq!(pixels.len(), 20 * 20 * 64 * 32);
    assert_eq!(pixels, expand(&frame, 20, 64, Config::default().palette));
    assert_eq!(machine.frame_buffer.to_vec(), frame);
}

#[test]
fn display_buffer_of_a_full_frame_is_all_on() {
    let mut machine = Chip8Sys::new_chip_8();
    machine.frame_buffer = [0xFF; 256];
    assert!(display_buffer(&machine).iter().all(|colour| *colour == PIXEL_COLOR_ON));
}

#[test]
fn check_key_input_hands_the_mask_of_the_held_keys_to_the_machine() {
    let mut machine = patterned_machine();
    let frame = machine.frame_buffer;
    check_key_input(&mut machine, &[PhysicalKey::W]);
    assert_eq!(machine.keys_mask(), 0b0000_0000_0010_0000);
    assert!(machine.keys[5]);
    check_key_input(&mut machine, &[PhysicalKey::X, PhysicalKey::Key4, PhysicalKey::V]);
    assert_eq!(machine.keys_mask(), 0x9001);
    check_key_input(&mut machine, &[]);
    assert_eq!(machine.keys_mask(), 0);
    assert_eq!(machine.keys, [false; 16]);
    assert_eq!(machine.frame_buffer, frame);
    assert!(!machine.is_sound_playing());
}

#[test]
fn perform_delivers_the_key_mask() {
    let mut machine = patterned_machine();
    let frame = machine.frame_buffer;
    for mask in [0x0000u16, 0x0001, 0x0020, 0x8000, 0xA5A5, 0xFFFF] {
        assert_eq!(perform(&mut machine, &Action::SetKeysMask(mask)), Some(Event::Done));
        assert_eq!(machine.keys_mask(), mask);
        for key in 0..16 {
            assert_eq!(machine.keys[key], mask & (1 << key) != 0);
        }
        assert_eq!(machine.frame_buffer, frame);
        assert!(!machine.is_sound_playing());
    }
}

#[test]
fn perform_fetches_the_frame() {
    let mut machine = patterned_machine();
    let frame = machine.frame_buffer.to_vec();
    assert_eq!(frame.len(), 256);
    assert_eq!(perform(&mut machine, &Action::FetchFrame), Some(Event::Frame(frame.clone())));
    assert_eq!(machine.frame_buffer.to_vec(), frame);
}

#[test]
fn perform_reads_the_sound_flag() {
    let mut machine = Chip8Sys::new_chip_8();
    assert_eq!(perform(&mut machine, &Action::QuerySound), Some(Event::Sound(false)));
    machine.is_playing_sound = true;
    assert_eq!(perform(&mut machine, &Action::QuerySound), Some(Event::Sound(true)));
    assert!(machine.is_sound_playing());
}

#[test]
fn perform_leaves_the_other_actions_to_the_caller() {
    let mut machine = patterned_machine();
    let frame = machine.frame_buffer;
    let others = [
        Action::PollInput,
        Action::Present { pixels: vec![1, 2, 3], width: 3, height: 1 },
        Action::Tick { cycles: 1 },
        Action::AppendTone,
        Action::StopSink,
        Action::Exit,
    ];
    for action in others {
        assert_eq!(perform(&mut machine, &action), None);
    }
    assert_eq!(machine.frame_buffer, frame);
    assert_eq!(machine.keys_mask(), 0);
    assert_eq!(machine.program_counter, 0x200);
}

#[test]
fn advance_answers_an_input_with_the_picture_of_the_machine() {
    let mut machine = patterned_machine();
    let frame = machine.frame_buffer.to_vec();
    let (mut presenter, _) = Presenter::start(Config::default()).unwrap();
    let input = Event::Input {
        open: true,
        exit_key: false,
        held: vec![PhysicalKey::Key1, PhysicalKey::V],
    };
    let action = advance(&mut presenter, &mut machine, input).unwrap();
    assert_eq!(
        action,
        Action::Present { pixels: display_buffer(&machine), width: WIDTH, height: HEIGHT }
    );
    assert_eq!(machine.keys_mask(), 0x8002);
    assert_eq!(machine.frame_buffer.to_vec(), frame);
    assert_eq!(presenter.current_phase(), Phase::AwaitPresented);
}

#[test]
fn advance_answers_a_tick_with_the_tone_action() {
    for playing in [false, true] {
        let mut machine = Chip8Sys::new_chip_8();
        let (mut presenter, _) = Presenter::start(Config::default()).unwrap();
        let input = Event::Input { open: true, exit_key: false, held: vec![] };
        advance(&mut presenter, &mut machine, input).unwrap();
        let action = advance(&mut presenter, &mut machine, Event::Presented(true)).unwrap();
        assert_eq!(action, Action::Tick { cycles: 1 });
        machine.is_playing_sound = playing;
        let action = advance(&mut presenter, &mut machine, Event::Ticked(true)).unwrap();
        assert_eq!(action, if playing { Action::AppendTone } else { Action::StopSink });
        let action = advance(&mut presenter, &mut machine, Event::Done).unwrap();
        assert_eq!(action, Action::PollInput);
        assert_eq!(presenter.current_phase(), Phase::AwaitInput);
    }
}

#[test]
fn advance_passes_on_what_ends_the_loop() {
    let mut machine = Chip8Sys::new_chip_8();
    let (mut presenter, _) = Presenter::start(Config::default()).unwrap();
    let closed = Event::Input { open: false, exit_key: false, held: vec![PhysicalKey::Q] };
    assert_eq!(advance(&mut presenter, &mut machine, closed), Ok(Action::Exit));
    assert_eq!(machine.keys_mask(), 0);

    let (mut presenter, _) = Presenter::start(Config::default()).unwrap();
    let input = Event::Input { open: true, exit_key: false, held: vec![] };
    advance(&mut presenter, &mut machine, input).unwrap();
    assert_eq!(
        advance(&mut presenter, &mut machine, Event::Presented(false)),
        Err(Fault::PresentFailed)
    );

    let (mut presenter, _) = Presenter::start(Config::default()).unwrap();
    assert_eq!(
        advance(&mut presenter, &mut machine, Event::Sound(true)),
        Err(Fault::UnexpectedEvent)
    );
    assert_eq!(presenter.current_phase(), Phase::Stopped);
}

/// Runs `frames` rounds of the loop against a real machine and returns, for
/// each round, the first byte of the frame that was shown, the key mask
/// that the machine held when it ticked, and whether the tone was appended.
fn play(rom: &[u8], keyboard: Vec<Vec<PhysicalKey>>) -> Vec<(u8, u16, bool)> {
    let mut machine = Chip8Sys::new_chip_8();
    machine.load_rom_bytes(rom);
    let (mut presenter, mut action) = Presenter::start(Config::default()).unwrap();
    let mut shown: Vec<(u8, u16, bool)> = Vec::new();
    let mut first_byte = 0u8;
    let mut keys = 0u16;
    loop {
        let event = match action {
            Action::PollInput => match keyboard.get(shown.len()) {
                Some(held) => Event::Input { open: true, exit_key: false, held: held.clone() },
                None => Event::Input { open: false, exit_key: false, held: vec![] },
            },
            Action::Present { pixels, width, height } => {
                assert_eq!((width, height), (WIDTH, HEIGHT));
                assert_eq!(pixels, display_buffer(&machine));
                first_byte = machine.frame_buffer[0];
                Event::Presented(true)
            }
            Action::Tick { cycles } => {
                keys = machine.keys_mask();
                Event::Ticked(machine.tick(cycles).is_ok())
            }
            Action::AppendTone => {
                shown.push((first_byte, keys, true));
                Event::Done
            }
            Action::StopSink => {
                shown.push((first_byte, keys, false));
                Event::Done
            }
            Action::Exit => return shown,
            Action::SetKeysMask(_) | Action::FetchFrame | Action::QuerySound => {
                panic!("an action on the machine was handed out")
            }
        };
        action = advance(&mut presenter, &mut machine, event).unwrap();
    }
}

#[test]
fn a_machine_that_draws_is_shown_one_frame_later() {
    // Point at the glyph of zero, draw it at the top left, then stay.
    let rom = [0xA0, 0x50, 0xD0, 0x05, 0x12, 0x04];
    let shown = play(&rom, vec![vec![]; 4]);
    let bytes: Vec<u8> = shown.iter().map(|(byte, _, _)| *byte).collect();
    // The sprite is drawn by the second tick, so the third frame shows it.
    assert_eq!(bytes, vec![0x00, 0x00, 0xF0, 0xF0]);
}

#[test]
fn a_machine_that_beeps_gets_its_tone() {
    // Load three into a register, set the sound timer from it, then stay.
    let rom = [0x60, 0x03, 0xF0, 0x18, 0x12, 0x04];
    let shown = play(&rom, vec![vec![]; 6]);
    let tone: Vec<bool> = shown.iter().map(|(_, _, tone)| *tone).collect();
    assert_eq!(tone, vec![false, true, true, true, false, false]);
}

#[test]
fn a_machine_ticks_on_the_keys_held_in_its_frame() {
    let rom = [0x12, 0x00];
    let keyboard = vec![vec![PhysicalKey::W], vec![], vec![PhysicalKey::X, PhysicalKey::V]];
    let shown = play(&rom, keyboard);
    let keys: Vec<u16> = shown.iter().map(|(_, keys, _)| *keys).collect();
    assert_eq!(keys, vec![0x0020, 0x0000, 0x8001]);
}
