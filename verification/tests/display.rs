use chip8::emulator::Emulator;
use chip8::peripherals::display::{
    call_log, draw_list, handle_events, keypad, InputEvent, Key, LogLine, PeripheralMemory, Square,
    TextData,
};
use chip8::utils::{OFstate, TextType, X_PIXELS, Y_PIXELS};

#[test]
fn text_data_keeps_its_parts() {
    let t = TextData::new(TextType::Function, String::from("jump called"));
    assert_eq!(t.text_type(), TextType::Function);
    assert_eq!(t.value(), "jump called");
}

#[test]
fn peripheral_memory_keeps_its_parts() {
    let mut vram = [[OFstate::OFF; 64]; 32];
    vram[3][5] = OFstate::ON;
    let mut keys = [false; 16];
    keys[9] = true;
    let text = vec![TextData::new(TextType::Function, String::from("a"))];
    let p = PeripheralMemory::new(vram, keys, text);
    assert_eq!(p.vram[3][5], OFstate::ON);
    assert_eq!(p.vram[5][3], OFstate::OFF);
    assert_eq!(p.key_list, keys);
    assert_eq!(p.text.len(), 1);
    assert_eq!(p.text[0].value(), "a");
}

#[test]
fn screen_dimensions() {
    assert_eq!(X_PIXELS, 64);
    assert_eq!(Y_PIXELS, 32);
}

#[test]
fn pixel_states_toggle() {
    assert!(OFstate::ON.is_on());
    assert!(!OFstate::OFF.is_on());
    assert_eq!(OFstate::ON.toggled(), OFstate::OFF);
    assert_eq!(OFstate::OFF.toggled(), OFstate::ON);
}

#[test]
fn keyboard_block_maps_to_keypad() {
    let table = [
        (Key::Num1, 0x1),
        (Key::Num2, 0x2),
        (Key::Num3, 0x3),
        (Key::Num4, 0xC),
        (Key::Q, 0x4),
        (Key::W, 0x5),
        (Key::E, 0x6),
        (Key::R, 0xD),
        (Key::A, 0x7),
        (Key::S, 0x8),
        (Key::D, 0x9),
        (Key::F, 0xE),
        (Key::Z, 0xA),
        (Key::X, 0x0),
        (Key::C, 0xB),
        (Key::V, 0xF),
    ];
    for (key, pad) in table {
        assert_eq!(keypad(key), Some(pad));
    }
    assert_eq!(keypad(Key::Escape), None);
    assert_eq!(keypad(Key::Other), None);
}

#[test]
fn events_set_and_clear_the_latch() {
    let mut keys = [false; 16];
    let events = vec![
        InputEvent::KeyDown(Key::Q),
        InputEvent::Other,
        InputEvent::KeyDown(Key::V),
        InputEvent::KeyUp(Key::Q),
        InputEvent::KeyDown(Key::X),
    ];
    assert!(handle_events(&mut keys, &events));
    let mut want = [false; 16];
    want[0xF] = true;
    want[0x0] = true;
    assert_eq!(keys, want);
}

#[test]
fn quit_and_escape_ask_to_stop() {
    let mut keys = [false; 16];
    assert!(!handle_events(&mut keys, &vec![InputEvent::KeyDown(Key::A), InputEvent::Quit]));
    assert!(keys[7]);
    let mut keys = [false; 16];
    let events = vec![InputEvent::KeyDown(Key::Escape), InputEvent::KeyDown(Key::A)];
    assert!(!handle_events(&mut keys, &events));
    assert_eq!(keys, [false; 16]);
}

#[test]
fn unknown_key_drops_the_events_after_it() {
    let mut keys = [false; 16];
    let events = vec![
        InputEvent::KeyDown(Key::A),
        InputEvent::KeyDown(Key::Other),
        InputEvent::KeyDown(Key::S),
        InputEvent::Quit,
    ];
    assert!(handle_events(&mut keys, &events));
    assert!(keys[7]);
    assert!(!keys[8]);
    let mut keys = [true; 16];
    let events = vec![InputEvent::KeyUp(Key::Escape), InputEvent::KeyUp(Key::S)];
    assert!(handle_events(&mut keys, &events));
    assert_eq!(keys, [true; 16]);
}

#[test]
fn no_events_change_nothing() {
    let mut keys = [false; 16];
    keys[4] = true;
    assert!(handle_events(&mut keys, &Vec::new()));
    let mut want = [false; 16];
    want[4] = true;
    assert_eq!(keys, want);
}

#[test]
fn call_log_shows_newest_twenty_lines() {
    let mut text = Vec::new();
    assert_eq!(call_log(&text), Vec::new());
    for i in 0..3 {
        text.push(TextData::new(TextType::Function, format!("line {}", i)));
    }
    assert_eq!(
        call_log(&text),
        vec![
            LogLine { index: 2, y: 616 },
            LogLine { index: 1, y: 604 },
            LogLine { index: 0, y: 592 },
        ]
    );
    for i in 3..25 {
        text.push(TextData::new(TextType::Function, format!("line {}", i)));
    }
    let lines = call_log(&text);
    assert_eq!(lines.len(), 20);
    assert_eq!(lines[0], LogLine { index: 24, y: 616 });
    assert_eq!(lines[19], LogLine { index: 5, y: 616 - 19 * 12 });
}

#[test]
fn draw_list_places_every_pixel() {
    let mut vram = [[OFstate::OFF; 64]; 32];
    vram[0][1] = OFstate::ON;
    vram[31][63] = OFstate::ON;
    let squares = draw_list(&vram);
    assert_eq!(squares.len(), 2048);
    assert_eq!(squares[0], Square { x: 0, y: 0, side: 12, lit: false });
    assert_eq!(squares[1], Square { x: 12, y: 0, side: 12, lit: true });
    assert_eq!(squares[64], Square { x: 0, y: 12, side: 12, lit: false });
    assert_eq!(squares[2047], Square { x: 756, y: 372, side: 12, lit: true });
    assert_eq!(squares.iter().filter(|s| s.lit).count(), 2);
}

#[test]
fn machine_log_and_key_latch_are_kept() {
    let mut e = Emulator::new();
    e.log(TextData::new(TextType::Function, String::from("first")));
    e.log(TextData::new(TextType::Function, String::from("second")));
    assert_eq!(e.peripherals().text.len(), 2);
    assert_eq!(e.peripherals().text[1].value(), "second");
    let mut keys = [false; 16];
    keys[2] = true;
    e.set_keys(keys);
    assert_eq!(e.peripherals().key_list, keys);
}
