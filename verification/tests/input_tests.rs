use ferris8::Input;

#[test]
fn keys_start_released() {
    let inp = Input::new();
    for k in 0..16 {
        assert!(!inp.is_key_pressed(k));
    }
}

#[test]
fn key_down_and_up() {
    let mut inp = Input::new();
    inp.key_down(5);
    assert!(inp.is_key_pressed(5));
    assert!(!inp.is_key_pressed(6));
    inp.key_up(5);
    assert!(!inp.is_key_pressed(5));
}

#[test]
fn out_of_range_keys_are_ignored() {
    let mut inp = Input::new();
    inp.key_down(16);
    inp.key_down(200);
    assert_eq!(inp.get_key_pressed(), None);
    assert!(!inp.is_key_pressed(16));
    inp.key_up(16); // also a no-op
}

#[test]
fn latch_is_one_shot() {
    let mut inp = Input::new();
    inp.key_down(9);
    assert_eq!(inp.get_key_pressed(), Some(9));
    assert_eq!(inp.get_key_pressed(), None, "the latch is consumed");
    assert!(inp.is_key_pressed(9), "the key state itself stays down");
}

#[test]
fn latch_holds_the_most_recent_key() {
    let mut inp = Input::new();
    inp.key_down(1);
    inp.key_down(2);
    assert_eq!(inp.get_key_pressed(), Some(2));
}

#[test]
fn clear_resets_everything() {
    let mut inp = Input::new();
    inp.key_down(3);
    inp.wait_for_key();
    inp.clear();
    assert!(!inp.is_key_pressed(3));
    assert_eq!(inp.get_key_pressed(), None);
    assert!(!inp.is_waiting_for_key());
}

#[test]
fn waiting_flag_toggles() {
    let mut inp = Input::new();
    assert!(!inp.is_waiting_for_key());
    inp.wait_for_key();
    assert!(inp.is_waiting_for_key());
    inp.stop_waiting();
    assert!(!inp.is_waiting_for_key());
}

#[test]
fn js_key_mapping_covers_the_layout() {
    assert_eq!(Input::js_key_to_chip8("Digit1"), Some(0x1));
    assert_eq!(Input::js_key_to_chip8("1"), Some(0x1));
    assert_eq!(Input::js_key_to_chip8("Digit4"), Some(0xC));
    assert_eq!(Input::js_key_to_chip8("KeyQ"), Some(0x4));
    assert_eq!(Input::js_key_to_chip8("q"), Some(0x4));
    assert_eq!(Input::js_key_to_chip8("KeyR"), Some(0xD));
    assert_eq!(Input::js_key_to_chip8("KeyA"), Some(0x7));
    assert_eq!(Input::js_key_to_chip8("KeyF"), Some(0xE));
    assert_eq!(Input::js_key_to_chip8("KeyZ"), Some(0xA));
    assert_eq!(Input::js_key_to_chip8("KeyX"), Some(0x0));
    assert_eq!(Input::js_key_to_chip8("x"), Some(0x0));
    assert_eq!(Input::js_key_to_chip8("KeyC"), Some(0xB));
    assert_eq!(Input::js_key_to_chip8("KeyV"), Some(0xF));
    assert_eq!(Input::js_key_to_chip8("Escape"), None);
    assert_eq!(Input::js_key_to_chip8(""), None);
    assert_eq!(Input::js_key_to_chip8("Digit10"), None);
}

#[test]
fn key_names_clamp() {
    assert_eq!(Input::chip8_key_name(0), "0");
    assert_eq!(Input::chip8_key_name(10), "A");
    assert_eq!(Input::chip8_key_name(15), "F");
    assert_eq!(Input::chip8_key_name(99), "F");
}

#[test]
fn debug_state_renders() {
    let mut inp = Input::new();
    inp.key_down(0xA);
    let s = inp.get_debug_state();
    assert!(s.contains("A"));
}
