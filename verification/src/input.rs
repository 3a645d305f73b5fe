//! The 16-key hexadecimal input device: per-key state, a one-shot
//! "last key pressed" latch, and the host-side key-name mapping
//! (layout 1234 / QWER / ASDF / ZXCV).

use vstd::prelude::*;
use crate::text::{digit_char, digit_char_ex, push_char, str_eq};

verus! {

/// The abstract state of the input device.
pub struct InputView {
    pub keys: Seq<bool>,
    pub last_key: Option<u8>,
    pub waiting: bool,
}

pub struct Input {
    keys: [bool; 16],
    last_key_pressed: Option<u8>,
    waiting_for_key: bool,
}

impl View for Input {
    type V = InputView;

    closed spec fn view(&self) -> InputView {
        InputView {
            keys: self.keys@,
            last_key: self.last_key_pressed,
            waiting: self.waiting_for_key,
        }
    }
}

/// All keys up, no latched key, not waiting.
pub open spec fn input_cleared() -> InputView {
    InputView { keys: Seq::new(16, |i: int| false), last_key: None, waiting: false }
}

/// Whether key `key` is down; keys outside the 16-key space read as up.
pub open spec fn key_pressed(s: InputView, key: u8) -> bool {
    if key < 16 {
        s.keys[key as int]
    } else {
        false
    }
}

/// The key code for a host key name, or None for a key outside the layout.
pub open spec fn key_code_of(s: Seq<char>) -> Option<u8> {
    if s == "Digit1"@ || s == "1"@ {
        Some(0x1u8)
    } else if s == "Digit2"@ || s == "2"@ {
        Some(0x2u8)
    } else if s == "Digit3"@ || s == "3"@ {
        Some(0x3u8)
    } else if s == "Digit4"@ || s == "4"@ {
        Some(0xCu8)
    } else if s == "KeyQ"@ || s == "q"@ {
        Some(0x4u8)
    } else if s == "KeyW"@ || s == "w"@ {
        Some(0x5u8)
    } else if s == "KeyE"@ || s == "e"@ {
        Some(0x6u8)
    } else if s == "KeyR"@ || s == "r"@ {
        Some(0xDu8)
    } else if s == "KeyA"@ || s == "a"@ {
        Some(0x7u8)
    } else if s == "KeyS"@ || s == "s"@ {
        Some(0x8u8)
    } else if s == "KeyD"@ || s == "d"@ {
        Some(0x9u8)
    } else if s == "KeyF"@ || s == "f"@ {
        Some(0xEu8)
    } else if s == "KeyZ"@ || s == "z"@ {
        Some(0xAu8)
    } else if s == "KeyX"@ || s == "x"@ {
        Some(0x0u8)
    } else if s == "KeyC"@ || s == "c"@ {
        Some(0xBu8)
    } else if s == "KeyV"@ || s == "v"@ {
        Some(0xFu8)
    } else {
        None
    }
}

impl Input {
    pub fn new() -> (inp: Input)
        ensures
            inp@ == input_cleared(),
    {
        let inp = Input { keys: [false; 16], last_key_pressed: None, waiting_for_key: false };
        proof {
            assert(inp@.keys =~= input_cleared().keys);
        }
        inp
    }

    pub fn clear(&mut self)
        ensures
            final(self)@ == input_cleared(),
    {
        let mut i: usize = 0;
        while i < 16
            invariant
                i <= 16,
                forall|k: int| 0 <= k < i ==> !self.keys@[k],
            decreases 16 - i,
        {
            self.keys[i] = false;
            i = i + 1;
        }
        self.last_key_pressed = None;
        self.waiting_for_key = false;
        proof {
            assert(self@.keys =~= input_cleared().keys);
        }
    }

    /// Press a key: set its state and latch it as most recently pressed.
    /// Key codes outside the 16-key space are ignored.
    pub fn key_down(&mut self, key: u8)
        ensures
            key < 16 ==> final(self)@ == (InputView {
                keys: old(self)@.keys.update(key as int, true),
                last_key: Some(key),
                ..old(self)@
            }),
            key >= 16 ==> final(self)@ == old(self)@,
    {
        if key < 16 {
            self.keys[key as usize] = true;
            self.last_key_pressed = Some(key);
        }
    }

    /// Release a key; key codes outside the 16-key space are ignored.
    pub fn key_up(&mut self, key: u8)
        ensures
            key < 16 ==> final(self)@ == (InputView {
                keys: old(self)@.keys.update(key as int, false),
                ..old(self)@
            }),
            key >= 16 ==> final(self)@ == old(self)@,
    {
        if key < 16 {
            self.keys[key as usize] = false;
        }
    }

    pub fn is_key_pressed(&self, key: u8) -> (down: bool)
        ensures
            down == key_pressed(self@, key),
    {
        if key < 16 {
            let down = self.keys[key as usize];
            proof {
                assert(self@.keys == self.keys@);
            }
            down
        } else {
            false
        }
    }

    /// Take the latched key, clearing the latch: a one-shot read.
    pub fn get_key_pressed(&mut self) -> (key: Option<u8>)
        ensures
            key == old(self)@.last_key,
            final(self)@ == (InputView { last_key: None, ..old(self)@ }),
    {
        let key = self.last_key_pressed;
        self.last_key_pressed = None;
        key
    }

    pub fn wait_for_key(&mut self)
        ensures
            final(self)@ == (InputView { waiting: true, ..old(self)@ }),
    {
        self.waiting_for_key = true;
    }

    pub fn is_waiting_for_key(&self) -> (w: bool)
        ensures
            w == self@.waiting,
    {
        self.waiting_for_key
    }

    pub fn stop_waiting(&mut self)
        ensures
            final(self)@ == (InputView { waiting: false, ..old(self)@ }),
    {
        self.waiting_for_key = false;
    }

    /// A one-line listing of the pressed keys and the latch, for diagnostics
    /// only.
    pub fn get_debug_state(&self) -> (s: String)
        ensures
            s@.len() > 0,
    {
        let mut s = String::new();
        s.append("Keys: ");
        proof {
            reveal_strlit("Keys: ");
        }
        let mut i: usize = 0;
        while i < 16
            invariant
                s@.len() > 0,
            decreases 16 - i,
        {
            if self.keys[i] {
                push_char(&mut s, digit_char_ex(i as u8));
                push_char(&mut s, ' ');
            }
            i = i + 1;
        }
        if let Some(last) = self.last_key_pressed {
            s.append("| Last: ");
            if last < 16 {
                push_char(&mut s, digit_char_ex(last));
            } else {
                push_char(&mut s, '?');
            }
        }
        s
    }

    /// Translate a host keyboard key name into the 16-key code space.
    pub fn js_key_to_chip8(js_key: &str) -> (code: Option<u8>)
        ensures
            code == key_code_of(js_key@),
    {
        if str_eq(js_key, "Digit1") || str_eq(js_key, "1") {
            Some(0x1)
        } else if str_eq(js_key, "Digit2") || str_eq(js_key, "2") {
            Some(0x2)
        } else if str_eq(js_key, "Digit3") || str_eq(js_key, "3") {
            Some(0x3)
        } else if str_eq(js_key, "Digit4") || str_eq(js_key, "4") {
            Some(0xC)
        } else if str_eq(js_key, "KeyQ") || str_eq(js_key, "q") {
            Some(0x4)
        } else if str_eq(js_key, "KeyW") || str_eq(js_key, "w") {
            Some(0x5)
        } else if str_eq(js_key, "KeyE") || str_eq(js_key, "e") {
            Some(0x6)
        } else if str_eq(js_key, "KeyR") || str_eq(js_key, "r") {
            Some(0xD)
        } else if str_eq(js_key, "KeyA") || str_eq(js_key, "a") {
            Some(0x7)
        } else if str_eq(js_key, "KeyS") || str_eq(js_key, "s") {
            Some(0x8)
        } else if str_eq(js_key, "KeyD") || str_eq(js_key, "d") {
            Some(0x9)
        } else if str_eq(js_key, "KeyF") || str_eq(js_key, "f") {
            Some(0xE)
        } else if str_eq(js_key, "KeyZ") || str_eq(js_key, "z") {
            Some(0xA)
        } else if str_eq(js_key, "KeyX") || str_eq(js_key, "x") {
            Some(0x0)
        } else if str_eq(js_key, "KeyC") || str_eq(js_key, "c") {
            Some(0xB)
        } else if str_eq(js_key, "KeyV") || str_eq(js_key, "v") {
            Some(0xF)
        } else {
            None
        }
    }

    /// The display name of a key code; codes above 0xF clamp to "F".
    pub fn chip8_key_name(key: u8) -> (s: String)
        ensures
            s@ == seq![digit_char(if key > 15 { 15int } else { key as int })],
    {
        let k = if key > 15 {
            15
        } else {
            key
        };
        let mut s = String::new();
        push_char(&mut s, digit_char_ex(k));
        proof {
            assert(s@ =~= seq![digit_char(if key > 15 { 15int } else { key as int })]);
        }
        s
    }
}

} // verus!
