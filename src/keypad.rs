use vstd::prelude::*;

verus! {

/// The character of the host key that ends a session.
pub const ESCAPE: char = '\u{1b}';

/// An input event of the host, with each key given by the character it
/// types.
#[derive(PartialEq, Eq, Structural, Clone, Copy, Debug)]
pub enum KeyEvent {
    /// The window was closed.
    Quit,
    KeyDown(char),
    KeyUp(char),
    /// Any other event, or a key with no character.
    Other,
}

/// The machine key that a host key stands for, in the usual layout of the
/// left-hand block of a keyboard:
///
/// ```text
/// 1 2 3 4        1 2 3 C
/// q w e r   ->   4 5 6 D
/// a s d f        7 8 9 E
/// z x c v        A 0 B F
/// ```
pub open spec fn key_of(c: char) -> Option<int> {
    if c == 'x' {
        Some(0x0)
    } else if c == '1' {
        Some(0x1)
    } else if c == '2' {
        Some(0x2)
    } else if c == '3' {
        Some(0x3)
    } else if c == 'q' {
        Some(0x4)
    } else if c == 'w' {
        Some(0x5)
    } else if c == 'e' {
        Some(0x6)
    } else if c == 'a' {
        Some(0x7)
    } else if c == 's' {
        Some(0x8)
    } else if c == 'd' {
        Some(0x9)
    } else if c == 'z' {
        Some(0xA)
    } else if c == 'c' {
        Some(0xB)
    } else if c == '4' {
        Some(0xC)
    } else if c == 'r' {
        Some(0xD)
    } else if c == 'f' {
        Some(0xE)
    } else if c == 'v' {
        Some(0xF)
    } else {
        None
    }
}

/// The key state after `c` goes down (`pressed`) or up.
pub open spec fn keys_after(keys: Seq<u8>, c: char, pressed: bool) -> Seq<u8> {
    match key_of(c) {
        Some(i) => keys.update(i, if pressed { 1u8 } else { 0u8 }),
        None => keys,
    }
}

/// The machine key that host key `key` stands for, if any.
pub fn key_to_chip8_key(key: char) -> (r: Option<usize>)
    ensures
        r matches Some(i) ==> key_of(key) == Some(i as int),
        r is None ==> key_of(key) is None,
{
    match key {
        'x' => Some(0x0),
        '1' => Some(0x1),
        '2' => Some(0x2),
        '3' => Some(0x3),
        'q' => Some(0x4),
        'w' => Some(0x5),
        'e' => Some(0x6),
        'a' => Some(0x7),
        's' => Some(0x8),
        'd' => Some(0x9),
        'z' => Some(0xA),
        'c' => Some(0xB),
        '4' => Some(0xC),
        'r' => Some(0xD),
        'f' => Some(0xE),
        'v' => Some(0xF),
        _ => None,
    }
}

/// Applies one host event to the key state: a mapped key going down sets
/// its entry to 1, going up sets it to 0. Returns whether the session
/// should end: on `Quit`, or when the escape key goes down or up.
pub fn apply_key_event(keys: &mut [u8; 16], event: KeyEvent) -> (quit: bool)
    ensures
        match event {
            KeyEvent::Quit => quit && final(keys)@ == old(keys)@,
            KeyEvent::KeyDown(c) => quit == (c == ESCAPE) && final(keys)@ == keys_after(
                old(keys)@,
                c,
                true,
            ),
            KeyEvent::KeyUp(c) => quit == (c == ESCAPE) && final(keys)@ == keys_after(
                old(keys)@,
                c,
                false,
            ),
            KeyEvent::Other => !quit && final(keys)@ == old(keys)@,
        },
{
    match event {
        KeyEvent::Quit => true,
        KeyEvent::KeyDown(c) => {
            if let Some(i) = key_to_chip8_key(c) {
                keys[i] = 1;
            }
            c == ESCAPE
        },
        KeyEvent::KeyUp(c) => {
            if let Some(i) = key_to_chip8_key(c) {
                keys[i] = 0;
            }
            c == ESCAPE
        },
        KeyEvent::Other => false,
    }
}

} // verus!
