use chip8::{apply_key_event, key_to_chip8_key, KeyEvent};

#[test]
fn key_layout() {
    assert_eq!(key_to_chip8_key('x'), Some(0x0));
    assert_eq!(key_to_chip8_key('1'), Some(0x1));
    assert_eq!(key_to_chip8_key('4'), Some(0xC));
    assert_eq!(key_to_chip8_key('v'), Some(0xF));
    assert_eq!(key_to_chip8_key('p'), None);
}

#[test]
fn key_down_and_up() {
    let mut keys = [0u8; 16];
    assert!(!apply_key_event(&mut keys, KeyEvent::KeyDown('w')));
    assert_eq!(keys[5], 1);
    assert!(!apply_key_event(&mut keys, KeyEvent::KeyDown('k')));
    assert_eq!(keys.iter().filter(|&&k| k != 0).count(), 1);
    assert!(!apply_key_event(&mut keys, KeyEvent::KeyUp('w')));
    assert_eq!(keys, [0u8; 16]);
}

#[test]
fn quit_and_escape_end_the_session() {
    let mut keys = [0u8; 16];
    assert!(apply_key_event(&mut keys, KeyEvent::Quit));
    assert!(apply_key_event(&mut keys, KeyEvent::KeyDown('\u{1b}')));
    assert!(apply_key_event(&mut keys, KeyEvent::KeyUp('\u{1b}')));
    assert!(!apply_key_event(&mut keys, KeyEvent::Other));
    assert_eq!(keys, [0u8; 16]);
}
