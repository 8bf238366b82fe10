use chip8::display::{apply_key_event, frame_rects, is_quit_key, keypad_index, KEYPAD, MULTIPLIER};
use chip8::timers::tick;

#[test]
fn keypad_layout() {
    assert_eq!(keypad_index('1'), Some(0x1));
    assert_eq!(keypad_index('2'), Some(0x2));
    assert_eq!(keypad_index('3'), Some(0x3));
    assert_eq!(keypad_index('4'), Some(0xC));
    assert_eq!(keypad_index('q'), Some(0x4));
    assert_eq!(keypad_index('w'), Some(0x5));
    assert_eq!(keypad_index('e'), Some(0x6));
    assert_eq!(keypad_index('r'), Some(0xD));
    assert_eq!(keypad_index('a'), Some(0x7));
    assert_eq!(keypad_index('s'), Some(0x8));
    assert_eq!(keypad_index('d'), Some(0x9));
    assert_eq!(keypad_index('f'), Some(0xE));
    assert_eq!(keypad_index('z'), Some(0xA));
    assert_eq!(keypad_index('x'), Some(0x0));
    assert_eq!(keypad_index('c'), Some(0xB));
    assert_eq!(keypad_index('v'), Some(0xF));
    assert_eq!(keypad_index('5'), None);
    assert_eq!(keypad_index('Q'), None);
    assert_eq!(keypad_index('\u{1b}'), None);
}

#[test]
fn keypad_keys_are_distinct() {
    for j in 0..16 {
        for k in 0..16 {
            if j != k {
                assert_ne!(KEYPAD[j], KEYPAD[k]);
            }
        }
        assert_eq!(keypad_index(KEYPAD[j]), Some(j));
    }
}

#[test]
fn key_press_and_release() {
    let mut keys = [false; 16];
    apply_key_event(&mut keys, 'w', true);
    assert!(keys[5]);
    assert_eq!(keys.iter().filter(|k| **k).count(), 1);
    apply_key_event(&mut keys, 'v', true);
    assert!(keys[0xF]);
    apply_key_event(&mut keys, 'w', false);
    assert!(!keys[5]);
    assert!(keys[0xF]);
    apply_key_event(&mut keys, 'p', true);
    assert_eq!(keys.iter().filter(|k| **k).count(), 1);
}

#[test]
fn frame_rects_of_blank_screen() {
    let display = [[false; 32]; 64];
    assert!(frame_rects(&display).is_empty());
}

#[test]
fn frame_rects_in_column_order() {
    let mut display = [[false; 32]; 64];
    display[63][31] = true;
    display[0][5] = true;
    display[0][1] = true;
    display[2][0] = true;
    let rects = frame_rects(&display);
    assert_eq!(
        rects,
        vec![
            (0, 16, 16, 16),
            (0, 80, 16, 16),
            (32, 0, 16, 16),
            (63 * MULTIPLIER, 31 * MULTIPLIER, 16, 16),
        ]
    );
}

#[test]
fn timer_ticks_down_to_zero() {
    assert_eq!(tick(5), 4);
    assert_eq!(tick(1), 0);
    assert_eq!(tick(0), 0);
    assert_eq!(tick(255), 254);
    let mut t = 3u8;
    for _ in 0..10 {
        t = tick(t);
    }
    assert_eq!(t, 0);
}

#[test]
fn escape_quits() {
    assert!(is_quit_key('\u{1b}'));
    assert!(!is_quit_key('q'));
    assert!(!is_quit_key('x'));
}
