use chip8::{apply_key_event, map_key};

#[test]
fn map_key_follows_the_keypad_layout() {
    let layout = [
        ('1', 0x1),
        ('2', 0x2),
        ('3', 0x3),
        ('4', 0xC),
        ('q', 0x4),
        ('w', 0x5),
        ('e', 0x6),
        ('r', 0xD),
        ('a', 0x7),
        ('s', 0x8),
        ('d', 0x9),
        ('f', 0xE),
        ('z', 0xA),
        ('x', 0x0),
        ('c', 0xB),
        ('v', 0xF),
    ];
    for &(c, k) in layout.iter() {
        assert_eq!(map_key(c as i32), Some(k), "key {}", c);
    }
}

#[test]
fn map_key_ignores_other_keys() {
    for &c in ['0', '5', 'b', 'Q', ' ', 'y'].iter() {
        assert_eq!(map_key(c as i32), None, "key {:?}", c);
    }
    assert_eq!(map_key(-1), None);
    assert_eq!(map_key(0x4000_0050), None);
}

#[test]
fn key_events_press_and_release() {
    let mut keys = [false; 16];
    apply_key_event(&mut keys, 'w' as i32, true);
    assert!(keys[5]);
    apply_key_event(&mut keys, 'v' as i32, true);
    assert!(keys[0xF]);
    apply_key_event(&mut keys, 'w' as i32, false);
    assert!(!keys[5]);
    assert!(keys[0xF]);
    let before = keys;
    apply_key_event(&mut keys, 'p' as i32, true);
    assert_eq!(keys, before);
}
