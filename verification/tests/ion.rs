use eadk::ion::{Event, Key, KeyboardState};

#[test]
fn key_numbers_follow_the_keyboard() {
    assert_eq!(Key::Left.code(), 0);
    assert_eq!(Key::Okay.code(), 4);
    assert_eq!(Key::Home.code(), 6);
    assert_eq!(Key::OnOff.code(), 8);
    assert_eq!(Key::Shift.code(), 12);
    assert_eq!(Key::RParens.code(), 34);
    assert_eq!(Key::Four.code(), 36);
    assert_eq!(Key::One.code(), 42);
    assert_eq!(Key::Zero.code(), 48);
    assert_eq!(Key::Exe.code(), 52);
}

#[test]
fn key_numbers_have_gaps() {
    for missing in [7u8, 9, 10, 11, 35, 41, 47, 53, 63, 64, 255] {
        assert_eq!(Key::from_code(missing), None);
    }
}

#[test]
fn every_key_is_found_by_its_number() {
    let mut found = 0;
    for code in 0..=255u8 {
        if let Some(key) = Key::from_code(code) {
            assert_eq!(key.code(), code);
            found += 1;
        }
    }
    assert_eq!(found, 46);
}

#[test]
fn event_numbers_follow_the_keyboard() {
    assert_eq!(Event::Left.code(), 0);
    assert_eq!(Event::Back.code(), 5);
    assert_eq!(Event::Shift.code(), 12);
    assert_eq!(Event::Exe.code(), 52);
    assert_eq!(Event::ShiftLeft.code(), 54);
    assert_eq!(Event::AlphaLock.code(), 67);
    assert_eq!(Event::Greater.code(), 83);
    assert_eq!(Event::Colon.code(), 122);
    assert_eq!(Event::LowerQ.code(), 142);
    assert_eq!(Event::LowerR.code(), 144);
    assert_eq!(Event::LowerV.code(), 148);
    assert_eq!(Event::LowerW.code(), 150);
    assert_eq!(Event::Space.code(), 154);
    assert_eq!(Event::Question.code(), 156);
    assert_eq!(Event::UpperA.code(), 180);
    assert_eq!(Event::UpperQ.code(), 196);
    assert_eq!(Event::UpperR.code(), 198);
    assert_eq!(Event::UpperZ.code(), 207);
}

#[test]
fn event_numbers_have_gaps() {
    let gaps = [
        6u16, 8, 11, 35, 41, 47, 53, 58, 66, 84, 121, 143, 149, 155, 158, 179, 197, 203, 208, 65535,
    ];
    for missing in gaps {
        assert_eq!(Event::from_code(missing), None);
    }
}

#[test]
fn every_event_is_found_by_its_number() {
    let mut found = 0;
    for code in 0..=1000u16 {
        if let Some(event) = Event::from_code(code) {
            assert_eq!(event.code(), code);
            found += 1;
        }
    }
    assert_eq!(found, 124);
}

#[test]
fn digit_events_are_digits() {
    for event in Event::DIGITS {
        assert!(event.is_digit());
    }
    assert_eq!(Event::DIGITS[0], Event::Zero);
    assert_eq!(Event::DIGITS[9], Event::Nine);
}

#[test]
fn other_events_are_not_digits() {
    let others =
        [Event::Left, Event::Okay, Event::Dot, Event::Ee, Event::Plus, Event::LowerA, Event::UpperZ];
    for event in others {
        assert!(!event.is_digit());
        assert_eq!(event.to_digit(), None);
    }
}

#[test]
fn exactly_ten_events_are_digits() {
    let digits = (0..=1000u16).filter_map(Event::from_code).filter(Event::is_digit).count();
    assert_eq!(digits, 10);
}

#[test]
fn to_digit_gives_the_number_of_the_event() {
    assert_eq!(Event::Zero.to_digit(), Some(48));
    assert_eq!(Event::One.to_digit(), Some(42));
    assert_eq!(Event::Two.to_digit(), Some(43));
    assert_eq!(Event::Three.to_digit(), Some(44));
    assert_eq!(Event::Four.to_digit(), Some(36));
    assert_eq!(Event::Five.to_digit(), Some(37));
    assert_eq!(Event::Six.to_digit(), Some(38));
    assert_eq!(Event::Seven.to_digit(), Some(30));
    assert_eq!(Event::Eight.to_digit(), Some(31));
    assert_eq!(Event::Nine.to_digit(), Some(32));
}

#[test]
fn keyboard_state_keeps_its_bits() {
    let state = KeyboardState::new(0xDEAD_BEEF_0000_0001);
    assert_eq!(*state.inner(), 0xDEAD_BEEF_0000_0001);
}

#[test]
fn key_down_reads_the_bit_of_the_key() {
    let state = KeyboardState::new((1 << 4) | (1 << 52));
    assert!(state.key_down(Key::Okay));
    assert!(state.key_down(Key::Exe));
    assert!(!state.key_down(Key::Left));
    assert!(!state.key_down(Key::Back));
    assert!(!state.key_down(Key::Ans));
}

#[test]
fn no_key_is_down_in_an_empty_state() {
    let state = KeyboardState::new(0);
    for code in 0..64u8 {
        if let Some(key) = Key::from_code(code) {
            assert!(!state.key_down(key));
        }
    }
}

#[test]
fn every_key_is_down_in_a_full_state() {
    let state = KeyboardState::new(u64::MAX);
    for code in 0..64u8 {
        if let Some(key) = Key::from_code(code) {
            assert!(state.key_down(key));
        }
    }
}

#[test]
fn key_down_sees_only_its_own_bit() {
    for code in 0..64u8 {
        if let Some(key) = Key::from_code(code) {
            assert!(KeyboardState::new(1 << code).key_down(key));
            assert!(!KeyboardState::new(!(1 << code)).key_down(key));
        }
    }
}

#[test]
fn keys_order_by_their_numbers() {
    assert!(Key::Left < Key::Up);
    assert!(Key::Home < Key::OnOff);
    assert!(Event::Exe < Event::ShiftLeft);
}
