use rhubarb::keys::{egui_key_to_key, evdev_keycode_to_char, evdev_keycode_to_egui_key, Key, KeyName};
use rhubarb::cursor::{frame, nearest_images, ImageInfo};

fn img(size: u32, side: u32, delay: u32) -> ImageInfo {
    ImageInfo { size, width: side, height: side, delay }
}

#[test]
fn cursor_frames_follow_the_animation() {
    let images = [img(24, 24, 50), img(24, 24, 50), img(32, 32, 100)];
    assert_eq!(nearest_images(24, &images), vec![0, 1]);
    assert_eq!(nearest_images(30, &images), vec![2]);
    assert_eq!(frame(0, 24, &images), 0);
    assert_eq!(frame(50, 24, &images), 0);
    assert_eq!(frame(60, 24, &images), 1);
    assert_eq!(frame(100, 24, &images), 0);
    assert_eq!(frame(160, 24, &images), 1);
    assert_eq!(frame(12345, 30, &images), 2);
}

#[test]
fn cursor_with_no_delay_shows_its_first_image() {
    let images = [img(48, 48, 0), img(48, 48, 0)];
    assert_eq!(frame(999, 24, &images), 0);
}

#[test]
fn keys_type_characters() {
    assert_eq!(evdev_keycode_to_char(30, false), Some('a'));
    assert_eq!(evdev_keycode_to_char(30, true), Some('A'));
    assert_eq!(evdev_keycode_to_char(11, false), Some('0'));
    assert_eq!(evdev_keycode_to_char(11, true), Some(')'));
    assert_eq!(evdev_keycode_to_char(40, true), Some('"'));
    assert_eq!(evdev_keycode_to_char(43, false), Some('\\'));
    assert_eq!(evdev_keycode_to_char(57, true), Some(' '));
    assert_eq!(evdev_keycode_to_char(1, false), None);
}

#[test]
fn key_names_and_key_presses() {
    assert_eq!(evdev_keycode_to_egui_key(30), Some(KeyName::A));
    assert_eq!(evdev_keycode_to_egui_key(11), Some(KeyName::Num0));
    assert_eq!(evdev_keycode_to_egui_key(105), Some(KeyName::ArrowLeft));
    assert_eq!(evdev_keycode_to_egui_key(1), Some(KeyName::Escape));
    assert_eq!(evdev_keycode_to_egui_key(53), Some(KeyName::Slash));
    assert_eq!(evdev_keycode_to_egui_key(59), None);
    assert_eq!(egui_key_to_key(KeyName::A, false), Some(Key::Char('a')));
    assert_eq!(egui_key_to_key(KeyName::A, true), Some(Key::Char('A')));
    assert_eq!(egui_key_to_key(KeyName::Num2, true), Some(Key::Char('@')));
    assert_eq!(egui_key_to_key(KeyName::Num2, false), Some(Key::Char('2')));
    assert_eq!(egui_key_to_key(KeyName::Minus, true), Some(Key::Char('_')));
    assert_eq!(egui_key_to_key(KeyName::Enter, true), Some(Key::Enter));
    assert_eq!(egui_key_to_key(KeyName::PageDown, false), Some(Key::PageDown));
    assert_eq!(egui_key_to_key(KeyName::Escape, false), None);
    assert_eq!(egui_key_to_key(KeyName::Other, true), None);
}
