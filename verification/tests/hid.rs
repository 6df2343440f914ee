use xhc_core::error::DeviceReason;
use xhc_core::error::PciError;
use xhc_core::hid::InputReport;
use xhc_core::hid::KeyboardDriver;
use xhc_core::hid::KeyboardReport;
use xhc_core::hid::KeyboardSubscribable;
use xhc_core::hid::MouseDriver;
use xhc_core::hid::MouseReport;
use xhc_core::hid::MouseSubscribable;
use xhc_core::hid::Subscribed;

#[test]
fn mouse_report_is_decoded_with_signed_movement() {
    let mut mouse = MouseDriver::new();
    assert_eq!(
        mouse.on_data_received(&[0x01, 5, 0xfd, 0]),
        Some(MouseReport { buttons: 1, dx: 5, dy: -3, wheel: 0, previous_buttons: 0 })
    );
    assert_eq!(mouse.buttons, 1);
    assert_eq!(
        mouse.on_data_received(&[0x00, 0x80, 0x7f, 0xff]),
        Some(MouseReport { buttons: 0, dx: -128, dy: 127, wheel: -1, previous_buttons: 1 })
    );
    assert_eq!(mouse.buttons, 0);
}

#[test]
fn mouse_report_of_three_bytes_has_no_wheel() {
    let mut mouse = MouseDriver::new();
    assert_eq!(
        mouse.on_data_received(&[0x02, 0xff, 1]),
        Some(MouseReport { buttons: 2, dx: -1, dy: 1, wheel: 0, previous_buttons: 0 })
    );
}

#[test]
fn too_few_bytes_are_no_mouse_report() {
    let mut mouse = MouseDriver { buttons: 4 };
    assert_eq!(mouse.on_data_received(&[]), None);
    assert_eq!(mouse.on_data_received(&[1, 2]), None);
    assert_eq!(mouse.buttons, 4);
}

#[test]
fn bytes_behind_the_mouse_report_are_ignored() {
    let mut mouse = MouseDriver::new();
    assert_eq!(
        mouse.on_data_received(&[1, 2, 3, 4, 5, 6, 7, 8]),
        Some(MouseReport { buttons: 1, dx: 2, dy: 3, wheel: 4, previous_buttons: 0 })
    );
}

#[test]
fn keyboard_report_is_decoded_with_its_six_keys() {
    let mut keyboard = KeyboardDriver::new();
    assert_eq!(
        keyboard.on_data_received(&[0x02, 0, 4, 5, 0, 0, 0, 0]),
        Some(KeyboardReport { modifiers: 2, keycodes: [4, 5, 0, 0, 0, 0], previous_modifiers: 0 })
    );
    assert_eq!(keyboard.modifiers, 2);
    assert_eq!(
        keyboard.on_data_received(&[0, 0xee, 1, 2, 3, 4, 5, 6]),
        Some(KeyboardReport { modifiers: 0, keycodes: [1, 2, 3, 4, 5, 6], previous_modifiers: 2 })
    );
}

#[test]
fn too_few_bytes_are_no_keyboard_report() {
    let mut keyboard = KeyboardDriver { modifiers: 1 };
    assert_eq!(keyboard.on_data_received(&[0, 0, 4, 5, 0, 0, 0]), None);
    assert_eq!(keyboard.modifiers, 1);
}

struct Seen(Vec<MouseReport>);

impl MouseSubscribable for Seen {
    fn subscribe(&mut self, report: MouseReport) {
        self.0.push(report);
    }
}

struct Keys(Vec<KeyboardReport>);

impl KeyboardSubscribable for Keys {
    fn subscribe(&mut self, report: KeyboardReport) {
        self.0.push(report);
    }
}

#[test]
fn each_subscriber_is_called_once_for_each_report_of_its_device_in_their_order() {
    let first = MouseReport { buttons: 1, dx: 5, dy: -3, wheel: 0, previous_buttons: 0 };
    let second = MouseReport { buttons: 0, dx: -1, dy: 2, wheel: 1, previous_buttons: 1 };
    let keys = KeyboardReport { modifiers: 2, keycodes: [4, 0, 0, 0, 0, 0], previous_modifiers: 0 };
    let outcomes = vec![
        Ok(None),
        Ok(Some(InputReport::Mouse(first))),
        Err(PciError::FailedOperateDevice(DeviceReason::UnexpectedTransfer)),
        Ok(Some(InputReport::Keyboard(keys))),
        Ok(Some(InputReport::Mouse(second))),
    ];
    let mut subscribed = Subscribed::new(Seen(Vec::new()), Keys(Vec::new()));
    subscribed.hand_all(&Vec::new());
    assert!(subscribed.mouse().0.is_empty());
    assert!(subscribed.keyboard().0.is_empty());
    subscribed.hand_all(&outcomes);
    assert_eq!(subscribed.mouse().0, vec![first, second]);
    assert_eq!(subscribed.keyboard().0, vec![keys]);
    subscribed.hand(first);
    subscribed.hand_keys(keys);
    assert_eq!(subscribed.mouse().0, vec![first, second, first]);
    assert_eq!(subscribed.keyboard().0, vec![keys, keys]);
}
