use vstd::prelude::*;

use crate::descriptor::EndpointDescriptor;
use crate::descriptor::InterfaceDescriptor;
use crate::error::PciResult;

verus! {

/// The interface of a mouse or a keyboard together with the endpoint it
/// sends its reports on.
#[derive(Debug, Clone, Copy, PartialEq, Eq, Structural)]
pub struct HidDeviceDescriptors {
    interface: InterfaceDescriptor,
    endpoint: EndpointDescriptor,
}

impl HidDeviceDescriptors {
    pub closed spec fn spec_interface(&self) -> InterfaceDescriptor {
        self.interface
    }

    pub closed spec fn spec_endpoint(&self) -> EndpointDescriptor {
        self.endpoint
    }

    /// The pair of `interface` and `endpoint`.
    pub closed spec fn spec_new(interface: InterfaceDescriptor, endpoint: EndpointDescriptor)
        -> HidDeviceDescriptors {
        HidDeviceDescriptors { interface, endpoint }
    }

    #[verifier::when_used_as_spec(spec_new)]
    pub fn new(interface: InterfaceDescriptor, endpoint: EndpointDescriptor) -> (descriptors: Self)
        ensures
            descriptors == Self::spec_new(interface, endpoint),
            descriptors.interface() == interface,
            descriptors.endpoint() == endpoint,
    {
        Self { interface, endpoint }
    }

    #[verifier::when_used_as_spec(spec_interface)]
    pub fn interface(&self) -> (interface: InterfaceDescriptor)
        ensures
            interface == self.spec_interface(),
    {
        self.interface
    }

    #[verifier::when_used_as_spec(spec_endpoint)]
    pub fn endpoint(&self) -> (endpoint: EndpointDescriptor)
        ensures
            endpoint == self.spec_endpoint(),
    {
        self.endpoint
    }
}

/// The pair made of `interface` and `endpoint` holds just these.
pub proof fn lemma_hid_device_descriptors(interface: InterfaceDescriptor, endpoint: EndpointDescriptor)
    ensures
        HidDeviceDescriptors::new(interface, endpoint).interface() == interface,
        HidDeviceDescriptors::new(interface, endpoint).endpoint() == endpoint,
{
}

/// The number a byte stands for when it is read as a signed number in
/// two's complement.
pub open spec fn signed(byte: u8) -> int {
    if byte < 128 {
        byte as int
    } else {
        byte - 256
    }
}

/// What a mouse reports in the boot protocol.
#[derive(Debug, Clone, Copy, PartialEq, Eq, Structural)]
pub struct MouseReport {
    /// One bit for each button that is held down.
    pub buttons: u8,
    /// The movement to the right since the report before.
    pub dx: i8,
    /// The movement downwards since the report before.
    pub dy: i8,
    /// The movement of the wheel; zero where the mouse does not report it.
    pub wheel: i8,
    /// The buttons that were held down at the report before.
    pub previous_buttons: u8,
}

/// What a keyboard reports in the boot protocol.
#[derive(Debug, Clone, Copy, PartialEq, Eq)]
pub struct KeyboardReport {
    /// One bit for each modifier key that is held down.
    pub modifiers: u8,
    /// The usage codes of up to six keys that are held down; zero for none.
    pub keycodes: [u8; 6],
    /// The modifier keys that were held down at the report before.
    pub previous_modifiers: u8,
}

/// A report of an input device, decoded.
#[derive(Debug, Clone, Copy, PartialEq, Eq)]
pub enum InputReport {
    Mouse(MouseReport),
    Keyboard(KeyboardReport),
}

fn to_signed(byte: u8) -> (value: i8)
    ensures
        value == signed(byte),
{
    if byte < 128 {
        byte as i8
    } else {
        ((byte - 128) as i8) - 127 - 1
    }
}

/// The report in the bytes `data` of a mouse whose buttons were
/// `previous_buttons` before: the buttons, then the movement to the right
/// and downwards as signed bytes, then, if there is a fourth byte, the
/// wheel. Fewer than three bytes are no report.
pub open spec fn mouse_report_of(data: Seq<u8>, previous_buttons: u8) -> Option<MouseReport> {
    if data.len() < 3 {
        None
    } else {
        Some(
            MouseReport {
                buttons: data[0],
                dx: signed(data[1]) as i8,
                dy: signed(data[2]) as i8,
                wheel: if data.len() >= 4 {
                    signed(data[3]) as i8
                } else {
                    0
                },
                previous_buttons,
            },
        )
    }
}

/// The report in the bytes `data` of a keyboard whose modifiers were
/// `previous_modifiers` before: the modifiers, a byte that is not used, and
/// six key codes. Fewer than eight bytes are no report.
pub open spec fn keyboard_report_of(data: Seq<u8>, previous_modifiers: u8) -> Option<
    KeyboardReport,
> {
    if data.len() < 8 {
        None
    } else {
        Some(
            KeyboardReport {
                modifiers: data[0],
                keycodes: [data[2], data[3], data[4], data[5], data[6], data[7]],
                previous_modifiers,
            },
        )
    }
}

/// The driver of a boot protocol mouse. It decodes reports and remembers
/// the buttons of the last one.
#[derive(Debug, Clone, Copy, PartialEq, Eq, Structural)]
pub struct MouseDriver {
    pub buttons: u8,
}

impl MouseDriver {
    /// A driver for a mouse none of whose buttons was seen held down.
    pub fn new() -> (driver: Self)
        ensures
            driver.buttons == 0,
    {
        Self { buttons: 0 }
    }

    /// Decodes the report in `data`, if it is one, and remembers its buttons.
    pub fn on_data_received(&mut self, data: &[u8]) -> (report: Option<MouseReport>)
        ensures
            report == mouse_report_of(data@, old(self).buttons),
            final(self).buttons == match report {
                Some(r) => r.buttons,
                None => old(self).buttons,
            },
    {
        if data.len() < 3 {
            return None;
        }
        let report = MouseReport {
            buttons: data[0],
            dx: to_signed(data[1]),
            dy: to_signed(data[2]),
            wheel: if data.len() >= 4 {
                to_signed(data[3])
            } else {
                0
            },
            previous_buttons: self.buttons,
        };
        self.buttons = report.buttons;
        Some(report)
    }
}

/// The driver of a boot protocol keyboard. It decodes reports and
/// remembers the modifiers of the last one.
#[derive(Debug, Clone, Copy, PartialEq, Eq, Structural)]
pub struct KeyboardDriver {
    pub modifiers: u8,
}

impl KeyboardDriver {
    /// A driver for a keyboard none of whose modifiers was seen held down.
    pub fn new() -> (driver: Self)
        ensures
            driver.modifiers == 0,
    {
        Self { modifiers: 0 }
    }

    /// Decodes the report in `data`, if it is one, and remembers its
    /// modifiers.
    pub fn on_data_received(&mut self, data: &[u8]) -> (report: Option<KeyboardReport>)
        ensures
            report == keyboard_report_of(data@, old(self).modifiers),
            final(self).modifiers == match report {
                Some(r) => r.modifiers,
                None => old(self).modifiers,
            },
    {
        if data.len() < 8 {
            return None;
        }
        let report = KeyboardReport {
            modifiers: data[0],
            keycodes: [data[2], data[3], data[4], data[5], data[6], data[7]],
            previous_modifiers: self.modifiers,
        };
        self.modifiers = report.modifiers;
        Some(report)
    }
}

/// What takes the reports of the mouse.
pub trait MouseSubscribable {
    /// Is called once for each report, in the order of the reports.
    fn subscribe(&mut self, report: MouseReport);
}

/// What takes the reports of the keyboard.
pub trait KeyboardSubscribable {
    /// Is called once for each report, in the order of the reports.
    fn subscribe(&mut self, report: KeyboardReport);
}

/// The reports of the mouse among the outcomes `outcomes` of handling
/// events, in their order: an event that failed, that gave no report or
/// that gave the report of a keyboard adds none.
pub open spec fn mouse_reports(outcomes: Seq<PciResult<Option<InputReport>>>) -> Seq<MouseReport>
    decreases outcomes.len(),
{
    if outcomes.len() == 0 {
        Seq::empty()
    } else {
        let before = mouse_reports(outcomes.drop_last());
        match outcomes.last() {
            Ok(Some(InputReport::Mouse(report))) => before.push(report),
            _ => before,
        }
    }
}

/// The reports of the keyboard among the outcomes `outcomes` of handling
/// events, in their order: an event that failed, that gave no report or
/// that gave the report of a mouse adds none.
pub open spec fn keyboard_reports(outcomes: Seq<PciResult<Option<InputReport>>>) -> Seq<
    KeyboardReport,
>
    decreases outcomes.len(),
{
    if outcomes.len() == 0 {
        Seq::empty()
    } else {
        let before = keyboard_reports(outcomes.drop_last());
        match outcomes.last() {
            Ok(Some(InputReport::Keyboard(report))) => before.push(report),
            _ => before,
        }
    }
}

/// An event that gave a report makes one call of the subscriber of its
/// device, with that report, and none of the other subscriber; any other
/// event makes no call.
pub proof fn lemma_one_report_one_call(outcome: PciResult<Option<InputReport>>)
    ensures
        mouse_reports(seq![outcome]) == match outcome {
            Ok(Some(InputReport::Mouse(report))) => seq![report],
            _ => Seq::<MouseReport>::empty(),
        },
        keyboard_reports(seq![outcome]) == match outcome {
            Ok(Some(InputReport::Keyboard(report))) => seq![report],
            _ => Seq::<KeyboardReport>::empty(),
        },
{
    let outcomes = seq![outcome];
    assert(outcomes.drop_last() =~= Seq::<PciResult<Option<InputReport>>>::empty());
    assert(mouse_reports(outcomes.drop_last()) =~= Seq::<MouseReport>::empty());
    assert(keyboard_reports(outcomes.drop_last()) =~= Seq::<KeyboardReport>::empty());
    assert(outcomes.last() == outcome);
    match outcome {
        Ok(Some(InputReport::Mouse(report))) => {
            assert(Seq::<MouseReport>::empty().push(report) =~= seq![report]);
        },
        Ok(Some(InputReport::Keyboard(report))) => {
            assert(Seq::<KeyboardReport>::empty().push(report) =~= seq![report]);
        },
        _ => {},
    }
}

/// The subscribers of the mouse and of the keyboard, together with the
/// record of the reports handed to each.
pub struct Subscribed<M, K> {
    mouse: M,
    keyboard: K,
    handed: Ghost<Seq<MouseReport>>,
    keys_handed: Ghost<Seq<KeyboardReport>>,
}

impl<M: MouseSubscribable, K: KeyboardSubscribable> Subscribed<M, K> {
    /// The reports handed to the subscriber of the mouse so far, oldest
    /// first: one entry for each call of [`MouseSubscribable::subscribe`].
    pub closed spec fn handed(&self) -> Seq<MouseReport> {
        self.handed@
    }

    /// The reports handed to the subscriber of the keyboard so far, oldest
    /// first: one entry for each call of
    /// [`KeyboardSubscribable::subscribe`].
    pub closed spec fn keys_handed(&self) -> Seq<KeyboardReport> {
        self.keys_handed@
    }

    /// The two subscribers, to which nothing has been handed yet.
    pub fn new(mouse: M, keyboard: K) -> (subscribed: Self)
        ensures
            subscribed.handed() == Seq::<MouseReport>::empty(),
            subscribed.keys_handed() == Seq::<KeyboardReport>::empty(),
            subscribed.mouse_subscriber() == mouse,
            subscribed.keyboard_subscriber() == keyboard,
    {
        Subscribed { mouse, keyboard, handed: Ghost(Seq::empty()), keys_handed: Ghost(Seq::empty()) }
    }

    /// The subscriber of the mouse.
    pub closed spec fn mouse_subscriber(&self) -> M {
        self.mouse
    }

    /// The subscriber of the keyboard.
    pub closed spec fn keyboard_subscriber(&self) -> K {
        self.keyboard
    }

    /// The subscriber of the mouse.
    pub fn mouse(&self) -> (mouse: &M)
        ensures
            *mouse == self.mouse_subscriber(),
    {
        &self.mouse
    }

    /// The subscriber of the keyboard.
    pub fn keyboard(&self) -> (keyboard: &K)
        ensures
            *keyboard == self.keyboard_subscriber(),
    {
        &self.keyboard
    }

    /// Hands `report` to the subscriber of the mouse, by one call.
    pub fn hand(&mut self, report: MouseReport)
        ensures
            final(self).handed() == old(self).handed().push(report),
            final(self).keys_handed() == old(self).keys_handed(),
    {
        self.mouse.subscribe(report);
        proof {
            self.handed@ = self.handed@.push(report);
        }
    }

    /// Hands `report` to the subscriber of the keyboard, by one call.
    pub fn hand_keys(&mut self, report: KeyboardReport)
        ensures
            final(self).keys_handed() == old(self).keys_handed().push(report),
            final(self).handed() == old(self).handed(),
    {
        self.keyboard.subscribe(report);
        proof {
            self.keys_handed@ = self.keys_handed@.push(report);
        }
    }

    /// Hands the reports among `outcomes` to the subscribers: each report
    /// once, to the subscriber of its device, in the order of the reports,
    /// and nothing else.
    pub fn hand_all(&mut self, outcomes: &Vec<PciResult<Option<InputReport>>>)
        ensures
            final(self).handed() == old(self).handed() + mouse_reports(outcomes@),
            final(self).keys_handed() == old(self).keys_handed() + keyboard_reports(outcomes@),
    {
        let mut i: usize = 0;
        while i < outcomes.len()
            invariant
                i <= outcomes@.len(),
                self.handed() == old(self).handed() + mouse_reports(outcomes@.take(i as int)),
                self.keys_handed() == old(self).keys_handed() + keyboard_reports(
                    outcomes@.take(i as int),
                ),
            decreases outcomes@.len() - i,
        {
            proof {
                assert(outcomes@.take(i + 1).drop_last() =~= outcomes@.take(i as int));
                assert(outcomes@.take(i + 1).last() == outcomes@[i as int]);
            }
            match &outcomes[i] {
                Ok(Some(InputReport::Mouse(report))) => {
                    self.hand(*report);
                    assert(self.handed() =~= old(self).handed() + mouse_reports(
                        outcomes@.take(i + 1),
                    ));
                },
                Ok(Some(InputReport::Keyboard(report))) => {
                    self.hand_keys(*report);
                    assert(self.keys_handed() =~= old(self).keys_handed() + keyboard_reports(
                        outcomes@.take(i + 1),
                    ));
                },
                _ => {},
            }
            i = i + 1;
        }
        proof {
            assert(outcomes@.take(outcomes@.len() as int) =~= outcomes@);
        }
    }
}

} // verus!
