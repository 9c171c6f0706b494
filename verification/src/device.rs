//! HID devices: which of them are controllers, and how they are attached.

use vstd::prelude::*;

use crate::address;

verus! {

/// The vendor whose controllers are recognised.
pub const SONY_VID: u16 = 0x054C;

/// The first product id of the DualShock 4.
pub const DS4_PID: u16 = 0x05C4;

/// The product id of the second generation of the DualShock 4.
pub const DS4_V2_PID: u16 = 0x09CC;

/// The product id of the DualSense.
pub const DUALSENSE_PID: u16 = 0x0CE6;

/// The length of the input reports of a controller on USB.
pub const USB_INPUT_REPORT_LENGTH: usize = 64;

/// What the host system tells about a HID device.
#[derive(Debug)]
pub struct DeviceInfo {
    /// What the host system identifies the device by.
    pub id: String,
    pub name: String,
    pub manufacturer: Option<String>,
    pub product_id: u16,
    pub vendor_id: u16,
    pub usage_id: u16,
    pub usage_page: u16,
    /// Of a Bluetooth device, its address in hexadecimal.
    pub serial_number: Option<String>,
    /// The length of the longest input report, where the host system tells it.
    pub max_input_report_length: Option<usize>,
}

/// A `DeviceInfo` with its texts as sequences of characters.
pub struct DeviceModel {
    pub id: Seq<char>,
    pub name: Seq<char>,
    pub manufacturer: Option<Seq<char>>,
    pub product_id: u16,
    pub vendor_id: u16,
    pub usage_id: u16,
    pub usage_page: u16,
    pub serial_number: Option<Seq<char>>,
    pub max_input_report_length: Option<usize>,
}

/// The characters of a text that may be missing.
pub open spec fn text_model(text: Option<String>) -> Option<Seq<char>> {
    match text {
        Some(t) => Some(t@),
        None => None,
    }
}

impl View for DeviceInfo {
    type V = DeviceModel;

    open spec fn view(&self) -> DeviceModel {
        DeviceModel {
            id: self.id@,
            name: self.name@,
            manufacturer: text_model(self.manufacturer),
            product_id: self.product_id,
            vendor_id: self.vendor_id,
            usage_id: self.usage_id,
            usage_page: self.usage_page,
            serial_number: text_model(self.serial_number),
            max_input_report_length: self.max_input_report_length,
        }
    }
}

fn same_text(x: &Option<String>, y: &Option<String>) -> (same: bool)
    ensures
        same == (text_model(*x) == text_model(*y)),
{
    match (x, y) {
        (Some(a), Some(b)) => *a == *b,
        (None, None) => true,
        _ => false,
    }
}

impl DeviceInfo {
    /// Whether everything told about the two devices is the same.
    pub fn same(&self, other: &DeviceInfo) -> (same: bool)
        ensures
            same == (self@ == other@),
    {
        self.id == other.id && self.name == other.name && same_text(
            &self.manufacturer,
            &other.manufacturer,
        ) && self.product_id == other.product_id && self.vendor_id == other.vendor_id
            && self.usage_id == other.usage_id && self.usage_page == other.usage_page && same_text(
            &self.serial_number,
            &other.serial_number,
        ) && self.max_input_report_length == other.max_input_report_length
    }
}

/// The controllers that are recognised.
#[derive(Debug, Clone, Copy, PartialEq, Eq, Structural)]
pub enum ControllerType {
    DualShock4,
    DualSense,
}

/// The controller that these ids stand for.
pub open spec fn type_of_ids(vendor_id: u16, product_id: u16) -> Option<ControllerType> {
    if vendor_id != SONY_VID {
        None
    } else if product_id == DUALSENSE_PID {
        Some(ControllerType::DualSense)
    } else if product_id == DS4_PID || product_id == DS4_V2_PID {
        Some(ControllerType::DualShock4)
    } else {
        None
    }
}

/// The controller that the device is, if it is one.
pub fn controller_type(device: &DeviceInfo) -> (kind: Option<ControllerType>)
    ensures
        kind == type_of_ids(device.vendor_id, device.product_id),
{
    if device.vendor_id != SONY_VID {
        return None;
    }
    if device.product_id == DUALSENSE_PID {
        Some(ControllerType::DualSense)
    } else if device.product_id == DS4_PID || device.product_id == DS4_V2_PID {
        Some(ControllerType::DualShock4)
    } else {
        None
    }
}

/// How a controller is attached.
#[derive(Debug, Clone, Copy, PartialEq, Eq, Structural)]
pub enum ConnectionType {
    Usb,
    Bluetooth,
}

/// A device is on Bluetooth if it has a serial number, or if its input reports are
/// known to be of another length than on USB.
pub open spec fn connection_of(device: DeviceModel) -> ConnectionType {
    if device.serial_number is Some || (device.max_input_report_length is Some
        && device.max_input_report_length->0 != USB_INPUT_REPORT_LENGTH) {
        ConnectionType::Bluetooth
    } else {
        ConnectionType::Usb
    }
}

/// What is to be done when a controller is let go.
#[derive(Debug, Clone, Copy, PartialEq, Eq, Structural)]
pub struct Teardown {
    /// Whether the processing of its input is to be cancelled, before anything else.
    pub cancel_input: bool,
    /// The Bluetooth address to disconnect.
    pub disconnect: Option<u64>,
}

/// One thing to be done when a controller is let go.
#[derive(Debug, Clone, Copy, PartialEq, Eq, Structural)]
pub enum TeardownStep {
    /// Cancel the processing of its input.
    CancelInput,
    /// Disconnect this Bluetooth address.
    Disconnect(u64),
}

impl Teardown {
    /// What is to be done, in this order: the input is cancelled before the device is
    /// disconnected.
    pub open spec fn ordered(self) -> Seq<TeardownStep> {
        let first = if self.cancel_input {
            seq![TeardownStep::CancelInput]
        } else {
            Seq::empty()
        };
        let second = match self.disconnect {
            Some(address) => seq![TeardownStep::Disconnect(address)],
            None => Seq::empty(),
        };
        first + second
    }

    /// What is to be done, in the order in which it is to be done.
    pub fn steps(&self) -> (steps: Vec<TeardownStep>)
        ensures
            steps@ == self.ordered(),
    {
        let mut steps: Vec<TeardownStep> = Vec::new();
        if self.cancel_input {
            steps.push(TeardownStep::CancelInput);
        }
        if let Some(address) = self.disconnect {
            steps.push(TeardownStep::Disconnect(address));
        }
        assert(steps@ =~= self.ordered());
        steps
    }
}

/// A controller's device and what is known of its use.
pub struct ControllerDevice {
    pub device: DeviceInfo,
    pub connection: ConnectionType,
    /// Whether its input is being processed.
    pub running: bool,
    /// Whether to disconnect it when it is let go.
    pub disconnect_on_drop: bool,
}

impl ControllerDevice {
    /// The connection is the one that the device shows.
    pub open spec fn wf(self) -> bool {
        self.connection == connection_of(self.device@)
    }

    /// The device as it is taken up: idle, and to be left connected.
    pub open spec fn initial(device: DeviceInfo) -> Self {
        ControllerDevice {
            device,
            connection: connection_of(device@),
            running: false,
            disconnect_on_drop: false,
        }
    }

    /// Takes up a device.
    pub fn new(device: DeviceInfo) -> (taken: Self)
        ensures
            taken == Self::initial(device),
            taken.wf(),
    {
        let other_length: bool = match device.max_input_report_length {
            Some(len) => len != USB_INPUT_REPORT_LENGTH,
            None => false,
        };
        let connection = if device.serial_number.is_some() || other_length {
            ConnectionType::Bluetooth
        } else {
            ConnectionType::Usb
        };
        Self { device, connection, running: false, disconnect_on_drop: false }
    }

    /// Whether the two stand for the same device, whatever is known of their use.
    pub fn same_device(&self, other: &ControllerDevice) -> (same: bool)
        ensures
            same == (self.device@ == other.device@),
    {
        self.device.same(&other.device)
    }

    /// Whether the input of the device is being processed.
    pub fn input_busy(&self) -> (busy: bool)
        ensures
            busy == self.running,
    {
        self.running
    }

    /// Takes note that the processing of input has begun.
    pub fn input_started(&mut self)
        ensures
            *final(self) == (ControllerDevice { running: true, ..*old(self) }),
    {
        self.running = true;
    }

    /// Takes note of how the beginning of the processing of input has ended: if it
    /// has failed, no input is being processed.
    pub fn settle_input(&mut self, started: bool)
        ensures
            *final(self) == (ControllerDevice {
                running: old(self).running && started,
                ..*old(self)
            }),
    {
        if !started {
            self.running = false;
        }
    }

    /// Decides whether to disconnect the device when it is let go.
    pub fn set_disconnect_on_drop(&mut self, disconnect: bool)
        ensures
            *final(self) == (ControllerDevice { disconnect_on_drop: disconnect, ..*old(self) }),
    {
        self.disconnect_on_drop = disconnect;
    }

    /// Whether the address can be told: a device on Bluetooth without a serial
    /// number has one that is not known.
    pub open spec fn address_known(self) -> bool {
        self.device.serial_number is Some || self.connection == ConnectionType::Usb
    }

    /// The Bluetooth address: the serial number, if there is one and it reads as a
    /// hexadecimal number.
    pub open spec fn address(self) -> Option<u64> {
        match self.device.serial_number {
            Some(s) => address::parse_address(s@),
            None => None,
        }
    }

    /// Whether `bluetooth_address` may be called.
    pub fn has_known_address(&self) -> (known: bool)
        ensures
            known == self.address_known(),
    {
        self.device.serial_number.is_some() || self.connection == ConnectionType::Usb
    }

    /// The Bluetooth address of the device, if it has one.
    pub fn bluetooth_address(&self) -> (found: Option<u64>)
        requires
            self.address_known(),
        ensures
            found == self.address(),
    {
        match &self.device.serial_number {
            Some(s) => address::read_address(s.as_str()),
            None => None,
        }
    }

    /// What is to be done when the device is let go.
    pub open spec fn planned_teardown(self) -> Teardown {
        Teardown {
            cancel_input: self.running,
            disconnect: if self.disconnect_on_drop {
                self.address()
            } else {
                None
            },
        }
    }

    /// What is to be done when the device is let go.
    pub fn teardown(&self) -> (plan: Teardown)
        requires
            self.disconnect_on_drop ==> self.address_known(),
        ensures
            plan == self.planned_teardown(),
    {
        let disconnect: Option<u64> = if self.disconnect_on_drop {
            self.bluetooth_address()
        } else {
            None
        };
        Teardown { cancel_input: self.input_busy(), disconnect }
    }
}

/// A device on USB is never disconnected: its address is known to be none.
pub proof fn usb_is_never_disconnected(device: ControllerDevice)
    requires
        device.wf(),
        device.connection == ConnectionType::Usb,
    ensures
        device.address_known(),
        device.address() is None,
        device.planned_teardown().disconnect is None,
{
}

/// A device with a serial number counts as being on Bluetooth, and its address is
/// what the serial number reads as.
pub proof fn serial_number_means_bluetooth(device: DeviceInfo)
    requires
        device.serial_number is Some,
    ensures
        ControllerDevice::initial(device).connection == ConnectionType::Bluetooth,
        ControllerDevice::initial(device).address_known(),
        ControllerDevice::initial(device).address() == address::parse_address(
            device.serial_number->0@,
        ),
{
}

/// How far the beginning of the processing of input has come.
#[derive(Debug, Clone, Copy, PartialEq, Eq, Structural)]
pub enum StartStep {
    /// The first report is to be sent.
    Send,
    /// The device is to be opened, and the reading of its input begun.
    Open,
    /// Input is being processed.
    Started,
    /// Something did not work, and nothing more is to be done.
    Failed,
}

impl StartStep {
    /// The step after what was to be done worked, or did not.
    pub open spec fn after(self, worked: bool) -> StartStep {
        match self {
            StartStep::Send => if worked {
                StartStep::Open
            } else {
                StartStep::Failed
            },
            StartStep::Open => if worked {
                StartStep::Started
            } else {
                StartStep::Failed
            },
            StartStep::Started => StartStep::Started,
            StartStep::Failed => StartStep::Failed,
        }
    }

    /// The step after what was to be done worked, or did not.
    pub fn next(self, worked: bool) -> (step: StartStep)
        ensures
            step == self.after(worked),
    {
        match self {
            StartStep::Send => if worked {
                StartStep::Open
            } else {
                StartStep::Failed
            },
            StartStep::Open => if worked {
                StartStep::Started
            } else {
                StartStep::Failed
            },
            StartStep::Started => StartStep::Started,
            StartStep::Failed => StartStep::Failed,
        }
    }
}

/// The device is opened only after the first report was sent, the processing of input
/// has begun exactly if both have worked, and whatever comes after changes nothing.
pub proof fn input_starts_in_order(sent: bool, opened: bool, later: bool)
    ensures
        StartStep::Send.after(sent) == StartStep::Open <==> sent,
        StartStep::Send.after(sent).after(opened) == StartStep::Started <==> sent && opened,
        StartStep::Send.after(sent).after(opened) == StartStep::Failed <==> !(sent && opened),
        StartStep::Send.after(sent).after(opened).after(later) == StartStep::Send.after(
            sent,
        ).after(opened),
{
}

/// What the loop that reads the input of a device learns.
#[derive(Debug, Clone, Copy, PartialEq, Eq, Structural)]
pub enum InputEvent {
    /// The processing was cancelled.
    Cancelled,
    /// A report of this many bytes has come.
    Report(usize),
    /// Reading failed.
    ReadFailed,
}

/// What the loop that reads the input of a device does next.
#[derive(Debug, Clone, Copy, PartialEq, Eq, Structural)]
pub enum InputAction {
    Read,
    Stop,
}

/// The number of bytes that an input report may have.
pub const INPUT_BUFFER_SIZE: usize = 512;

/// The loop goes on reading until it is cancelled; a failed read does not end it.
pub fn next_input_action(event: InputEvent) -> (action: InputAction)
    ensures
        action == InputAction::Stop <==> event == InputEvent::Cancelled,
        action == InputAction::Read <==> event != InputEvent::Cancelled,
{
    match event {
        InputEvent::Cancelled => InputAction::Stop,
        InputEvent::Report(_) => InputAction::Read,
        InputEvent::ReadFailed => InputAction::Read,
    }
}

/// Two devices count as the same exactly if everything told about them agrees.
pub proof fn sameness_covers_everything(x: DeviceInfo, y: DeviceInfo)
    ensures
        x@ == y@ <==> {
            &&& x.id@ == y.id@
            &&& x.name@ == y.name@
            &&& x.manufacturer is Some == y.manufacturer is Some
            &&& x.manufacturer is Some ==> x.manufacturer->0@ == y.manufacturer->0@
            &&& x.product_id == y.product_id
            &&& x.vendor_id == y.vendor_id
            &&& x.usage_id == y.usage_id
            &&& x.usage_page == y.usage_page
            &&& x.serial_number is Some == y.serial_number is Some
            &&& x.serial_number is Some ==> x.serial_number->0@ == y.serial_number->0@
            &&& x.max_input_report_length == y.max_input_report_length
        },
{
}

/// Sony's vendor id is 054C. With it, 0CE6 is a DualSense, and 05C4 and 09CC are
/// DualShock 4; nothing else is a controller.
pub proof fn controllers_by_id(vendor_id: u16, product_id: u16)
    ensures
        type_of_ids(vendor_id, product_id) == Some(ControllerType::DualSense) <==> vendor_id
            == 0x054C && product_id == 0x0CE6,
        type_of_ids(vendor_id, product_id) == Some(ControllerType::DualShock4) <==> vendor_id
            == 0x054C && (product_id == 0x05C4 || product_id == 0x09CC),
        type_of_ids(vendor_id, product_id) is None <==> vendor_id != 0x054C || (product_id
            != 0x0CE6 && product_id != 0x05C4 && product_id != 0x09CC),
{
}

/// A device that is taken up is on USB exactly if it has no serial number and is not
/// known to have input reports of another length than 64; it is idle, and nothing
/// is to be done when it is let go.
pub proof fn device_as_taken_up(device: DeviceInfo)
    ensures
        ({
            let taken = ControllerDevice::initial(device);
            &&& taken.device == device
            &&& taken.connection == ConnectionType::Usb <==> device.serial_number is None && (
            device.max_input_report_length == None::<usize> || device.max_input_report_length
                == Some(64usize))
            &&& taken.wf()
            &&& !taken.running
            &&& !taken.disconnect_on_drop
            &&& taken.planned_teardown().ordered().len() == 0
        }),
{
}

/// The connection that a device shows depends on its serial number and on the length
/// of its input reports, and a well-formed device has the connection that it shows.
pub proof fn connection_by_device(taken: ControllerDevice)
    ensures
        taken.wf() <==> (taken.connection == ConnectionType::Bluetooth <==> {
            ||| taken.device.serial_number is Some
            ||| taken.device.max_input_report_length is Some
                && taken.device.max_input_report_length->0 != 64
        }),
{
}

/// The address of a device is not known exactly if it is on Bluetooth and has no
/// serial number. Otherwise it is the number that the serial number reads as, and
/// without one there is none.
pub proof fn address_is_the_serial_number(taken: ControllerDevice)
    ensures
        !taken.address_known() <==> taken.connection == ConnectionType::Bluetooth
            && taken.device.serial_number is None,
        taken.device.serial_number is Some ==> taken.address() == address::parse_radix(
            taken.device.serial_number->0@,
            16,
        ),
        taken.device.serial_number is None ==> taken.address() is None,
{
}

/// Letting a device go cancels its input exactly if it is being processed, and
/// disconnects an address exactly if that was asked for and it is the address that the
/// serial number reads as.
pub proof fn letting_go(taken: ControllerDevice, address: u64)
    ensures
        taken.planned_teardown().cancel_input <==> taken.running,
        taken.planned_teardown().disconnect == Some(address) <==> taken.disconnect_on_drop
            && taken.device.serial_number is Some && address::parse_radix(
            taken.device.serial_number->0@,
            16,
        ) == Some(address),
{
}

/// The steps of a plan are those that it asks for and no others, each once: an address
/// is disconnected exactly if it is the one of the plan, the input is cancelled exactly
/// if the plan says so, and that comes first.
pub proof fn steps_are_those_of_the_plan(plan: Teardown, address: u64)
    ensures
        plan.ordered().contains(TeardownStep::Disconnect(address)) <==> plan.disconnect == Some(
            address,
        ),
        plan.ordered().contains(TeardownStep::CancelInput) <==> plan.cancel_input,
        plan.cancel_input ==> plan.ordered()[0] == TeardownStep::CancelInput,
        plan.ordered().no_duplicates(),
        plan.ordered().len() == (if plan.cancel_input {
            1int
        } else {
            0
        }) + (if plan.disconnect is Some {
            1int
        } else {
            0
        }),
{
    let steps = plan.ordered();
    if plan.cancel_input {
        assert(steps[0] == TeardownStep::CancelInput);
    }
    if plan.disconnect is Some {
        assert(steps[steps.len() - 1] == TeardownStep::Disconnect(plan.disconnect->0));
    }
}

/// What is done to a device when it is let go, from what is known of it: its input is
/// cancelled exactly if it is being processed, and `address` is disconnected exactly if
/// that was asked for and the serial number reads as it.
pub proof fn letting_go_step_by_step(taken: ControllerDevice, address: u64)
    ensures
        taken.planned_teardown().ordered().contains(TeardownStep::CancelInput) <==> taken.running,
        taken.planned_teardown().ordered().contains(TeardownStep::Disconnect(address))
            <==> taken.disconnect_on_drop && taken.device.serial_number is Some
            && address::parse_radix(taken.device.serial_number->0@, 16) == Some(address),
{
    letting_go(taken, address);
    steps_are_those_of_the_plan(taken.planned_teardown(), address);
}

/// The buffer for input takes 512 bytes, and so every report that a controller sends on
/// USB.
pub proof fn input_buffer_is_large_enough()
    ensures
        INPUT_BUFFER_SIZE == 512,
        USB_INPUT_REPORT_LENGTH <= INPUT_BUFFER_SIZE,
{
}

} // verus!
