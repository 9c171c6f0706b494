//! Controllers: what to send them, and what becomes of them.

use vstd::prelude::*;

use crate::device::{
    controller_type, ConnectionType, ControllerDevice, ControllerType, DeviceInfo, Teardown,
};
use crate::error::{Error, Result};
use crate::sony_reports::{Ds4BtOutput, Ds4UsbOutput, DualSenseBtOutput, DualSenseUsbOutput};

verus! {

/// Why a controller on USB cannot be switched off.
pub const POWER_OFF_ON_USB: &'static str = "Power off not available for USB connections";

/// Why a controller cannot be disconnected on request.
pub const DISCONNECT_ON_USB: &'static str = "Disconnect not available for USB connections";

/// The number of bytes of a report that switches a controller off.
pub const POWER_OFF_REPORT_SIZE: usize = 78;

/// A report that is zero but for three bytes.
pub open spec fn sparse_report(id: u8, second: u8, at: int, value: u8) -> Seq<u8> {
    Seq::new(POWER_OFF_REPORT_SIZE as nat, |i: int| 0u8).update(0, id).update(1, second).update(
        at,
        value,
    )
}

fn make_sparse_report(id: u8, second: u8, at: usize, value: u8) -> (report: Vec<u8>)
    requires
        at < POWER_OFF_REPORT_SIZE,
    ensures
        report@ == sparse_report(id, second, at as int, value),
{
    let mut report: Vec<u8> = Vec::new();
    while report.len() < POWER_OFF_REPORT_SIZE
        invariant
            report@.len() <= POWER_OFF_REPORT_SIZE,
            forall|i: int| 0 <= i < report@.len() ==> report@[i] == 0,
        decreases POWER_OFF_REPORT_SIZE - report@.len(),
    {
        report.push(0);
    }
    report.set(0, id);
    report.set(1, second);
    report.set(at, value);
    assert(report@ =~= sparse_report(id, second, at as int, value));
    report
}

/// A DualShock 4.
pub struct DS4Controller {
    pub device: ControllerDevice,
}

impl DS4Controller {
    /// Takes up a device.
    pub fn new(device: DeviceInfo) -> (controller: Self)
        ensures
            controller.device == ControllerDevice::initial(device),
    {
        let device = ControllerDevice::new(device);
        Self { device }
    }

    /// What the host system identifies the controller by.
    pub fn id(&self) -> (id: &String)
        ensures
            *id == self.device.device.id,
    {
        &self.device.device.id
    }

    /// Whether the input of the controller is being processed.
    pub fn input_busy(&self) -> (busy: bool)
        ensures
            busy == self.device.running,
    {
        self.device.input_busy()
    }

    /// Decides whether to disconnect the controller when it is let go.
    pub fn set_disconnect_on_drop(&mut self, disconnect: bool)
        ensures
            final(self).device == (ControllerDevice {
                disconnect_on_drop: disconnect,
                ..old(self).device
            }),
    {
        self.device.set_disconnect_on_drop(disconnect);
    }

    /// The bytes of the light bar report: the initial report of the connection,
    /// sealed on Bluetooth. The colour is not part of it.
    pub open spec fn light_bar(connection: ConnectionType, r: u8, g: u8, b: u8) -> Seq<u8> {
        match connection {
            ConnectionType::Usb => Ds4UsbOutput::initial()@,
            ConnectionType::Bluetooth => Ds4BtOutput::initial().sealed()@,
        }
    }

    /// The report to send for a light bar of this colour.
    pub fn led_report(&self, r: u8, g: u8, b: u8) -> (report: Vec<u8>)
        ensures
            report@ == Self::light_bar(self.device.connection, r, g, b),
    {
        match self.device.connection {
            ConnectionType::Usb => {
                let report = Ds4UsbOutput::new();
                report.as_bytes()
            },
            ConnectionType::Bluetooth => {
                let mut report = Ds4BtOutput::new();
                report.add_crc();
                report.as_bytes()
            },
        }
    }

    /// Begins the processing of input and returns what has to be sent first: the
    /// report for a dark light bar. Input that is being processed already is not
    /// processed once more, and nothing changes. `settle_input` is to be told whether
    /// the steps that follow have worked.
    pub fn process_inputs(&mut self) -> (first: Result<Vec<u8>>)
        ensures
            final(self).device == (ControllerDevice { running: true, ..old(self).device }),
            match first {
                Ok(report) => !old(self).device.running && report@ == Self::light_bar(
                    old(self).device.connection,
                    0,
                    0,
                    0,
                ),
                Err(e) => old(self).device.running && e == Error::Busy,
            },
    {
        if self.device.input_busy() {
            return Err(Error::Busy);
        }
        self.device.input_started();
        Ok(self.led_report(0, 0, 0))
    }

    /// Takes note of how the beginning of the processing of input has ended: if it
    /// has failed, no input is being processed.
    pub fn settle_input(&mut self, started: bool)
        ensures
            final(self).device == (ControllerDevice {
                running: old(self).device.running && started,
                ..old(self).device
            }),
    {
        self.device.settle_input(started);
    }

    /// The report that switches the controller off.
    pub fn power_off_report(&self) -> (off: Result<Vec<u8>>)
        ensures
            match off {
                Ok(report) => self.device.connection == ConnectionType::Bluetooth && report@
                    == sparse_report(0x11, 0x80, 3, 0x08),
                Err(e) => self.device.connection == ConnectionType::Usb && e == Error::Unsupported(
                    POWER_OFF_ON_USB,
                ),
            },
    {
        if self.device.connection == ConnectionType::Usb {
            return Err(Error::Unsupported(POWER_OFF_ON_USB));
        }
        Ok(make_sparse_report(0x11, 0x80, 3, 0x08))
    }
}

/// A DualSense.
pub struct DualSenseController {
    pub device: ControllerDevice,
}

impl DualSenseController {
    /// Takes up a device.
    pub fn new(device: DeviceInfo) -> (controller: Self)
        ensures
            controller.device == ControllerDevice::initial(device),
    {
        let device = ControllerDevice::new(device);
        Self { device }
    }

    /// What the host system identifies the controller by.
    pub fn id(&self) -> (id: &String)
        ensures
            *id == self.device.device.id,
    {
        &self.device.device.id
    }

    /// Whether the input of the controller is being processed.
    pub fn input_busy(&self) -> (busy: bool)
        ensures
            busy == self.device.running,
    {
        self.device.input_busy()
    }

    /// Decides whether to disconnect the controller when it is let go.
    pub fn set_disconnect_on_drop(&mut self, disconnect: bool)
        ensures
            final(self).device == (ControllerDevice {
                disconnect_on_drop: disconnect,
                ..old(self).device
            }),
    {
        self.device.set_disconnect_on_drop(disconnect);
    }

    /// The Bluetooth report with this colour, before its checksum is set.
    pub open spec fn coloured(r: u8, g: u8, b: u8) -> DualSenseBtOutput {
        DualSenseBtOutput {
            payload: crate::sony_reports::DualSenseOutputPayload {
                led_red: r,
                led_green: g,
                led_blue: b,
                ..crate::sony_reports::DualSenseOutputPayload::initial()
            },
            ..DualSenseBtOutput::initial()
        }
    }

    /// The bytes of the light bar report: on USB the initial report, of which the
    /// colour is not part; on Bluetooth the initial report with the colour, sealed.
    pub open spec fn light_bar(connection: ConnectionType, r: u8, g: u8, b: u8) -> Seq<u8> {
        match connection {
            ConnectionType::Usb => DualSenseUsbOutput::initial()@,
            ConnectionType::Bluetooth => Self::coloured(r, g, b).sealed()@,
        }
    }

    /// The report to send for a light bar of this colour.
    pub fn led_report(&self, r: u8, g: u8, b: u8) -> (report: Vec<u8>)
        ensures
            report@ == Self::light_bar(self.device.connection, r, g, b),
    {
        match self.device.connection {
            ConnectionType::Usb => {
                let report = DualSenseUsbOutput::new();
                report.as_bytes()
            },
            ConnectionType::Bluetooth => {
                let mut report = DualSenseBtOutput::new();
                report.payload.led_red = r;
                report.payload.led_green = g;
                report.payload.led_blue = b;
                report.add_crc();
                report.as_bytes()
            },
        }
    }

    /// Begins the processing of input and returns what has to be sent first: the
    /// report for a dark light bar. Input that is being processed already is not
    /// processed once more, and nothing changes. `settle_input` is to be told whether
    /// the steps that follow have worked.
    pub fn process_inputs(&mut self) -> (first: Result<Vec<u8>>)
        ensures
            final(self).device == (ControllerDevice { running: true, ..old(self).device }),
            match first {
                Ok(report) => !old(self).device.running && report@ == Self::light_bar(
                    old(self).device.connection,
                    0,
                    0,
                    0,
                ),
                Err(e) => old(self).device.running && e == Error::Busy,
            },
    {
        if self.device.input_busy() {
            return Err(Error::Busy);
        }
        self.device.input_started();
        Ok(self.led_report(0, 0, 0))
    }

    /// Takes note of how the beginning of the processing of input has ended: if it
    /// has failed, no input is being processed.
    pub fn settle_input(&mut self, started: bool)
        ensures
            final(self).device == (ControllerDevice {
                running: old(self).device.running && started,
                ..old(self).device
            }),
    {
        self.device.settle_input(started);
    }

    /// The report that switches the controller off.
    pub fn power_off_report(&self) -> (off: Result<Vec<u8>>)
        ensures
            match off {
                Ok(report) => self.device.connection == ConnectionType::Bluetooth && report@
                    == sparse_report(0x31, 0x02, 10, 0x02),
                Err(e) => self.device.connection == ConnectionType::Usb && e == Error::Unsupported(
                    POWER_OFF_ON_USB,
                ),
            },
    {
        if self.device.connection == ConnectionType::Usb {
            return Err(Error::Unsupported(POWER_OFF_ON_USB));
        }
        Ok(make_sparse_report(0x31, 0x02, 10, 0x02))
    }
}

/// A controller of either type.
pub enum Controller {
    DualShock4(DS4Controller),
    DualSense(DualSenseController),
}

/// The bytes of the report that switches a controller of this type off.
pub open spec fn power_off_bytes(kind: ControllerType) -> Seq<u8> {
    match kind {
        ControllerType::DualShock4 => sparse_report(0x11, 0x80, 3, 0x08),
        ControllerType::DualSense => sparse_report(0x31, 0x02, 10, 0x02),
    }
}

/// The bytes of the light bar report of a controller of this type.
pub open spec fn light_bar_bytes(
    kind: ControllerType,
    connection: ConnectionType,
    r: u8,
    g: u8,
    b: u8,
) -> Seq<u8> {
    match kind {
        ControllerType::DualShock4 => DS4Controller::light_bar(connection, r, g, b),
        ControllerType::DualSense => DualSenseController::light_bar(connection, r, g, b),
    }
}

impl Controller {
    pub open spec fn kind(self) -> ControllerType {
        match self {
            Controller::DualShock4(_) => ControllerType::DualShock4,
            Controller::DualSense(_) => ControllerType::DualSense,
        }
    }

    pub open spec fn device(self) -> ControllerDevice {
        match self {
            Controller::DualShock4(controller) => controller.device,
            Controller::DualSense(controller) => controller.device,
        }
    }

    /// The controller is of the type that its ids show, and so is its connection.
    pub open spec fn wf(self) -> bool {
        &&& crate::device::type_of_ids(
            self.device().device.vendor_id,
            self.device().device.product_id,
        ) == Some(self.kind())
        &&& self.device().wf()
    }

    /// What makes two controllers the same: their type and everything told about
    /// their devices, not what is known of their use.
    pub open spec fn identity(self) -> (ControllerType, crate::device::DeviceModel) {
        (self.kind(), self.device().device@)
    }

    /// The controller that the device is, idle and to be left connected, if it is
    /// one.
    pub open spec fn recognised(device: DeviceInfo) -> Option<Controller> {
        match crate::device::type_of_ids(device.vendor_id, device.product_id) {
            Some(ControllerType::DualShock4) => Some(
                Controller::DualShock4(
                    DS4Controller { device: ControllerDevice::initial(device) },
                ),
            ),
            Some(ControllerType::DualSense) => Some(
                Controller::DualSense(
                    DualSenseController { device: ControllerDevice::initial(device) },
                ),
            ),
            None => None,
        }
    }

    /// The controller with another decision on whether to disconnect it when it is
    /// let go.
    pub open spec fn with_disconnect_on_drop(self, disconnect: bool) -> Controller {
        let device = ControllerDevice { disconnect_on_drop: disconnect, ..self.device() };
        match self {
            Controller::DualShock4(_) => Controller::DualShock4(DS4Controller { device }),
            Controller::DualSense(_) => Controller::DualSense(DualSenseController { device }),
        }
    }

    /// The controller with its input being processed, or not.
    pub open spec fn with_running(self, running: bool) -> Controller {
        let device = ControllerDevice { running, ..self.device() };
        match self {
            Controller::DualShock4(_) => Controller::DualShock4(DS4Controller { device }),
            Controller::DualSense(_) => Controller::DualSense(DualSenseController { device }),
        }
    }

    /// The controller after the beginning of the processing of its input has succeeded
    /// or failed.
    pub open spec fn settled(self, started: bool) -> Controller {
        self.with_running(self.device().running && started)
    }

    /// The controller that the device is, idle and to be left connected, if it is
    /// one.
    pub fn from_device(device: DeviceInfo) -> (found: Option<Controller>)
        ensures
            found == Self::recognised(device),
            found is Some ==> found->0.wf(),
    {
        match controller_type(&device) {
            Some(ControllerType::DualShock4) => Some(
                Controller::DualShock4(DS4Controller::new(device)),
            ),
            Some(ControllerType::DualSense) => Some(
                Controller::DualSense(DualSenseController::new(device)),
            ),
            None => None,
        }
    }

    /// What the host system identifies the controller by.
    pub fn id(&self) -> (id: &String)
        ensures
            *id == self.device().device.id,
    {
        match self {
            Controller::DualShock4(controller) => controller.id(),
            Controller::DualSense(controller) => controller.id(),
        }
    }

    /// Whether the two are the same controller, whatever is known of their use.
    pub fn same(&self, other: &Controller) -> (same: bool)
        ensures
            same == (self.identity() == other.identity()),
    {
        match (self, other) {
            (Controller::DualShock4(x), Controller::DualShock4(y)) => x.device.same_device(
                &y.device,
            ),
            (Controller::DualSense(x), Controller::DualSense(y)) => x.device.same_device(
                &y.device,
            ),
            _ => false,
        }
    }

    /// Decides whether to disconnect the controller when it is let go.
    pub fn set_disconnect_on_drop(&mut self, disconnect: bool)
        ensures
            *final(self) == old(self).with_disconnect_on_drop(disconnect),
    {
        match self {
            Controller::DualShock4(controller) => controller.set_disconnect_on_drop(disconnect),
            Controller::DualSense(controller) => controller.set_disconnect_on_drop(disconnect),
        }
    }

    /// What has to be sent before the input of the controller is read: the report for
    /// a dark light bar, unless its input is being processed already.
    pub open spec fn first_report(self) -> std::result::Result<Seq<u8>, Error> {
        if self.device().running {
            Err(Error::Busy)
        } else {
            Ok(light_bar_bytes(self.kind(), self.device().connection, 0, 0, 0))
        }
    }

    /// Begins the processing of input and returns what has to be sent first. Input
    /// that is being processed already is not processed once more, and nothing
    /// changes. `settle_input` is to be told whether the steps that follow have worked.
    pub fn process_inputs(&mut self) -> (first: Result<Vec<u8>>)
        ensures
            *final(self) == old(self).with_running(true),
            match (first, old(self).first_report()) {
                (Ok(report), Ok(bytes)) => report@ == bytes,
                (Err(e), Err(f)) => e == f,
                _ => false,
            },
    {
        match self {
            Controller::DualShock4(controller) => controller.process_inputs(),
            Controller::DualSense(controller) => controller.process_inputs(),
        }
    }

    /// Takes note of how the beginning of the processing of input has ended: if it
    /// has failed, no input is being processed.
    pub fn settle_input(&mut self, started: bool)
        ensures
            *final(self) == old(self).settled(started),
    {
        match self {
            Controller::DualShock4(controller) => controller.settle_input(started),
            Controller::DualSense(controller) => controller.settle_input(started),
        }
    }

    /// Whether the input of the controller is being processed.
    pub fn input_busy(&self) -> (busy: bool)
        ensures
            busy == self.device().running,
    {
        match self {
            Controller::DualShock4(controller) => controller.input_busy(),
            Controller::DualSense(controller) => controller.input_busy(),
        }
    }

    /// The report to send for a light bar of this colour.
    pub fn led_report(&self, r: u8, g: u8, b: u8) -> (report: Vec<u8>)
        ensures
            report@ == light_bar_bytes(self.kind(), self.device().connection, r, g, b),
    {
        match self {
            Controller::DualShock4(controller) => controller.led_report(r, g, b),
            Controller::DualSense(controller) => controller.led_report(r, g, b),
        }
    }

    /// The report that switches the controller off.
    pub fn power_off_report(&self) -> (off: Result<Vec<u8>>)
        ensures
            match off {
                Ok(report) => self.device().connection == ConnectionType::Bluetooth && report@
                    == power_off_bytes(self.kind()),
                Err(e) => self.device().connection == ConnectionType::Usb && e
                    == Error::Unsupported(POWER_OFF_ON_USB),
            },
    {
        match self {
            Controller::DualShock4(controller) => controller.power_off_report(),
            Controller::DualSense(controller) => controller.power_off_report(),
        }
    }

    /// Disconnecting a controller on request is not available.
    pub fn disconnect(&self) -> (done: Result<()>)
        ensures
            done == Err::<(), Error>(Error::Unsupported(DISCONNECT_ON_USB)),
    {
        Err(Error::Unsupported(DISCONNECT_ON_USB))
    }

    /// Whether `teardown` may be called.
    pub fn can_tear_down(&self) -> (can: bool)
        ensures
            can == (self.device().disconnect_on_drop ==> self.device().address_known()),
    {
        match self {
            Controller::DualShock4(controller) => !controller.device.disconnect_on_drop
                || controller.device.has_known_address(),
            Controller::DualSense(controller) => !controller.device.disconnect_on_drop
                || controller.device.has_known_address(),
        }
    }

    /// What is to be done when the controller is let go.
    pub fn teardown(&self) -> (plan: Teardown)
        requires
            self.device().disconnect_on_drop ==> self.device().address_known(),
        ensures
            plan == self.device().planned_teardown(),
    {
        match self {
            Controller::DualShock4(controller) => controller.device.teardown(),
            Controller::DualSense(controller) => controller.device.teardown(),
        }
    }
}

/// Once the processing of input has begun, it cannot begin a second time, and letting
/// the controller go cancels it. If the beginning succeeds, that stays so; if it fails,
/// the controller is again as it was before. It stays the same one throughout.
pub proof fn input_is_begun_only_once(controller: Controller)
    ensures
        ({
            let begun = controller.with_running(true);
            &&& begun.first_report() == Err::<Seq<u8>, Error>(Error::Busy)
            &&& begun.with_running(true) == begun
            &&& begun.device().planned_teardown().cancel_input
            &&& begun.identity() == controller.identity()
            &&& begun.wf() == controller.wf()
            &&& begun.settled(true) == begun
            &&& begun.settled(false).first_report() is Ok
            &&& !begun.settled(false).device().planned_teardown().cancel_input
            &&& controller.first_report() is Ok ==> begun.settled(false) == controller
        }),
{
}

/// A light bar report has the length that its connection calls for, and on
/// Bluetooth its checksum is valid.
pub proof fn light_bar_report_is_complete(
    kind: ControllerType,
    connection: ConnectionType,
    r: u8,
    g: u8,
    b: u8,
)
    ensures
        light_bar_bytes(kind, connection, r, g, b).len() == (match (connection, kind) {
            (ConnectionType::Bluetooth, _) => 78int,
            (ConnectionType::Usb, ControllerType::DualShock4) => 32int,
            (ConnectionType::Usb, ControllerType::DualSense) => 48int,
        }),
        connection == ConnectionType::Bluetooth ==> crate::sony_reports::has_valid_checksum(
            light_bar_bytes(kind, connection, r, g, b),
        ),
{
    crate::sony_reports::ds4_sealing(Ds4BtOutput::initial());
    crate::sony_reports::dualsense_sealing(DualSenseController::coloured(r, g, b));
}

/// Where the light bar report of a DualSense on Bluetooth carries the colour; two
/// colours therefore never make the same report.
pub proof fn dualsense_report_carries_colour(r: u8, g: u8, b: u8)
    ensures
        ({
            let report = DualSenseController::light_bar(ConnectionType::Bluetooth, r, g, b);
            &&& report[46] == r
            &&& report[47] == g
            &&& report[48] == b
        }),
{
}

/// The light bar reports of all other controllers are the same for all colours.
pub proof fn other_reports_carry_no_colour(
    kind: ControllerType,
    connection: ConnectionType,
    r: u8,
    g: u8,
    b: u8,
)
    requires
        kind != ControllerType::DualSense || connection != ConnectionType::Bluetooth,
    ensures
        light_bar_bytes(kind, connection, r, g, b) == light_bar_bytes(kind, connection, 0, 0, 0),
{
}

/// The last four of 78 bytes, least significant first, are the CRC-32 of a byte A2 and
/// the 74 before them.
pub open spec fn ends_in_checksum(report: Seq<u8>) -> bool {
    &&& report.len() == 78
    &&& report[74] + 256 * report[75] + 65536 * report[76] + 16777216 * report[77]
        == crate::checksum::crc32_register(0xffffffff, seq![0xa2u8] + report.take(74))
        ^ 0xffffffff
}

/// Every byte of the light bar report of a DualSense on Bluetooth: the colour stands at
/// 46 to 48, and apart from the first four bytes and the checksum all others are zero.
pub proof fn dualsense_bluetooth_light_bar(r: u8, g: u8, b: u8)
    ensures
        ({
            let report = light_bar_bytes(
                ControllerType::DualSense,
                ConnectionType::Bluetooth,
                r,
                g,
                b,
            );
            &&& report == DualSenseController::light_bar(ConnectionType::Bluetooth, r, g, b)
            &&& report.len() == 78
            &&& report[0] == 0x31
            &&& report[1] == 0x02
            &&& report[2] == 0x07
            &&& report[3] == 0x1F
            &&& report[46] == r
            &&& report[47] == g
            &&& report[48] == b
            &&& forall|i: int| 4 <= i < 74 && !(46 <= i < 49) ==> report[i] == 0
            &&& ends_in_checksum(report)
        }),
{
    crate::sony_reports::dualsense_sealed_bytes(DualSenseController::coloured(r, g, b));
}

/// The light bar reports of a DualSense on Bluetooth for two colours differ at most
/// where the colour and the checksum stand, and they are the same only if the colours
/// are.
pub proof fn colours_differ_only_in_colour(
    r: u8,
    g: u8,
    b: u8,
    other_r: u8,
    other_g: u8,
    other_b: u8,
)
    ensures
        ({
            let kind = ControllerType::DualSense;
            let x = light_bar_bytes(kind, ConnectionType::Bluetooth, r, g, b);
            let y = light_bar_bytes(kind, ConnectionType::Bluetooth, other_r, other_g, other_b);
            &&& x.len() == y.len()
            &&& forall|i: int|
                0 <= i < 78 && !(46 <= i < 49) && !(74 <= i < 78) ==> #[trigger] x[i] == y[i]
            &&& x == y <==> r == other_r && g == other_g && b == other_b
        }),
{
    dualsense_bluetooth_light_bar(r, g, b);
    dualsense_bluetooth_light_bar(other_r, other_g, other_b);
}

/// Every byte of the light bar reports that carry no colour.
pub proof fn plain_light_bars(r: u8, g: u8, b: u8)
    ensures
        ({
            let usb = ConnectionType::Usb;
            let bluetooth = ConnectionType::Bluetooth;
            let ds4_usb = light_bar_bytes(ControllerType::DualShock4, usb, r, g, b);
            let ds4_bt = light_bar_bytes(ControllerType::DualShock4, bluetooth, r, g, b);
            let dualsense_usb = light_bar_bytes(ControllerType::DualSense, usb, r, g, b);
            &&& ds4_usb == DS4Controller::light_bar(usb, r, g, b)
            &&& ds4_usb.len() == 32
            &&& ds4_usb[0] == 0x05
            &&& ds4_usb[1] == 0x1F
            &&& forall|i: int| 2 <= i < 32 ==> ds4_usb[i] == 0
            &&& ds4_bt == DS4Controller::light_bar(bluetooth, r, g, b)
            &&& ds4_bt.len() == 78
            &&& ds4_bt[0] == 0x11
            &&& ds4_bt[1] == 0x80
            &&& ds4_bt[2] == 0
            &&& ds4_bt[3] == 0x1F
            &&& forall|i: int| 4 <= i < 74 ==> ds4_bt[i] == 0
            &&& ends_in_checksum(ds4_bt)
            &&& dualsense_usb == DualSenseController::light_bar(usb, r, g, b)
            &&& dualsense_usb.len() == 48
            &&& dualsense_usb[0] == 0x02
            &&& dualsense_usb[1] == 0x07
            &&& dualsense_usb[2] == 0x1F
            &&& forall|i: int| 3 <= i < 48 ==> dualsense_usb[i] == 0
        }),
{
    crate::sony_reports::ds4_sealed_bytes(Ds4BtOutput::initial());
}

/// Every byte of a report that is zero but for three.
pub proof fn sparse_report_bytes(id: u8, second: u8, at: int, value: u8, i: int)
    requires
        2 <= at < 78,
        0 <= i < 78,
    ensures
        sparse_report(id, second, at, value).len() == 78,
        sparse_report(id, second, at, value)[0] == id,
        sparse_report(id, second, at, value)[1] == second,
        sparse_report(id, second, at, value)[at] == value,
        i != 0 && i != 1 && i != at ==> sparse_report(id, second, at, value)[i] == 0,
{
}

/// Every byte of the reports that switch a controller off. They have no checksum.
pub proof fn power_off_reports()
    ensures
        ({
            let ds4 = power_off_bytes(ControllerType::DualShock4);
            let dualsense = power_off_bytes(ControllerType::DualSense);
            &&& ds4.len() == 78
            &&& ds4[0] == 0x11
            &&& ds4[1] == 0x80
            &&& ds4[3] == 0x08
            &&& forall|i: int| 2 <= i < 78 && i != 3 ==> ds4[i] == 0
            &&& dualsense.len() == 78
            &&& dualsense[0] == 0x31
            &&& dualsense[1] == 0x02
            &&& dualsense[10] == 0x02
            &&& forall|i: int| 2 <= i < 78 && i != 10 ==> dualsense[i] == 0
        }),
{
}

/// What a controller is made of: its type and its device.
pub proof fn parts_of_a_controller(ds4: DS4Controller, dualsense: DualSenseController)
    ensures
        Controller::DualShock4(ds4).kind() == ControllerType::DualShock4,
        Controller::DualShock4(ds4).device() == ds4.device,
        Controller::DualSense(dualsense).kind() == ControllerType::DualSense,
        Controller::DualSense(dualsense).device() == dualsense.device,
{
}

/// Two controllers are the same exactly if they are of the same type and everything told
/// about their devices agrees; what is known of their use plays no part.
pub proof fn same_controller(x: Controller, y: Controller)
    ensures
        x.identity() == y.identity() <==> {
            let a = x.device().device;
            let b = y.device().device;
            &&& x is DualSense == y is DualSense
            &&& a.id@ == b.id@
            &&& a.name@ == b.name@
            &&& a.manufacturer is Some == b.manufacturer is Some
            &&& a.manufacturer is Some ==> a.manufacturer->0@ == b.manufacturer->0@
            &&& a.product_id == b.product_id
            &&& a.vendor_id == b.vendor_id
            &&& a.usage_id == b.usage_id
            &&& a.usage_page == b.usage_page
            &&& a.serial_number is Some == b.serial_number is Some
            &&& a.serial_number is Some ==> a.serial_number->0@ == b.serial_number->0@
            &&& a.max_input_report_length == b.max_input_report_length
        },
{
    crate::device::sameness_covers_everything(x.device().device, y.device().device);
}

/// A device is recognised exactly by its ids, whatever else is told about it. The
/// controller has that device, idle and to be left connected, and is on USB exactly if
/// the device has no serial number and no input reports of another length than 64.
pub proof fn recognised_by_ids(device: DeviceInfo)
    ensures
        ({
            let found = Controller::recognised(device);
            &&& found is Some <==> device.vendor_id == 0x054C && (device.product_id == 0x0CE6
                || device.product_id == 0x05C4 || device.product_id == 0x09CC)
            &&& found is Some ==> {
                let taken = found->0.device();
                &&& found->0 is DualSense <==> device.product_id == 0x0CE6
                &&& taken.device == device
                &&& taken.connection == ConnectionType::Usb <==> device.serial_number is None && (
                device.max_input_report_length is None || device.max_input_report_length->0 == 64)
                &&& !taken.running
                &&& !taken.disconnect_on_drop
                &&& found->0.wf()
            }
        }),
{
}

/// A controller is well-formed exactly if its type is the one of its ids and its
/// connection the one that its device shows.
pub proof fn well_formed_controller(controller: Controller)
    ensures
        controller.wf() <==> {
            let taken = controller.device();
            &&& taken.device.vendor_id == 0x054C
            &&& controller is DualSense ==> taken.device.product_id == 0x0CE6
            &&& controller is DualShock4 ==> taken.device.product_id == 0x05C4
                || taken.device.product_id == 0x09CC
            &&& taken.connection == ConnectionType::Usb <==> taken.device.serial_number is None && (
            taken.device.max_input_report_length is None
                || taken.device.max_input_report_length->0 == 64)
        },
{
}

/// Marking a controller, beginning its input and settling it each change the one thing
/// that they are about, and nothing else.
pub proof fn one_thing_changes(controller: Controller, value: bool)
    ensures
        ({
            let was = controller.device();
            let marked = controller.with_disconnect_on_drop(value);
            &&& marked is DualSense == controller is DualSense
            &&& marked.device().device == was.device
            &&& marked.device().connection == was.connection
            &&& marked.device().running == was.running
            &&& marked.device().disconnect_on_drop == value
            &&& marked.identity() == controller.identity()
        }),
        ({
            let was = controller.device();
            let begun = controller.with_running(value);
            &&& begun is DualSense == controller is DualSense
            &&& begun.device().device == was.device
            &&& begun.device().connection == was.connection
            &&& begun.device().running == value
            &&& begun.device().disconnect_on_drop == was.disconnect_on_drop
            &&& begun.identity() == controller.identity()
        }),
        ({
            let was = controller.device();
            let settled = controller.settled(value);
            &&& settled is DualSense == controller is DualSense
            &&& settled.device().device == was.device
            &&& settled.device().connection == was.connection
            &&& settled.device().running == (was.running && value)
            &&& settled.device().disconnect_on_drop == was.disconnect_on_drop
            &&& settled.identity() == controller.identity()
        }),
{
}

/// Input can begin exactly if it is not being processed, whatever else is known of the
/// controller. What is sent first is then the report of its type and connection for a
/// dark light bar: all zero but for the bytes that name the report, the flags and, on
/// Bluetooth, the checksum.
pub proof fn input_begins_in_the_dark(controller: Controller)
    ensures
        ({
            let first = controller.first_report();
            let on_usb = controller.device().connection == ConnectionType::Usb;
            let dualsense = controller is DualSense;
            &&& first is Err <==> controller.device().running
            &&& first matches Err(e) ==> e == Error::Busy
            &&& first matches Ok(report) ==> {
                let size = if !on_usb {
                    78int
                } else if dualsense {
                    48
                } else {
                    32
                };
                let flags = if dualsense {
                    seq![0x07u8, 0x1Fu8]
                } else {
                    seq![0x1Fu8, 0u8]
                };
                let head = if dualsense && on_usb {
                    seq![0x02u8]
                } else if dualsense {
                    seq![0x31u8, 0x02u8]
                } else if on_usb {
                    seq![0x05u8]
                } else {
                    seq![0x11u8, 0x80u8, 0u8]
                };
                let n = head.len() + 2;
                &&& report.len() == size
                &&& report.take(n as int) == head + flags
                &&& forall|i: int|
                    n <= i < size && (on_usb || i < 74) ==> #[trigger] report[i] == 0
                &&& !on_usb ==> ends_in_checksum(report)
            }
        }),
{
    if controller.first_report() is Ok {
        dualsense_bluetooth_light_bar(0, 0, 0);
        plain_light_bars(0, 0, 0);
    }
}

} // verus!
