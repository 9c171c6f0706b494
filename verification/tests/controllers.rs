use padlink::address::read_address;
use padlink::controller::{Controller, DS4Controller, DualSenseController};
use padlink::device::{
    controller_type, next_input_action, ConnectionType, ControllerDevice, ControllerType,
    DeviceInfo, InputAction, InputEvent, StartStep, Teardown, TeardownStep,
};
use padlink::error::Error;
use padlink::hex_dump::hex_dump;
use padlink::sony_reports::{Ds4UsbOutput, DualSenseUsbOutput};

fn device(
    vendor_id: u16,
    product_id: u16,
    serial: Option<&str>,
    length: Option<usize>,
) -> DeviceInfo {
    DeviceInfo {
        id: "pad".to_string(),
        name: "Wireless Controller".to_string(),
        manufacturer: Some("Sony".to_string()),
        product_id,
        vendor_id,
        usage_id: 5,
        usage_page: 1,
        serial_number: serial.map(|s| s.to_string()),
        max_input_report_length: length,
    }
}

fn dualsense(serial: Option<&str>) -> Controller {
    Controller::from_device(device(0x054c, 0x0ce6, serial, None)).unwrap()
}

fn ds4(serial: Option<&str>) -> Controller {
    Controller::from_device(device(0x054c, 0x05c4, serial, None)).unwrap()
}

#[test]
fn controllers_are_recognised_by_their_ids() {
    let kind = |vid, pid| controller_type(&device(vid, pid, None, None));
    assert_eq!(kind(0x054c, 0x0ce6), Some(ControllerType::DualSense));
    assert_eq!(kind(0x054c, 0x05c4), Some(ControllerType::DualShock4));
    assert_eq!(kind(0x054c, 0x09cc), Some(ControllerType::DualShock4));
    assert_eq!(kind(0x054c, 0x0df2), None);
    assert_eq!(kind(0x054d, 0x0ce6), None);
    assert_eq!(kind(0, 0), None);
}

#[test]
fn only_controllers_are_taken_up() {
    assert!(matches!(dualsense(None), Controller::DualSense(_)));
    assert!(matches!(ds4(None), Controller::DualShock4(_)));
    assert!(Controller::from_device(device(0x046d, 0xc216, None, None)).is_none());
}

#[test]
fn connection_shows_in_serial_number_and_report_length() {
    let connection = |serial, length| {
        ControllerDevice::new(device(0x054c, 0x0ce6, serial, length)).connection
    };
    assert_eq!(connection(None, None), ConnectionType::Usb);
    assert_eq!(connection(None, Some(64)), ConnectionType::Usb);
    assert_eq!(connection(None, Some(78)), ConnectionType::Bluetooth);
    assert_eq!(connection(None, Some(0)), ConnectionType::Bluetooth);
    assert_eq!(connection(Some("a0ab51"), None), ConnectionType::Bluetooth);
    assert_eq!(connection(Some(""), Some(64)), ConnectionType::Bluetooth);
}

#[test]
fn addresses_are_hexadecimal() {
    assert_eq!(read_address("a0ab51c0ffee"), Some(0xa0ab51c0ffee));
    assert_eq!(read_address("A0AB51C0FFEE"), Some(0xa0ab51c0ffee));
    assert_eq!(read_address("+1f"), Some(0x1f));
    assert_eq!(read_address("0000000000000000000f"), Some(15));
    assert_eq!(read_address("ffffffffffffffff"), Some(u64::MAX));
    assert_eq!(read_address("10000000000000000"), None);
    assert_eq!(read_address(""), None);
    assert_eq!(read_address("+"), None);
    assert_eq!(read_address("-1"), None);
    assert_eq!(read_address("++1"), None);
    assert_eq!(read_address("a0:ab:51"), None);
    assert_eq!(read_address(" 1f"), None);
    assert_eq!(read_address("1f "), None);
    assert_eq!(read_address("1_f"), None);
    assert_eq!(read_address("fg"), None);
}

#[test]
fn address_of_a_device() {
    let address = |serial| {
        ControllerDevice::new(device(0x054c, 0x0ce6, serial, None)).bluetooth_address()
    };
    assert_eq!(address(Some("a0ab51c0ffee")), Some(0xa0ab51c0ffee));
    assert_eq!(address(Some("not an address")), None);
    assert_eq!(address(None), None);
    assert!(ControllerDevice::new(device(0x054c, 0x0ce6, None, None)).has_known_address());
    assert!(!ControllerDevice::new(device(0x054c, 0x0ce6, None, Some(78))).has_known_address());
}

#[test]
fn devices_are_compared_in_full() {
    let one = device(0x054c, 0x0ce6, Some("1f"), None);
    assert!(one.same(&device(0x054c, 0x0ce6, Some("1f"), None)));
    assert!(!one.same(&device(0x054c, 0x0ce6, Some("2f"), None)));
    assert!(!one.same(&device(0x054c, 0x0ce6, None, None)));
    assert!(!one.same(&device(0x054c, 0x05c4, Some("1f"), None)));
    let mut renamed = device(0x054c, 0x0ce6, Some("1f"), None);
    renamed.manufacturer = None;
    assert!(!one.same(&renamed));
    let mut controller = dualsense(Some("1f"));
    controller.set_disconnect_on_drop(true);
    assert!(controller.same(&dualsense(Some("1f"))));
    assert!(!controller.same(&ds4(Some("1f"))));
}

#[test]
fn ds4_light_bar_reports() {
    let usb = ds4(None).led_report(1, 2, 3);
    assert_eq!(usb, Ds4UsbOutput::new().as_bytes());
    let bt = ds4(Some("1f")).led_report(1, 2, 3);
    assert_eq!(bt.len(), 78);
    assert_eq!(&bt[..4], &[0x11, 0x80, 0, 0x1f]);
    assert!(bt[4..74].iter().all(|b| *b == 0));
    assert_eq!(&bt[74..], &[0xd4, 0xd5, 0x24, 0xd3]);
    assert_eq!(bt, ds4(Some("1f")).led_report(255, 0, 0));
}

#[test]
fn dualsense_light_bar_reports() {
    let usb = dualsense(None).led_report(1, 2, 3);
    assert_eq!(usb, DualSenseUsbOutput::new().as_bytes());
    let bt = dualsense(Some("1f")).led_report(1, 2, 3);
    assert_eq!(bt.len(), 78);
    assert_eq!(&bt[..4], &[0x31, 0x02, 0x07, 0x1f]);
    assert!(bt[4..46].iter().all(|b| *b == 0));
    assert_eq!(&bt[46..49], &[1, 2, 3]);
    assert!(bt[49..74].iter().all(|b| *b == 0));
    assert_eq!(&bt[74..], &[0x7b, 0x1b, 0x7d, 0xe7]);
    let red = dualsense(Some("1f")).led_report(255, 0, 0);
    assert_eq!(&red[74..], &[0x17, 0x9d, 0x40, 0x5a]);
}

#[test]
fn power_off_reports() {
    let mut expected = vec![0u8; 78];
    expected[0] = 0x11;
    expected[1] = 0x80;
    expected[3] = 0x08;
    assert_eq!(ds4(Some("1f")).power_off_report().unwrap(), expected);
    let mut expected = vec![0u8; 78];
    expected[0] = 0x31;
    expected[1] = 0x02;
    expected[10] = 0x02;
    assert_eq!(dualsense(Some("1f")).power_off_report().unwrap(), expected);
}

#[test]
fn controllers_on_usb_cannot_be_switched_off() {
    for controller in [ds4(None), dualsense(None)] {
        match controller.power_off_report() {
            Err(Error::Unsupported(why)) => {
                assert_eq!(why, "Power off not available for USB connections")
            }
            other => panic!("{other:?}"),
        }
    }
}

#[test]
fn no_controller_can_be_disconnected_on_request() {
    for controller in [ds4(None), dualsense(Some("1f"))] {
        match controller.disconnect() {
            Err(Error::Unsupported(why)) => {
                assert_eq!(why, "Disconnect not available for USB connections")
            }
            other => panic!("{other:?}"),
        }
    }
}

#[test]
fn processing_of_input_begins_with_a_dark_light_bar() {
    for mut controller in [ds4(None), ds4(Some("1f")), dualsense(None), dualsense(Some("1f"))] {
        assert_eq!(controller.process_inputs().unwrap(), controller.led_report(0, 0, 0));
    }
    let bt = dualsense(Some("1f")).process_inputs().unwrap();
    assert_eq!(&bt[74..], &[0x1c, 0x3d, 0x87, 0xc9]);
}

#[test]
fn input_is_not_processed_twice() {
    for mut controller in [ds4(None), ds4(Some("1f")), dualsense(None), dualsense(Some("1f"))] {
        assert!(!controller.input_busy());
        assert!(controller.process_inputs().is_ok());
        assert!(controller.input_busy());
        assert!(matches!(controller.process_inputs(), Err(Error::Busy)));
        assert!(matches!(controller.process_inputs(), Err(Error::Busy)));
        assert!(controller.teardown().cancel_input);
    }
    let mut controller = DS4Controller::new(device(0x054c, 0x05c4, None, None));
    assert!(controller.process_inputs().is_ok());
    assert!(controller.input_busy());
    assert!(matches!(controller.process_inputs(), Err(Error::Busy)));
    let mut controller = DualSenseController::new(device(0x054c, 0x0ce6, None, None));
    assert!(controller.process_inputs().is_ok());
    assert!(controller.input_busy());
    assert!(matches!(controller.process_inputs(), Err(Error::Busy)));
}

#[test]
fn input_that_could_not_begin_can_be_tried_again() {
    for mut controller in [ds4(None), dualsense(Some("1f"))] {
        let first = controller.process_inputs().unwrap();
        controller.settle_input(false);
        assert!(!controller.input_busy());
        assert!(!controller.teardown().cancel_input);
        assert_eq!(controller.process_inputs().unwrap(), first);
        controller.settle_input(true);
        assert!(matches!(controller.process_inputs(), Err(Error::Busy)));
    }
    let mut idle = ds4(None);
    idle.settle_input(true);
    assert!(!idle.input_busy());
}

#[test]
fn input_starts_step_by_step() {
    assert_eq!(StartStep::Send.next(true), StartStep::Open);
    assert_eq!(StartStep::Send.next(false), StartStep::Failed);
    assert_eq!(StartStep::Open.next(true), StartStep::Started);
    assert_eq!(StartStep::Open.next(false), StartStep::Failed);
    for worked in [true, false] {
        assert_eq!(StartStep::Started.next(worked), StartStep::Started);
        assert_eq!(StartStep::Failed.next(worked), StartStep::Failed);
    }
}

#[test]
fn input_is_cancelled_before_the_device_is_disconnected() {
    let steps = |cancel_input, disconnect| Teardown { cancel_input, disconnect }.steps();
    assert_eq!(steps(false, None), vec![]);
    assert_eq!(steps(true, None), vec![TeardownStep::CancelInput]);
    assert_eq!(steps(false, Some(7)), vec![TeardownStep::Disconnect(7)]);
    assert_eq!(
        steps(true, Some(7)),
        vec![TeardownStep::CancelInput, TeardownStep::Disconnect(7)]
    );
}

#[test]
fn letting_a_controller_go() {
    let mut controller = dualsense(Some("a0ab51c0ffee"));
    assert_eq!(controller.teardown(), Teardown { cancel_input: false, disconnect: None });
    controller.set_disconnect_on_drop(true);
    assert_eq!(
        controller.teardown(),
        Teardown { cancel_input: false, disconnect: Some(0xa0ab51c0ffee) }
    );
    assert!(controller.process_inputs().is_ok());
    assert_eq!(
        controller.teardown(),
        Teardown { cancel_input: true, disconnect: Some(0xa0ab51c0ffee) }
    );
    controller.set_disconnect_on_drop(false);
    assert_eq!(controller.teardown(), Teardown { cancel_input: true, disconnect: None });
}

#[test]
fn a_controller_is_disconnected_when_let_go_if_asked_to() {
    let marked = |serial, length| {
        let mut controller =
            Controller::from_device(device(0x054c, 0x09cc, serial, length)).unwrap();
        controller.set_disconnect_on_drop(true);
        controller
    };
    assert_eq!(marked(Some("1f"), None).teardown().disconnect, Some(0x1f));
    let usb = marked(None, Some(64));
    assert!(usb.can_tear_down());
    assert_eq!(usb.teardown().disconnect, None);
    assert!(!marked(None, Some(78)).can_tear_down());
    assert_eq!(usb.id(), "pad");
}

#[test]
fn input_is_read_until_cancelled() {
    assert_eq!(next_input_action(InputEvent::Report(64)), InputAction::Read);
    assert_eq!(next_input_action(InputEvent::ReadFailed), InputAction::Read);
    assert_eq!(next_input_action(InputEvent::Cancelled), InputAction::Stop);
}

#[test]
fn bytes_as_text() {
    assert_eq!(hex_dump(&[]), "");
    assert_eq!(hex_dump(&[0x00, 0x0f, 0xa5, 0xff]), "00 0F A5 FF ");
    let row: Vec<u8> = (0..17).collect();
    assert_eq!(hex_dump(&row), "00 01 02 03 04 05 06 07 08 09 0A 0B 0C 0D 0E 0F \n10 ");
    assert_eq!(hex_dump(&row[..16]), "00 01 02 03 04 05 06 07 08 09 0A 0B 0C 0D 0E 0F \n");
    for byte in 0..=255u8 {
        assert_eq!(hex_dump(&[byte]), format!("{byte:02X} "));
    }
}
