use padlink::controller::Controller;
use padlink::device::DeviceInfo;
use padlink::error::Error;
use padlink::radio::{Disconnect, RadioAction};
use padlink::registry::{Entry, Registry};

fn device(id: &str, serial: &str, product_id: u16) -> DeviceInfo {
    DeviceInfo {
        id: id.to_string(),
        name: String::new(),
        manufacturer: None,
        product_id,
        vendor_id: 0x054c,
        usage_id: 5,
        usage_page: 1,
        serial_number: Some(serial.to_string()),
        max_input_report_length: None,
    }
}

fn entry(id: &str, serial: &str, handle: u32) -> Entry<u32> {
    let device = device(id, serial, 0x0ce6);
    Entry { controller: Controller::from_device(device).unwrap(), handle }
}

fn handles(entries: &[Entry<u32>]) -> Vec<u32> {
    entries.iter().map(|e| e.handle).collect()
}

#[test]
fn a_controller_is_counted_once() {
    let mut registry = Registry::new();
    assert_eq!(registry.len(), 0);
    assert!(registry.insert(entry("a", "1", 1)).is_none());
    assert!(registry.insert(entry("b", "2", 2)).is_none());
    let rejected = registry.insert(entry("a", "1", 3)).unwrap();
    assert_eq!(rejected.handle, 3);
    assert_eq!(registry.len(), 2);
    assert_eq!(handles(&registry.entries), vec![1, 2]);
    assert!(registry.contains(&entry("b", "2", 9).controller));
    assert!(!registry.contains(&entry("b", "3", 9).controller));
}

#[test]
fn controllers_are_added_in_order_and_only_if_new() {
    let mut registry = Registry::new();
    registry.insert(entry("a", "1", 1));
    registry.insert(entry("b", "2", 2));
    let mut new = Registry::new();
    new.insert(entry("c", "3", 3));
    new.insert(entry("b", "2", 4));
    new.insert(entry("d", "4", 5));
    let rejected = registry.extend(new);
    assert_eq!(handles(&rejected), vec![4]);
    assert_eq!(handles(&registry.entries), vec![1, 2, 3, 5]);
    let mut again = Registry::new();
    again.insert(entry("d", "4", 6));
    again.insert(entry("c", "3", 7));
    assert_eq!(handles(&registry.extend(again)), vec![6, 7]);
    assert_eq!(registry.len(), 4);
}

#[test]
fn a_disconnected_id_takes_all_its_controllers_along() {
    let mut registry = Registry::new();
    registry.insert(entry("a", "1", 1));
    registry.insert(entry("b", "2", 2));
    registry.insert(entry("a", "3", 3));
    registry.insert(entry("c", "4", 4));
    assert_eq!(handles(&registry.remove(&"x".to_string())), Vec::<u32>::new());
    assert_eq!(handles(&registry.remove(&"a".to_string())), vec![1, 3]);
    assert_eq!(handles(&registry.entries), vec![2, 4]);
    assert_eq!(handles(&registry.remove(&"c".to_string())), vec![4]);
    assert_eq!(handles(&registry.remove(&"b".to_string())), vec![2]);
    assert_eq!(registry.len(), 0);
}

#[test]
fn controllers_are_gathered_from_all_devices() {
    let devices = vec![
        (device("a", "1f", 0x0ce6), 1u32),
        (device("b", "2f", 0x1234), 2),
        (device("c", "3f", 0x05c4), 3),
        (device("a", "1f", 0x0ce6), 4),
        (device("a", "4f", 0x0ce6), 5),
    ];
    let (registry, rejected) = Registry::gather(devices, true);
    assert_eq!(handles(&registry.entries), vec![1, 3, 5]);
    assert_eq!(handles(&rejected), vec![4]);
    assert!(matches!(registry.entries[0].controller, Controller::DualSense(_)));
    assert!(matches!(registry.entries[1].controller, Controller::DualShock4(_)));
    let disconnects =
        |entries: &[Entry<u32>]| -> Vec<Option<u64>> {
            entries.iter().map(|e| e.controller.teardown().disconnect).collect()
        };
    assert_eq!(disconnects(&registry.entries), vec![Some(0x1f), Some(0x3f), Some(0x4f)]);
    assert_eq!(disconnects(&rejected), vec![Some(0x1f)]);
    let (registry, rejected) = Registry::gather(vec![(device("a", "1f", 0x0ce6), 1u32)], false);
    assert_eq!(disconnects(&registry.entries), vec![None]);
    assert!(rejected.is_empty());
}

#[test]
fn input_of_a_connected_device_is_not_begun_again() {
    let mut registry = Registry::new();
    let mut first = entry("a", "1", 1);
    assert!(registry.begin_input(&mut first.controller).is_ok());
    assert!(matches!(registry.begin_input(&mut first.controller), Err(Error::Busy)));
    registry.insert(first);
    let mut same = entry("a", "1", 2);
    assert!(matches!(registry.begin_input(&mut same.controller), Err(Error::Busy)));
    assert!(!same.controller.input_busy());
    let mut other = entry("b", "2", 3);
    let report = registry.begin_input(&mut other.controller).unwrap();
    assert_eq!(report, other.controller.led_report(0, 0, 0));
    assert!(other.controller.input_busy());
    registry.entries[0].controller.settle_input(false);
    assert!(registry.begin_input(&mut same.controller).is_ok());
}

#[test]
fn all_controllers_are_marked() {
    let mut registry = Registry::new();
    registry.insert(entry("a", "1f", 1));
    registry.insert(entry("b", "2f", 2));
    registry.set_disconnect_on_drop(true);
    let targets: Vec<Option<u64>> =
        registry.entries.iter().map(|e| e.controller.teardown().disconnect).collect();
    assert_eq!(targets, vec![Some(0x1f), Some(0x2f)]);
    assert_eq!(handles(&registry.entries), vec![1, 2]);
    registry.set_disconnect_on_drop(false);
    assert!(registry.entries.iter().all(|e| e.controller.teardown().disconnect.is_none()));
}

/// Runs a search on a host with these radios, each of which disconnects the device
/// or not, and returns what was done.
fn search(radios: &[bool]) -> Vec<RadioAction> {
    let mut search = Disconnect::new(0x1f);
    let mut next = 0;
    let mut done = Vec::new();
    loop {
        let action = search.action();
        done.push(action);
        let worked = match action {
            RadioAction::FindFirstRadio | RadioAction::FindNextRadio => {
                next += 1;
                next <= radios.len()
            }
            RadioAction::Control { code, address } => {
                assert_eq!(code, 0x41000c);
                assert_eq!(address, 0x1f);
                radios[next - 1]
            }
            RadioAction::CloseRadio | RadioAction::CloseSearch => false,
            RadioAction::Finish { .. } | RadioAction::Fail => return done,
        };
        search.advance(worked);
    }
}

const ASK: RadioAction = RadioAction::Control { code: 0x41000c, address: 0x1f };

#[test]
fn a_host_without_radio() {
    assert_eq!(search(&[]), vec![RadioAction::FindFirstRadio, RadioAction::Fail]);
}

#[test]
fn the_first_radio_disconnects() {
    assert_eq!(
        search(&[true, true]),
        vec![
            RadioAction::FindFirstRadio,
            ASK,
            RadioAction::CloseRadio,
            RadioAction::CloseSearch,
            RadioAction::Finish { disconnected: true },
        ]
    );
}

#[test]
fn the_second_radio_disconnects() {
    assert_eq!(
        search(&[false, true]),
        vec![
            RadioAction::FindFirstRadio,
            ASK,
            RadioAction::CloseRadio,
            RadioAction::FindNextRadio,
            ASK,
            RadioAction::CloseRadio,
            RadioAction::CloseSearch,
            RadioAction::Finish { disconnected: true },
        ]
    );
}

#[test]
fn no_radio_disconnects() {
    let done = search(&[false, false, false]);
    assert_eq!(done.iter().filter(|a| **a == ASK).count(), 3);
    assert_eq!(done.iter().filter(|a| **a == RadioAction::CloseRadio).count(), 3);
    assert_eq!(done.iter().filter(|a| **a == RadioAction::CloseSearch).count(), 1);
    assert_eq!(done.last(), Some(&RadioAction::Finish { disconnected: false }));
}

#[test]
fn a_finished_search_stays_finished() {
    let mut search = Disconnect::new(7);
    search.advance(true);
    search.advance(true);
    search.advance(true);
    search.advance(true);
    let over = search;
    assert_eq!(over.action(), RadioAction::Finish { disconnected: true });
    search.advance(false);
    assert_eq!(search, over);
}
