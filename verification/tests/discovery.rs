use streamdeck_interface::connectionmanager::{ConnectionManager, DeviceInfo};
use streamdeck_interface::deckmanager::{DeckManager, DEVICE_ERROR};
use streamdeck_interface::hub::Connect;
use streamdeck_interface::info::{
    pid_to_kind, Kind, ELGATO_VID, MINI_PID, MK2_PID, ORIGINAL_PID, ORIGINAL_V2_PID, XL_PID,
};

fn deck(product_id: u16) -> DeviceInfo {
    DeviceInfo { vendor_id: ELGATO_VID, product_id }
}

fn other(vendor_id: u16, product_id: u16) -> DeviceInfo {
    DeviceInfo { vendor_id, product_id }
}

#[test]
fn vendor_and_product_ids() {
    assert_eq!(ELGATO_VID, 0x0fd9);
    assert_eq!(ORIGINAL_PID, 0x0060);
    assert_eq!(ORIGINAL_V2_PID, 0x006d);
    assert_eq!(MINI_PID, 0x0063);
    assert_eq!(XL_PID, 0x006c);
    assert_eq!(MK2_PID, 0x0080);
}

#[test]
fn product_ids_name_their_models() {
    assert_eq!(pid_to_kind(0x0063), Some(Kind::Mini));
    assert_eq!(pid_to_kind(0x0060), Some(Kind::Original));
    assert_eq!(pid_to_kind(0x006d), Some(Kind::OriginalV2));
    assert_eq!(pid_to_kind(0x0080), Some(Kind::Mk2));
    assert_eq!(pid_to_kind(0x006c), Some(Kind::Xl));
    assert_eq!(pid_to_kind(0), None);
    assert_eq!(pid_to_kind(0x0061), None);
    assert_eq!(pid_to_kind(0x0090), None);
    assert_eq!(pid_to_kind(u16::MAX), None);
}

#[test]
fn first_cycle_opens_every_deck() {
    let manager = ConnectionManager::new();
    let attached = vec![other(0x046d, 0x0060), deck(0x0060), other(1, 2), deck(0x0080)];
    assert_eq!(manager.candidates(&attached), vec![0x0060, 0x0080]);
    assert_eq!(manager.candidates(&vec![]), vec![]);
    assert!(!manager.is_known(0x0060));
}

#[test]
fn opened_devices_rest_for_one_cycle() {
    let mut manager = ConnectionManager::new();
    let attached = vec![deck(0x0060), deck(0x0080), deck(0x0063)];
    assert_eq!(manager.candidates(&attached), vec![0x0060, 0x0080, 0x0063]);
    manager.finish_cycle(&vec![0x0060, 0x0063]);
    assert!(manager.is_known(0x0060));
    assert!(manager.is_known(0x0063));
    assert!(!manager.is_known(0x0080));
    assert_eq!(manager.candidates(&attached), vec![0x0080]);
    manager.finish_cycle(&vec![]);
    assert!(!manager.is_known(0x0060));
    assert_eq!(manager.candidates(&attached), vec![0x0060, 0x0080, 0x0063]);
}

#[test]
fn devices_with_one_product_id_are_asked_for_twice() {
    let mut manager = ConnectionManager::new();
    let attached = vec![deck(0x006c), deck(0x006c)];
    assert_eq!(manager.candidates(&attached), vec![0x006c, 0x006c]);
    manager.finish_cycle(&vec![0x006c, 0x006c]);
    assert!(manager.is_known(0x006c));
    assert_eq!(manager.candidates(&attached), vec![]);
}

#[test]
fn registration_names_the_opened_device() {
    assert_eq!(ConnectionManager::registration(0x0080), Connect::new(0x0080));
    assert_eq!(ConnectionManager::registration(0x0080).id(), 0x0080);
}

#[test]
fn tracker_keeps_devices_until_an_error() {
    let mut manager = DeckManager::new();
    assert_eq!(manager.get_connected_devices(), vec![]);
    manager.connected(0x0060);
    manager.connected(0x0080);
    manager.connected(0x0060);
    let mut pids = manager.get_connected_devices();
    pids.sort();
    assert_eq!(pids, vec![0x0060, 0x0080]);
    manager.handle_messages(0);
    manager.handle_messages(1);
    manager.handle_messages(3);
    assert_eq!(manager.get_connected_devices().len(), 2);
    assert_eq!(DEVICE_ERROR, 2);
    manager.handle_messages(2);
    assert_eq!(manager.get_connected_devices(), vec![]);
}

#[test]
fn tracker_finds_the_next_device_to_open() {
    let mut manager = DeckManager::new();
    let attached = vec![other(5, 0x0060), deck(0x0060), deck(0x0060), other(7, 7), deck(0x0080)];
    assert_eq!(manager.handle_connections(&attached, 0), Some(1));
    manager.connected(0x0060);
    assert_eq!(manager.handle_connections(&attached, 2), Some(4));
    manager.connected(0x0080);
    assert_eq!(manager.handle_connections(&attached, 5), None);
    assert_eq!(manager.handle_connections(&attached, 0), None);
    assert_eq!(manager.handle_connections(&attached, 99), None);
    manager.handle_messages(2);
    assert_eq!(manager.handle_connections(&attached, 0), Some(1));
    assert_eq!(manager.handle_connections(&attached, 2), Some(2));
    assert_eq!(manager.handle_connections(&vec![], 0), None);
}
