use lookpoint::advertise::{
    advertise, encode_advertisement, AdvertiseError, Advertiser, LinkAction, LinkEvent, LinkPhase,
    ADVERTISING_FLAGS, MAX_ADVERTISEMENT_LENGTH,
};
use lookpoint::device_name::DeviceName;
use lookpoint::services::DeviceInformation;

#[test]
fn payload_layout_for_device_name() {
    let name = DeviceName::new("Lookpoint Tracker");
    let payload = encode_advertisement(&name, &[0x180a]).unwrap();
    let mut expected = vec![2, 0x01, 0x06, 3, 0x03, 0x0a, 0x18, 18, 0x09];
    expected.extend_from_slice(b"Lookpoint Tracker");
    assert_eq!(payload, expected);
    assert_eq!(payload.len(), 26);
    assert_eq!(ADVERTISING_FLAGS, 0x06);
}

#[test]
fn payload_of_exactly_max_length_is_accepted() {
    // 3 + (2 + 6) + (2 + 18) = 31 bytes.
    let name = DeviceName::new("abcdefghijklmnopqr");
    let payload = encode_advertisement(&name, &[0x180a, 0x180f, 0x1800]).unwrap();
    assert_eq!(payload.len(), MAX_ADVERTISEMENT_LENGTH);
    assert_eq!(&payload[3..11], &[7, 0x03, 0x0a, 0x18, 0x0f, 0x18, 0x00, 0x18]);
}

#[test]
fn oversized_payload_is_refused_and_nothing_is_transmitted() {
    // 3 + (2 + 6) + (2 + 19) = 32 bytes.
    let name = DeviceName::new("abcdefghijklmnopqrs");
    assert_eq!(
        encode_advertisement(&name, &[0x180a, 0x180f, 0x1800]),
        Err(AdvertiseError::PayloadTooLong)
    );
    let mut advertiser = Advertiser::new();
    let r = advertise(&mut advertiser, &name, &[0x180a, 0x180f, 0x1800]);
    assert_eq!(r, Err(AdvertiseError::PayloadTooLong));
    assert_eq!(advertiser.phase(), LinkPhase::Idle);
}

#[test]
fn empty_uuid_list_still_encodes_its_header() {
    let name = DeviceName::new("ab");
    let payload = encode_advertisement(&name, &[]).unwrap();
    assert_eq!(payload, vec![2, 0x01, 0x06, 1, 0x03, 3, 0x09, b'a', b'b']);
}

#[test]
fn second_advertise_while_advertising_is_busy() {
    let name = DeviceName::new("Lookpoint Tracker");
    let mut advertiser = Advertiser::new();
    assert!(advertise(&mut advertiser, &name, &[0x180a]).is_ok());
    assert_eq!(advertiser.phase(), LinkPhase::Advertising);
    assert_eq!(advertise(&mut advertiser, &name, &[0x180a]), Err(AdvertiseError::Busy));
}

#[test]
fn readvertise_exactly_once_per_disconnect() {
    let name = DeviceName::new("Lookpoint Tracker");
    let uuid = DeviceInformation::ble_uuid16();
    let mut advertiser = Advertiser::new();
    let mut advertisements = 0;
    let mut disconnects = 0;
    for _ in 0..5 {
        assert!(advertise(&mut advertiser, &name, &[uuid]).is_ok());
        advertisements += 1;
        // While connected no second cycle may begin.
        assert_eq!(advertiser.on_event(LinkEvent::PeerConnected), LinkAction::Serve);
        assert_eq!(advertise(&mut advertiser, &name, &[uuid]), Err(AdvertiseError::Busy));
        assert_eq!(advertiser.on_event(LinkEvent::PeerConnected), LinkAction::Ignore);
        assert_eq!(advertiser.on_event(LinkEvent::PeerDisconnected), LinkAction::Readvertise);
        disconnects += 1;
        assert_eq!(advertiser.on_event(LinkEvent::PeerDisconnected), LinkAction::Ignore);
        assert_eq!(advertiser.phase(), LinkPhase::Idle);
    }
    assert_eq!(advertisements, 5);
    assert_eq!(disconnects, 5);
}

#[test]
fn failed_advertising_is_retried() {
    let name = DeviceName::new("Lookpoint Tracker");
    let mut advertiser = Advertiser::new();
    assert_eq!(advertiser.on_event(LinkEvent::AdvertiseFailed), LinkAction::Ignore);
    assert!(advertise(&mut advertiser, &name, &[0x180a]).is_ok());
    assert_eq!(advertiser.on_event(LinkEvent::PeerDisconnected), LinkAction::Ignore);
    assert_eq!(advertiser.on_event(LinkEvent::AdvertiseFailed), LinkAction::Readvertise);
    assert_eq!(advertiser.phase(), LinkPhase::Idle);
}
