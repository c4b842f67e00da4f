use lookpoint::attribute_table::{AttError, NotifyError};
use lookpoint::gatt_server::{
    Connection, ConnectionEvent, ConnectionState, EventReply, GattServer, BATTERY_LEVEL_HANDLE,
    DEVICE_INFORMATION_HANDLE,
};
use lookpoint::services::{HARDWARE_REVISION, MANUFACTURER_NAME, MODEL_NUMBER, SERIAL_NUMBER};

#[test]
fn server_table_holds_the_device_services() {
    let server = GattServer::start("Lookpoint Tracker", "0.1.0").unwrap();
    let table = server.table();
    assert_eq!(table.len(), 21);
    assert_eq!(table.get(1), Some(vec![0x00, 0x18]));
    assert_eq!(table.get(3), Some(b"Lookpoint Tracker".to_vec()));
    assert_eq!(table.get(5), Some(vec![0x95, 0x05]));
    assert_eq!(table.get(6), Some(vec![0x01, 0x18]));
    assert_eq!(table.get(7), Some(vec![0x0a, 0x18]));
    assert_eq!(table.get(8), Some(vec![0x02, 9, 0, 0x29, 0x2a]));
    assert_eq!(table.get(9), Some(MANUFACTURER_NAME.as_bytes().to_vec()));
    assert_eq!(table.get(11), Some(MODEL_NUMBER.as_bytes().to_vec()));
    assert_eq!(table.get(13), Some(SERIAL_NUMBER.as_bytes().to_vec()));
    assert_eq!(table.get(15), Some(HARDWARE_REVISION.as_bytes().to_vec()));
    assert_eq!(table.get(17), Some(b"0.1.0".to_vec()));
    assert_eq!(table.get(18), Some(vec![0x0f, 0x18]));
    assert_eq!(table.get(20), Some(vec![100]));
    assert_eq!(table.get(21), Some(vec![0, 0]));
    assert_eq!(server.device_information.handle, DEVICE_INFORMATION_HANDLE);
    assert_eq!(server.device_information.manufacturer_name, 9);
    assert_eq!(server.device_information.firmware_revision, 17);
    assert_eq!(server.battery.level, BATTERY_LEVEL_HANDLE);
}

#[test]
fn name_longer_than_gap_limit_is_refused() {
    assert!(GattServer::start("0123456789012345678901", "0.1.0").is_ok());
    assert_eq!(
        GattServer::start("01234567890123456789012", "0.1.0").err(),
        Some("Device name is too long. Max length is 22 bytes")
    );
}

#[test]
fn write_applied_before_read_and_nothing_after_disconnect() {
    let mut server = GattServer::start("Lookpoint Tracker", "0.1.0").unwrap();
    let mut connection = Connection::new();
    let r = server.handle_event(&mut connection, ConnectionEvent::Write { handle: 21, value: vec![1, 0] });
    assert!(matches!(r, EventReply::Written));
    let r = server.handle_event(&mut connection, ConnectionEvent::Read { handle: 21 });
    assert!(matches!(r, EventReply::Value(ref v) if *v == vec![1, 0]));
    let r = server.handle_event(&mut connection, ConnectionEvent::Disconnected { reason: 0x13 });
    assert!(matches!(r, EventReply::Closed(0x13)));
    assert_eq!(connection.state, ConnectionState::Terminated(0x13));
    let r = server.handle_event(&mut connection, ConnectionEvent::Write { handle: 21, value: vec![0, 0] });
    assert!(matches!(r, EventReply::Discarded));
    let r = server.handle_event(&mut connection, ConnectionEvent::Read { handle: 21 });
    assert!(matches!(r, EventReply::Discarded));
    assert_eq!(server.table().get(21), Some(vec![1, 0]));
}

#[test]
fn rejected_requests_are_answered_not_fatal() {
    let mut server = GattServer::start("Lookpoint Tracker", "0.1.0").unwrap();
    let mut connection = Connection::new();
    let r = server.handle_event(&mut connection, ConnectionEvent::Read { handle: 99 });
    assert!(matches!(r, EventReply::Rejected(AttError::InvalidHandle)));
    let r = server.handle_event(&mut connection, ConnectionEvent::Write { handle: 9, value: vec![1] });
    assert!(matches!(r, EventReply::Rejected(AttError::WriteNotPermitted)));
    let r = server.handle_event(&mut connection, ConnectionEvent::Other);
    assert!(matches!(r, EventReply::Observed));
    assert!(connection.is_active());
    assert_eq!(server.table().get(9), Some(MANUFACTURER_NAME.as_bytes().to_vec()));
}

#[test]
fn battery_notifications_stop_after_disconnect() {
    let mut server = GattServer::start("Lookpoint Tracker", "0.1.0").unwrap();
    let mut connection = Connection::new();
    assert_eq!(server.notify_battery_level(&connection, 99), Err(NotifyError::NotSubscribed));
    server.handle_event(&mut connection, ConnectionEvent::Write { handle: 21, value: vec![1, 0] });
    assert_eq!(server.notify_battery_level(&connection, 98), Ok(()));
    assert_eq!(server.table().get(BATTERY_LEVEL_HANDLE), Some(vec![98]));
    server.handle_event(&mut connection, ConnectionEvent::Disconnected { reason: 0x08 });
    assert_eq!(server.notify_battery_level(&connection, 97), Err(NotifyError::Disconnected));
}

#[test]
fn reads_answer_the_last_applied_write_over_a_sequence() {
    let mut server = GattServer::start("Lookpoint Tracker", "0.1.0").unwrap();
    let mut connection = Connection::new();
    let events = vec![
        ConnectionEvent::Write { handle: 21, value: vec![1, 0] },
        ConnectionEvent::Other,
        ConnectionEvent::Write { handle: 21, value: vec![0, 0] },
        ConnectionEvent::Write { handle: 21, value: vec![1] },
        ConnectionEvent::Write { handle: 3, value: vec![b'x'] },
    ];
    for event in events {
        server.handle_event(&mut connection, event);
    }
    let r = server.handle_event(&mut connection, ConnectionEvent::Read { handle: 21 });
    assert!(matches!(r, EventReply::Value(ref v) if *v == vec![0, 0]));
    let r = server.handle_event(&mut connection, ConnectionEvent::Read { handle: 3 });
    assert!(matches!(r, EventReply::Value(ref v) if *v == b"Lookpoint Tracker".to_vec()));
}
