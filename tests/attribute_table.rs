use lookpoint::attribute_table::{
    AttError, AttributeKind, AttributeTable, CharacteristicAccess, CharacteristicDecl,
    NotifyError, ServiceDecl, TableError,
};
use lookpoint::services::{BatteryService, DeviceInformation};

fn read_only(uuid: u16, value: &[u8]) -> CharacteristicDecl {
    CharacteristicDecl { uuid, access: CharacteristicAccess::ReadOnly, value: value.to_vec() }
}

fn service(uuid: u16, characteristics: Vec<CharacteristicDecl>) -> ServiceDecl {
    ServiceDecl { uuid, characteristics }
}

#[test]
fn read_only_shapes_need_one_per_service_and_two_per_characteristic() {
    let shapes: Vec<(Vec<usize>, usize)> =
        vec![(vec![0], 1), (vec![1], 3), (vec![5], 11), (vec![3, 0], 8), (vec![2, 4, 1], 17)];
    for (counts, expected) in shapes {
        let services: Vec<ServiceDecl> = counts
            .iter()
            .enumerate()
            .map(|(i, &n)| {
                service(0x1800 + i as u16, (0..n).map(|k| read_only(0x2a00 + k as u16, b"x")).collect())
            })
            .collect();
        let table = AttributeTable::build(&services, 64).unwrap();
        assert_eq!(table.len(), expected);
        assert_eq!(table.len(), counts.len() + 2 * counts.iter().sum::<usize>());
    }
}

#[test]
fn device_information_needs_its_attribute_count() {
    let services = vec![DeviceInformation::declaration("1.0.0")];
    let table = AttributeTable::build(&services, 64).unwrap();
    assert_eq!(table.len(), DeviceInformation::ATTRIBUTE_COUNT);
    assert_eq!(DeviceInformation::ATTRIBUTE_COUNT, 11);
    assert_eq!(DeviceInformation::CCCD_COUNT, 0);
}

#[test]
fn notify_characteristic_adds_a_descriptor() {
    let services = vec![BatteryService::declaration(50)];
    let table = AttributeTable::build(&services, 64).unwrap();
    assert_eq!(table.len(), 4);
    assert_eq!(table.get(4), Some(vec![0, 0]));
}

#[test]
fn table_layout_and_handles() {
    let services = vec![service(0x180a, vec![read_only(0x2a29, b"ACME")])];
    let table = AttributeTable::build(&services, 8).unwrap();
    // Service declaration, characteristic declaration, value.
    assert_eq!(table.get(1), Some(vec![0x0a, 0x18]));
    assert_eq!(table.get(2), Some(vec![0x02, 3, 0, 0x29, 0x2a]));
    assert_eq!(table.get(3), Some(b"ACME".to_vec()));
    assert_eq!(table.get(0), None);
    assert_eq!(table.get(4), None);
    assert_eq!(table.capacity(), 8);
}

#[test]
fn declaration_larger_than_capacity_is_refused() {
    let services = vec![service(0x180a, vec![read_only(0x2a29, b"a"), read_only(0x2a24, b"b")])];
    assert!(AttributeTable::build(&services, 5).is_ok());
    assert_eq!(AttributeTable::build(&services, 4).err(), Some(TableError::CapacityExceeded));
}

#[test]
fn add_service_that_does_not_fit_changes_nothing() {
    let mut table = AttributeTable::new(4);
    let first = table.add_service(&service(0x1800, vec![read_only(0x2a00, b"n")])).unwrap();
    assert_eq!(first.service, 1);
    assert_eq!(first.characteristics, vec![3]);
    let second = table.add_service(&service(0x1801, vec![read_only(0x2a01, b"a")]));
    assert_eq!(second.err(), Some(TableError::CapacityExceeded));
    assert_eq!(table.len(), 3);
    assert!(table.add_service(&service(0x1801, vec![])).is_ok());
    assert_eq!(table.len(), 4);
}

#[test]
fn set_then_get_returns_the_value() {
    let services = vec![BatteryService::declaration(100)];
    let mut table = AttributeTable::build(&services, 8).unwrap();
    assert_eq!(table.get(3), Some(vec![100]));
    assert_eq!(table.set(3, vec![42]), Ok(()));
    assert_eq!(table.get(3), Some(vec![42]));
    assert_eq!(table.set(3, vec![7, 8]), Ok(()));
    assert_eq!(table.get(3), Some(vec![7, 8]));
}

#[test]
fn set_errors() {
    let services = vec![BatteryService::declaration(100)];
    let mut table = AttributeTable::build(&services, 8).unwrap();
    assert_eq!(table.set(0, vec![1]), Err(TableError::InvalidHandle));
    assert_eq!(table.set(9, vec![1]), Err(TableError::InvalidHandle));
    assert_eq!(table.set(1, vec![1]), Err(TableError::NotAValue));
    assert_eq!(table.get(1), Some(vec![0x0f, 0x18]));
}

#[test]
fn peer_writes_follow_access() {
    let services = vec![service(
        0x1234,
        vec![
            read_only(0x2a00, b"r"),
            CharacteristicDecl {
                uuid: 0x2a01,
                access: CharacteristicAccess::ReadWriteNotify,
                value: vec![0],
            },
        ],
    )];
    let mut table = AttributeTable::build(&services, 16).unwrap();
    assert_eq!(table.len(), 6);
    assert_eq!(table.write(3, vec![1]), Err(AttError::WriteNotPermitted));
    assert_eq!(table.write(5, vec![9, 9]), Ok(()));
    assert_eq!(table.get(5), Some(vec![9, 9]));
    assert_eq!(table.write(6, vec![1]), Err(AttError::InvalidAttributeValueLength));
    assert_eq!(table.write(6, vec![1, 0]), Ok(()));
    assert_eq!(table.write(7, vec![1, 0]), Err(AttError::InvalidHandle));
}

#[test]
fn notify_requires_subscription_and_connection() {
    let services = vec![BatteryService::declaration(100)];
    let mut table = AttributeTable::build(&services, 8).unwrap();
    assert!(!table.is_subscribed(3));
    assert_eq!(table.notify(3, vec![90], true), Err(NotifyError::NotSubscribed));
    assert_eq!(table.get(3), Some(vec![90]));
    assert_eq!(table.write(4, vec![1, 0]), Ok(()));
    assert!(table.is_subscribed(3));
    assert_eq!(table.notify(3, vec![80], true), Ok(()));
    assert_eq!(table.get(3), Some(vec![80]));
    assert_eq!(table.notify(3, vec![70], false), Err(NotifyError::Disconnected));
    assert_eq!(table.notify(1, vec![70], true), Err(NotifyError::NotNotifiable));
    assert_eq!(table.notify(4, vec![70], true), Err(NotifyError::NotNotifiable));
}

#[test]
fn attribute_kinds_are_distinct() {
    assert_ne!(AttributeKind::PrimaryService, AttributeKind::CharacteristicValue);
}
