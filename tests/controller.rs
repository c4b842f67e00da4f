use lookpoint::controller::{
    ble_background_task, get_ble_address, BluetoothDevice, BluetoothServer, ClockSource,
    ControllerConfig, FatalError, PumpFailure, PumpSlot, SpawnError,
};
use lookpoint::device_name::DeviceName;

#[test]
fn enabling_applies_name_length_and_connection_count() {
    let name = DeviceName::new("Lookpoint Tracker");
    let device = BluetoothDevice::new(&name, 1);
    assert_eq!(
        device.config(),
        ControllerConfig {
            clock_source: ClockSource::ExternalCrystal,
            clock_accuracy_ppm: 50,
            clock_calibration_interval: 0,
            conn_count: 1,
            periph_role_count: 1,
            device_name_length: 17,
            device_name_writable: false,
        }
    );
}

#[test]
fn second_pump_is_rejected() {
    let name = DeviceName::new("Lookpoint Tracker");
    let mut pump = PumpSlot::new();
    assert!(!pump.is_running());
    let running = BluetoothDevice::new(&name, 1).run(&mut pump);
    assert!(running.is_ok());
    assert_eq!(running.unwrap().config().conn_count, 1);
    assert!(pump.is_running());
    let again = BluetoothDevice::new(&name, 1).run(&mut pump);
    assert!(again.is_err());
    assert_eq!(pump.claim(), Err(SpawnError::Busy));
}

#[test]
fn server_counts_connections_up_to_its_limit() {
    let name = DeviceName::new("Lookpoint Tracker");
    let mut pump = PumpSlot::new();
    let mut server = BluetoothServer::new(&name, 1, &mut pump).ok().unwrap();
    assert_eq!(server.device().config(), BluetoothDevice::new(&name, 1).config());
    assert!(server.open_connection());
    assert!(!server.open_connection());
    server.close_connection();
    assert!(server.open_connection());
    assert!(BluetoothServer::new(&name, 1, &mut pump).is_err());
}

#[test]
fn every_end_of_the_pump_is_fatal() {
    assert_eq!(ble_background_task(Ok(())), FatalError::PumpStopped);
    assert_eq!(
        ble_background_task(Err(PumpFailure::Controller)),
        FatalError::LinkLayer(PumpFailure::Controller)
    );
    assert_eq!(ble_background_task(Err(PumpFailure::Host)), FatalError::LinkLayer(PumpFailure::Host));
}

#[test]
fn address_is_little_endian_48_bits() {
    let bytes = get_ble_address(0x4433_2211, 0xffff_6655);
    assert_eq!(bytes, [0x11, 0x22, 0x33, 0x44, 0x55, 0x66]);
}
