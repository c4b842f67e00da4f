//! The controller lifecycle: unconstructed → enabled → running, each step
//! consuming the value of the step before, and the background pump that may
//! be started only once.
use vstd::prelude::*;

use crate::device_name::{DeviceName, MAX_LOCAL_NAME_LENGTH};

verus! {

/// Source of the low-frequency clock.
#[derive(Clone, Copy, Debug, PartialEq, Eq, Structural)]
pub enum ClockSource {
    /// An external crystal oscillator, which calibrates itself.
    ExternalCrystal,
    /// The internal RC oscillator, which needs calibration.
    InternalRc,
}

/// Accuracy of this board's external crystal, in parts per million.
pub const CLOCK_ACCURACY_PPM: u16 = 50;

/// Configuration that enabling the radio controller applies.
#[derive(Clone, Copy, Debug, PartialEq, Eq, Structural)]
pub struct ControllerConfig {
    /// Where the low-frequency clock comes from.
    pub clock_source: ClockSource,
    /// Accuracy of the low-frequency clock, in parts per million.
    pub clock_accuracy_ppm: u16,
    /// Interval between clock calibrations, in 1/4 s; zero for a crystal.
    pub clock_calibration_interval: u8,
    /// Concurrent connections that the controller keeps room for.
    pub conn_count: u8,
    /// Connections in the peripheral role: all of them.
    pub periph_role_count: u8,
    /// Length of the device name, in bytes.
    pub device_name_length: u16,
    /// Whether a peer may write a new device name; it may not.
    pub device_name_writable: bool,
}

/// The configuration that enabling applies for a name of `name_length` bytes
/// and room for `max_connections` connections: the board's external crystal
/// at 50 ppm, every connection in the peripheral role, and a device name that
/// cannot change at run time.
pub open spec fn enable_config(name_length: nat, max_connections: u8) -> ControllerConfig {
    ControllerConfig {
        clock_source: ClockSource::ExternalCrystal,
        clock_accuracy_ppm: CLOCK_ACCURACY_PPM,
        clock_calibration_interval: 0,
        conn_count: max_connections,
        periph_role_count: max_connections,
        device_name_length: name_length as u16,
        device_name_writable: false,
    }
}

/// Why starting the background pump was refused.
#[derive(Clone, Copy, Debug, PartialEq, Eq, Structural)]
pub enum SpawnError {
    /// The one pump task is already running.
    Busy,
}

/// Whether a pump may start in a slot whose pump is running (`running`).
pub open spec fn spawn_allowed(running: bool) -> bool {
    !running
}

/// The single slot in which the background link-layer pump runs.
pub struct PumpSlot {
    running: bool,
}

impl View for PumpSlot {
    type V = bool;

    /// Whether the pump has been started.
    closed spec fn view(&self) -> bool {
        self.running
    }
}

impl PumpSlot {
    /// A slot with no pump in it.
    pub fn new() -> (r: Self)
        ensures
            !r@,
    {
        PumpSlot { running: false }
    }

    /// Whether the pump has been started.
    pub fn is_running(&self) -> (r: bool)
        ensures
            r == self@,
    {
        self.running
    }

    /// Claim the slot for the pump: refused when it is taken.
    pub fn claim(&mut self) -> (r: Result<(), SpawnError>)
        ensures
            r is Ok <==> spawn_allowed(old(self)@),
            final(self)@,
    {
        if self.running {
            Err(SpawnError::Busy)
        } else {
            self.running = true;
            Ok(())
        }
    }
}

/// Starting the pump succeeds in an empty slot, and after any attempt the
/// slot is taken, so a second start is refused rather than tolerated.
pub proof fn lemma_second_pump_rejected(before: bool, after: bool)
    requires
        after,
    ensures
        !before ==> spawn_allowed(before),
        !spawn_allowed(after),
{
}

/// Marker for the states of a `BluetoothDevice`.
pub trait BluetoothDeviceState {

}

impl BluetoothDeviceState for () {

}

/// Attributes of a `BluetoothDevice` in its enabled state: configuration
/// applied, no pump running yet.
pub struct Enabled {
    config: ControllerConfig,
}

/// Attributes of a `BluetoothDevice` in its running state: the pump runs and
/// advertising and connections may begin.
pub struct Running {
    config: ControllerConfig,
}

impl BluetoothDeviceState for Enabled {

}

impl BluetoothDeviceState for Running {

}

/// The microcontroller's Bluetooth controller, in state `S`.
pub struct BluetoothDevice<S: BluetoothDeviceState> {
    internal_state: S,
}

impl BluetoothDevice<()> {
    /// Configure the Bluetooth controller for the device called
    /// `device_name`, with room for `max_connections` peripheral connections.
    pub fn new(device_name: &DeviceName, max_connections: u8) -> (r: BluetoothDevice<Enabled>)
        ensures
            r.spec_config() == enable_config(device_name@.len(), max_connections),
            device_name@.len() <= MAX_LOCAL_NAME_LENGTH,
    {
        let device_name_length = device_name.len() as u16;
        let config = ControllerConfig {
            clock_source: ClockSource::ExternalCrystal,
            clock_accuracy_ppm: CLOCK_ACCURACY_PPM,
            clock_calibration_interval: 0,
            conn_count: max_connections,
            periph_role_count: max_connections,
            device_name_length,
            device_name_writable: false,
        };
        BluetoothDevice { internal_state: Enabled { config } }
    }
}

impl BluetoothDevice<Enabled> {
    /// The configuration to apply to the controller.
    pub closed spec fn spec_config(&self) -> ControllerConfig {
        self.internal_state.config
    }

    /// The configuration to apply to the controller.
    pub fn config(&self) -> (r: ControllerConfig)
        ensures
            r == self.spec_config(),
    {
        self.internal_state.config
    }

    /// Start the background task that pumps the controller's event loop, in
    /// `pump`. Refused when a pump already runs there: two pumps would race
    /// on the same hardware.
    pub fn run(self, pump: &mut PumpSlot) -> (r: Result<BluetoothDevice<Running>, SpawnError>)
        ensures
            r is Ok <==> spawn_allowed(old(pump)@),
            final(pump)@,
            r matches Ok(d) ==> d.spec_config() == self.spec_config(),
    {
        match pump.claim() {
            Ok(()) => Ok(BluetoothDevice { internal_state: Running { config: self.internal_state.config } }),
            Err(e) => Err(e),
        }
    }
}

impl BluetoothDevice<Running> {
    /// The configuration that the controller runs with.
    pub closed spec fn spec_config(&self) -> ControllerConfig {
        self.internal_state.config
    }

    /// The configuration that the controller runs with.
    pub fn config(&self) -> (r: ControllerConfig)
        ensures
            r == self.spec_config(),
    {
        self.internal_state.config
    }
}

/// Bluetooth server: the running controller and the connections it serves.
pub struct BluetoothServer {
    bluetooth_device: BluetoothDevice<Running>,
    max_connections: u8,
    num_connections: u8,
}

impl BluetoothServer {
    /// Enable and run the controller for `device_name`; refused when the
    /// pump in `pump` already runs.
    pub fn new(device_name: &DeviceName, max_connections: u8, pump: &mut PumpSlot) -> (r: Result<
        Self,
        SpawnError,
    >)
        ensures
            r is Ok <==> spawn_allowed(old(pump)@),
            final(pump)@,
            r matches Ok(s) ==> s.spec_max_connections() == max_connections
                && s.spec_num_connections() == 0 && s.spec_device_config() == enable_config(
                device_name@.len(),
                max_connections,
            ),
    {
        let device = BluetoothDevice::new(device_name, max_connections);
        match device.run(pump) {
            Ok(bluetooth_device) => Ok(
                BluetoothServer { bluetooth_device, max_connections, num_connections: 0 },
            ),
            Err(e) => Err(e),
        }
    }

    /// Connections that the server may serve at once.
    pub closed spec fn spec_max_connections(&self) -> u8 {
        self.max_connections
    }

    /// The configuration that the running controller has.
    pub closed spec fn spec_device_config(&self) -> ControllerConfig {
        self.bluetooth_device.spec_config()
    }

    /// Connections being served.
    pub closed spec fn spec_num_connections(&self) -> u8 {
        self.num_connections
    }

    /// The running controller.
    pub fn device(&self) -> (r: &BluetoothDevice<Running>)
        ensures
            r.spec_config() == self.spec_device_config(),
    {
        &self.bluetooth_device
    }

    /// Count a new connection; refused when all are in use.
    pub fn open_connection(&mut self) -> (r: bool)
        ensures
            r <==> old(self).spec_num_connections() < old(self).spec_max_connections(),
            final(self).spec_max_connections() == old(self).spec_max_connections(),
            final(self).spec_num_connections() == if r {
                old(self).spec_num_connections() + 1
            } else {
                old(self).spec_num_connections() as int
            },
    {
        if self.num_connections < self.max_connections {
            self.num_connections = self.num_connections + 1;
            true
        } else {
            false
        }
    }

    /// Count a connection that ended.
    pub fn close_connection(&mut self)
        ensures
            final(self).spec_max_connections() == old(self).spec_max_connections(),
            final(self).spec_num_connections() == if old(self).spec_num_connections() > 0 {
                old(self).spec_num_connections() - 1
            } else {
                0int
            },
    {
        if self.num_connections > 0 {
            self.num_connections = self.num_connections - 1;
        }
    }
}

/// Where the link-layer engine failed.
#[derive(Clone, Copy, Debug, PartialEq, Eq, Structural)]
pub enum PumpFailure {
    /// In the radio controller.
    Controller,
    /// In the host stack.
    Host,
}

/// A failure with no recovery in the process: the device must halt or reset.
#[derive(Clone, Copy, Debug, PartialEq, Eq, Structural)]
pub enum FatalError {
    /// The radio engine refused its configuration.
    ControllerInit,
    /// A second background pump was started.
    PumpAlreadyRunning,
    /// The background pump reported an engine failure.
    LinkLayer(PumpFailure),
    /// The background pump stopped without reporting a failure: it must run
    /// for the life of the process.
    PumpStopped,
    /// The GATT server could not be built.
    GattServer,
    /// The advertisement payload does not fit the packet.
    AdvertisementPayload,
}

/// What the end of the background pump means: the pump never returns, so
/// every end of it is fatal, with the failure it reported, if any.
pub fn ble_background_task(outcome: Result<(), PumpFailure>) -> (r: FatalError)
    ensures
        match outcome {
            Ok(()) => r == FatalError::PumpStopped,
            Err(f) => r == FatalError::LinkLayer(f),
        },
{
    match outcome {
        Ok(()) => FatalError::PumpStopped,
        Err(f) => FatalError::LinkLayer(f),
    }
}

/// The little-endian bytes of a 48-bit random static address whose upper 16
/// bits are the low half of `deviceaddr1` and whose lower 32 bits are
/// `deviceaddr0`.
pub open spec fn address_bytes(deviceaddr0: u32, deviceaddr1: u32) -> Seq<u8> {
    seq![
        (deviceaddr0 % 0x100) as u8,
        (deviceaddr0 / 0x100 % 0x100) as u8,
        (deviceaddr0 / 0x10000 % 0x100) as u8,
        (deviceaddr0 / 0x1000000) as u8,
        (deviceaddr1 % 0x100) as u8,
        (deviceaddr1 / 0x100 % 0x100) as u8,
    ]
}

/// The device's BLE address, from the two factory-programmed address
/// registers.
pub fn get_ble_address(deviceaddr0: u32, deviceaddr1: u32) -> (r: [u8; 6])
    ensures
        r@ == address_bytes(deviceaddr0, deviceaddr1),
{
    let r = [
        (deviceaddr0 % 0x100) as u8,
        (deviceaddr0 / 0x100 % 0x100) as u8,
        (deviceaddr0 / 0x10000 % 0x100) as u8,
        (deviceaddr0 / 0x1000000) as u8,
        (deviceaddr1 % 0x100) as u8,
        (deviceaddr1 / 0x100 % 0x100) as u8,
    ];
    assert(r@ =~= address_bytes(deviceaddr0, deviceaddr1));
    r
}

} // verus!
