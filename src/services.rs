//! The services that this device exposes: Generic Access, Generic Attribute,
//! Device Information and Battery.
use bt_hci::uuid::{appearance, characteristic, service};
use vstd::prelude::*;
use vstd::string::StringSliceAdditionalSpecFns;

use crate::attribute_table::{
    copy_bytes, le_bytes, lemma_characteristics_layout_len,
    lemma_no_descriptors_in, service_layout, value_handle, AttributeTable, CharacteristicAccess,
    CharacteristicDecl, CharacteristicSpec, ServiceDecl, ServiceSpec, TableError,
};

verus! {

/// Name of the manufacturer of the device.
pub const MANUFACTURER_NAME: &'static str = "Sauerstoff.ca";

/// Model number or name of the device.
pub const MODEL_NUMBER: &'static str = "Lookpoint-01";

/// The device's serial number.
pub const SERIAL_NUMBER: &'static str = "AG-202509-0001";

/// Hardware revision name or number of this device.
pub const HARDWARE_REVISION: &'static str = "ABX00071";

/// 16-bit assigned numbers of the Generic Access service.
pub struct GapNumbers {
    pub gap_service: u16,
    pub gatt_service: u16,
    pub device_name: u16,
    pub appearance: u16,
    /// The appearance value of a light controller.
    pub light_controller: u16,
}

/// Relies on bt_hci::uuid (the btuuid crate): the assigned numbers of the
/// GAP (0x1800) and GATT (0x1801) services, the Device Name (0x2A00) and
/// Appearance (0x2A01) characteristics, and the light controller appearance
/// (category 0x16, subcategory 0x15).
#[verifier::external_body]
fn gap_numbers() -> (r: GapNumbers)
    ensures
        r.gap_service == 0x1800,
        r.gatt_service == 0x1801,
        r.device_name == 0x2a00,
        r.appearance == 0x2a01,
        r.light_controller == 0x0595,
{
    GapNumbers {
        gap_service: service::GAP.to_u16(),
        gatt_service: service::GATT.to_u16(),
        device_name: characteristic::DEVICE_NAME.to_u16(),
        appearance: characteristic::APPEARANCE.to_u16(),
        light_controller: appearance::light_fixtures::LIGHT_CONTROLLER.to_u16(),
    }
}

/// 16-bit assigned numbers of the Device Information service.
pub struct DeviceInformationNumbers {
    pub service: u16,
    pub manufacturer_name: u16,
    pub model_number: u16,
    pub serial_number: u16,
    pub hardware_revision: u16,
    pub firmware_revision: u16,
}

/// Relies on bt_hci::uuid (the btuuid crate): the assigned numbers of the
/// Device Information service and of its string characteristics.
#[verifier::external_body]
fn device_information_numbers() -> (r: DeviceInformationNumbers)
    ensures
        r.service == 0x180a,
        r.manufacturer_name == 0x2a29,
        r.model_number == 0x2a24,
        r.serial_number == 0x2a25,
        r.hardware_revision == 0x2a27,
        r.firmware_revision == 0x2a26,
{
    DeviceInformationNumbers {
        service: service::DEVICE_INFORMATION.to_u16(),
        manufacturer_name: characteristic::MANUFACTURER_NAME_STRING.to_u16(),
        model_number: characteristic::MODEL_NUMBER_STRING.to_u16(),
        serial_number: characteristic::SERIAL_NUMBER_STRING.to_u16(),
        hardware_revision: characteristic::HARDWARE_REVISION_STRING.to_u16(),
        firmware_revision: characteristic::FIRMWARE_REVISION_STRING.to_u16(),
    }
}

/// Relies on bt_hci::uuid (the btuuid crate): the assigned numbers of the
/// Battery service (0x180F) and its Battery Level characteristic (0x2A19).
#[verifier::external_body]
fn battery_numbers() -> (r: (u16, u16))
    ensures
        r.0 == 0x180f,
        r.1 == 0x2a19,
{
    (service::BATTERY.to_u16(), characteristic::BATTERY_LEVEL.to_u16())
}

/// The UTF-8 bytes of `s`.
fn text_bytes(s: &str) -> (r: Vec<u8>)
    ensures
        r@ == s.spec_bytes(),
{
    copy_bytes(s.as_bytes())
}

/// A read-only characteristic holding `value`.
pub open spec fn read_only(uuid: u16, value: Seq<u8>) -> CharacteristicSpec {
    CharacteristicSpec { uuid, access: CharacteristicAccess::ReadOnly, value }
}

/// The Generic Access service for a device called `name`.
pub open spec fn gap_service_spec(name: Seq<u8>) -> ServiceSpec {
    ServiceSpec {
        uuid: 0x1800,
        characteristics: seq![read_only(0x2a00, name), read_only(0x2a01, le_bytes(0x0595))],
    }
}

/// The Generic Attribute service, which has no characteristics here.
pub open spec fn gatt_service_spec() -> ServiceSpec {
    ServiceSpec { uuid: 0x1801, characteristics: seq![] }
}

/// The Device Information service, with firmware revision `firmware`.
pub open spec fn device_information_spec(firmware: Seq<u8>) -> ServiceSpec {
    ServiceSpec {
        uuid: 0x180a,
        characteristics: seq![
            read_only(0x2a29, MANUFACTURER_NAME.spec_bytes()),
            read_only(0x2a24, MODEL_NUMBER.spec_bytes()),
            read_only(0x2a25, SERIAL_NUMBER.spec_bytes()),
            read_only(0x2a27, HARDWARE_REVISION.spec_bytes()),
            read_only(0x2a26, firmware),
        ],
    }
}

/// The Battery service, reporting `level` percent.
pub open spec fn battery_spec(level: u8) -> ServiceSpec {
    ServiceSpec {
        uuid: 0x180f,
        characteristics: seq![
            CharacteristicSpec {
                uuid: 0x2a19,
                access: CharacteristicAccess::ReadNotify,
                value: seq![level],
            },
        ],
    }
}

fn read_only_decl(uuid: u16, value: Vec<u8>) -> (r: CharacteristicDecl)
    ensures
        r@ == read_only(uuid, value@),
{
    CharacteristicDecl { uuid, access: CharacteristicAccess::ReadOnly, value }
}

/// Declaration of the Generic Access service for a device called `name`.
pub fn gap_service(name: &str) -> (r: ServiceDecl)
    ensures
        r@ == gap_service_spec(name.spec_bytes()),
{
    let numbers = gap_numbers();
    let (a0, a1) = ((numbers.light_controller % 256) as u8, (numbers.light_controller / 256) as u8);
    let appearance = vec![a0, a1];
    assert(appearance@ =~= le_bytes(0x0595));
    let characteristics = vec![
        read_only_decl(numbers.device_name, text_bytes(name)),
        read_only_decl(numbers.appearance, appearance),
    ];
    let r = ServiceDecl { uuid: numbers.gap_service, characteristics };
    assert(r@.characteristics =~= gap_service_spec(name.spec_bytes()).characteristics);
    r
}

/// Declaration of the Generic Attribute service.
pub fn gatt_service() -> (r: ServiceDecl)
    ensures
        r@ == gatt_service_spec(),
{
    let numbers = gap_numbers();
    let r = ServiceDecl { uuid: numbers.gatt_service, characteristics: Vec::new() };
    assert(r@.characteristics =~= gatt_service_spec().characteristics);
    r
}

/// The Device Information service exposes manufacturer and/or vendor
/// information about a device, as read-only strings.
pub struct DeviceInformation {
    /// Value handle of the Manufacturer Name String characteristic.
    pub manufacturer_name: u16,
    /// Value handle of the Model Number String characteristic.
    pub model_number: u16,
    /// Value handle of the Serial Number String characteristic.
    pub serial_number: u16,
    /// Value handle of the Hardware Revision String characteristic.
    pub hardware_revision: u16,
    /// Value handle of the Firmware Revision String characteristic.
    pub firmware_revision: u16,
    /// Handle of the service declaration.
    pub handle: u16,
}

impl DeviceInformation {
    /// Each read only characteristic adds two attributes to the attribute
    /// table. The service itself also adds one attribute.
    pub const ATTRIBUTE_COUNT: usize = 5 * 2 + 1;

    /// Read only attributes do not require Client Characteristic
    /// Configuration Descriptors (CCCD).
    pub const CCCD_COUNT: usize = 0;

    /// The 16-bit UUID assigned to the Device Information service.
    pub fn ble_uuid16() -> (r: u16)
        ensures
            r == 0x180a,
    {
        device_information_numbers().service
    }

    /// Declaration of the service, with firmware revision `firmware_revision`.
    pub fn declaration(firmware_revision: &str) -> (r: ServiceDecl)
        ensures
            r@ == device_information_spec(firmware_revision.spec_bytes()),
    {
        let n = device_information_numbers();
        let characteristics = vec![
            read_only_decl(n.manufacturer_name, text_bytes(MANUFACTURER_NAME)),
            read_only_decl(n.model_number, text_bytes(MODEL_NUMBER)),
            read_only_decl(n.serial_number, text_bytes(SERIAL_NUMBER)),
            read_only_decl(n.hardware_revision, text_bytes(HARDWARE_REVISION)),
            read_only_decl(n.firmware_revision, text_bytes(firmware_revision)),
        ];
        let r = ServiceDecl { uuid: n.service, characteristics };
        assert(r@.characteristics =~= device_information_spec(
            firmware_revision.spec_bytes(),
        ).characteristics);
        r
    }

    /// Add the service to `table`; fails, changing nothing, when it does not fit.
    pub fn new(table: &mut AttributeTable, firmware_revision: &str) -> (r: Result<Self, TableError>)
        requires
            old(table).wf(),
        ensures
            final(table).wf(),
            final(table).spec_capacity() == old(table).spec_capacity(),
            r is Ok <==> old(table)@.len() + service_layout(
                device_information_spec(firmware_revision.spec_bytes()),
                old(table)@.len() + 1,
            ).len() <= old(table).spec_capacity(),
            r is Ok ==> final(table)@ == old(table)@ + service_layout(
                device_information_spec(firmware_revision.spec_bytes()),
                old(table)@.len() + 1,
            ),
            r is Err ==> final(table)@ == old(table)@,
            r matches Ok(d) ==> d.handle == old(table)@.len() + 1 && d.manufacturer_name
                == old(table)@.len() + 3 && d.model_number == old(table)@.len() + 5
                && d.serial_number == old(table)@.len() + 7 && d.hardware_revision == old(
                table,
            )@.len() + 9 && d.firmware_revision == old(table)@.len() + 11,
    {
        let decl = Self::declaration(firmware_revision);
        let ghost cs = decl@.characteristics;
        let ghost first = old(table)@.len() + 2;
        match table.add_service(&decl) {
            Ok(h) => {
                proof {
                    lemma_read_only_handles(cs, first);
                }
                Ok(DeviceInformation {
                    manufacturer_name: h.characteristics[0],
                    model_number: h.characteristics[1],
                    serial_number: h.characteristics[2],
                    hardware_revision: h.characteristics[3],
                    firmware_revision: h.characteristics[4],
                    handle: h.service,
                })
            },
            Err(e) => Err(e),
        }
    }
}

/// In a run of read-only characteristics, value `i` sits at `first + 2 i + 1`.
proof fn lemma_read_only_handles(cs: Seq<CharacteristicSpec>, first: nat)
    requires
        forall|j: int| 0 <= j < cs.len() ==> (#[trigger] cs[j]).access
            == CharacteristicAccess::ReadOnly,
    ensures
        forall|i: int| 0 <= i <= cs.len() ==> #[trigger] value_handle(cs, first, i) == first + 2 * i + 1,
{
    assert forall|i: int| 0 <= i <= cs.len() implies #[trigger] value_handle(cs, first, i) == first + 2
        * i + 1 by {
        let p = cs.take(i);
        assert forall|j: int| 0 <= j < p.len() implies (#[trigger] p[j]).access
            == CharacteristicAccess::ReadOnly by {
            assert(p[j] == cs[j]);
        }
        lemma_characteristics_layout_len(p, first);
        lemma_no_descriptors_in(p);
    }
}

/// The Battery service: one read + notify characteristic holding the charge
/// level in percent.
pub struct BatteryService {
    /// Value handle of the Battery Level characteristic.
    pub level: u16,
}

impl BatteryService {
    /// Declaration of the service, reporting `level` percent at first.
    pub fn declaration(level: u8) -> (r: ServiceDecl)
        ensures
            r@ == battery_spec(level),
    {
        let (service, characteristic) = battery_numbers();
        let value = vec![level];
        assert(value@ =~= seq![level]);
        let c = CharacteristicDecl {
            uuid: characteristic,
            access: CharacteristicAccess::ReadNotify,
            value,
        };
        let r = ServiceDecl { uuid: service, characteristics: vec![c] };
        assert(r@.characteristics =~= battery_spec(level).characteristics);
        r
    }
}

} // verus!
