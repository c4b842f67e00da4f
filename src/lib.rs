//! Connection-lifecycle core of a single-role BLE peripheral: the device
//! name, the controller lifecycle, the attribute table and GATT server, the
//! advertiser, and the connection event loop's decisions.
use vstd::prelude::*;

pub mod advertise;
pub mod attribute_table;
pub mod controller;
pub mod device_name;
pub mod gatt_server;
pub mod services;

verus! {

} // verus!
