//! Well-known device class IDs for convenience.

use vstd::prelude::*;
use crate::types::DeviceClassId;

verus! {

/// Unclassified device
#[allow(non_snake_case)]
pub fn UNCLASSIFIED() -> (r: DeviceClassId)
    ensures
        r.spec_value() == 0x00,
{
    DeviceClassId::new(0x00)
}

/// Mass storage controller
#[allow(non_snake_case)]
pub fn MASS_STORAGE() -> (r: DeviceClassId)
    ensures
        r.spec_value() == 0x01,
{
    DeviceClassId::new(0x01)
}

/// Network controller
#[allow(non_snake_case)]
pub fn NETWORK() -> (r: DeviceClassId)
    ensures
        r.spec_value() == 0x02,
{
    DeviceClassId::new(0x02)
}

/// Display controller
#[allow(non_snake_case)]
pub fn DISPLAY() -> (r: DeviceClassId)
    ensures
        r.spec_value() == 0x03,
{
    DeviceClassId::new(0x03)
}

/// Multimedia controller
#[allow(non_snake_case)]
pub fn MULTIMEDIA() -> (r: DeviceClassId)
    ensures
        r.spec_value() == 0x04,
{
    DeviceClassId::new(0x04)
}

/// Memory controller
#[allow(non_snake_case)]
pub fn MEMORY() -> (r: DeviceClassId)
    ensures
        r.spec_value() == 0x05,
{
    DeviceClassId::new(0x05)
}

/// Bridge device
#[allow(non_snake_case)]
pub fn BRIDGE() -> (r: DeviceClassId)
    ensures
        r.spec_value() == 0x06,
{
    DeviceClassId::new(0x06)
}

/// Simple communication controller
#[allow(non_snake_case)]
pub fn COMMUNICATION() -> (r: DeviceClassId)
    ensures
        r.spec_value() == 0x07,
{
    DeviceClassId::new(0x07)
}

/// Base system peripheral
#[allow(non_snake_case)]
pub fn SYSTEM_PERIPHERAL() -> (r: DeviceClassId)
    ensures
        r.spec_value() == 0x08,
{
    DeviceClassId::new(0x08)
}

/// Input device controller
#[allow(non_snake_case)]
pub fn INPUT_DEVICE() -> (r: DeviceClassId)
    ensures
        r.spec_value() == 0x09,
{
    DeviceClassId::new(0x09)
}

/// Docking station
#[allow(non_snake_case)]
pub fn DOCKING_STATION() -> (r: DeviceClassId)
    ensures
        r.spec_value() == 0x0a,
{
    DeviceClassId::new(0x0a)
}

/// Processor
#[allow(non_snake_case)]
pub fn PROCESSOR() -> (r: DeviceClassId)
    ensures
        r.spec_value() == 0x0b,
{
    DeviceClassId::new(0x0b)
}

/// Serial bus controller
#[allow(non_snake_case)]
pub fn SERIAL_BUS() -> (r: DeviceClassId)
    ensures
        r.spec_value() == 0x0c,
{
    DeviceClassId::new(0x0c)
}

/// Wireless controller
#[allow(non_snake_case)]
pub fn WIRELESS() -> (r: DeviceClassId)
    ensures
        r.spec_value() == 0x0d,
{
    DeviceClassId::new(0x0d)
}

/// Intelligent controller
#[allow(non_snake_case)]
pub fn INTELLIGENT() -> (r: DeviceClassId)
    ensures
        r.spec_value() == 0x0e,
{
    DeviceClassId::new(0x0e)
}

/// Satellite communication controller
#[allow(non_snake_case)]
pub fn SATELLITE() -> (r: DeviceClassId)
    ensures
        r.spec_value() == 0x0f,
{
    DeviceClassId::new(0x0f)
}

/// Encryption controller
#[allow(non_snake_case)]
pub fn ENCRYPTION() -> (r: DeviceClassId)
    ensures
        r.spec_value() == 0x10,
{
    DeviceClassId::new(0x10)
}

/// Signal processing controller
#[allow(non_snake_case)]
pub fn SIGNAL_PROCESSING() -> (r: DeviceClassId)
    ensures
        r.spec_value() == 0x11,
{
    DeviceClassId::new(0x11)
}

/// Processing accelerator
#[allow(non_snake_case)]
pub fn PROCESSING_ACCELERATOR() -> (r: DeviceClassId)
    ensures
        r.spec_value() == 0x12,
{
    DeviceClassId::new(0x12)
}

/// Non-essential instrumentation
#[allow(non_snake_case)]
pub fn NON_ESSENTIAL_INSTRUMENTATION() -> (r: DeviceClassId)
    ensures
        r.spec_value() == 0x13,
{
    DeviceClassId::new(0x13)
}

/// Co-processor
#[allow(non_snake_case)]
pub fn COPROCESSOR() -> (r: DeviceClassId)
    ensures
        r.spec_value() == 0x40,
{
    DeviceClassId::new(0x40)
}

/// Unassigned class
#[allow(non_snake_case)]
pub fn UNASSIGNED() -> (r: DeviceClassId)
    ensures
        r.spec_value() == 0xff,
{
    DeviceClassId::new(0xff)
}

} // verus!
