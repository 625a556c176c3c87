//! Well-known vendor IDs for convenience.

use vstd::prelude::*;
use crate::types::VendorId;

verus! {

/// Intel Corporation
#[allow(non_snake_case)]
pub fn INTEL() -> (r: VendorId)
    ensures
        r.spec_value() == 0x8086,
{
    VendorId::new(0x8086)
}

/// Advanced Micro Devices (AMD)
#[allow(non_snake_case)]
pub fn AMD() -> (r: VendorId)
    ensures
        r.spec_value() == 0x1022,
{
    VendorId::new(0x1022)
}

/// NVIDIA Corporation
#[allow(non_snake_case)]
pub fn NVIDIA() -> (r: VendorId)
    ensures
        r.spec_value() == 0x10de,
{
    VendorId::new(0x10de)
}

/// Broadcom
#[allow(non_snake_case)]
pub fn BROADCOM() -> (r: VendorId)
    ensures
        r.spec_value() == 0x14e4,
{
    VendorId::new(0x14e4)
}

/// Realtek Semiconductor
#[allow(non_snake_case)]
pub fn REALTEK() -> (r: VendorId)
    ensures
        r.spec_value() == 0x10ec,
{
    VendorId::new(0x10ec)
}

/// Qualcomm
#[allow(non_snake_case)]
pub fn QUALCOMM() -> (r: VendorId)
    ensures
        r.spec_value() == 0x17cb,
{
    VendorId::new(0x17cb)
}

/// Marvell Technology Group
#[allow(non_snake_case)]
pub fn MARVELL() -> (r: VendorId)
    ensures
        r.spec_value() == 0x11ab,
{
    VendorId::new(0x11ab)
}

/// VIA Technologies
#[allow(non_snake_case)]
pub fn VIA() -> (r: VendorId)
    ensures
        r.spec_value() == 0x1106,
{
    VendorId::new(0x1106)
}

/// Atheros Communications
#[allow(non_snake_case)]
pub fn ATHEROS() -> (r: VendorId)
    ensures
        r.spec_value() == 0x168c,
{
    VendorId::new(0x168c)
}

/// 3Com Corporation
#[allow(non_snake_case)]
pub fn THREECOM() -> (r: VendorId)
    ensures
        r.spec_value() == 0x10b7,
{
    VendorId::new(0x10b7)
}

} // verus!
