//! Vendor records of the finalized database.

pub mod well_known;

use vstd::prelude::*;
use crate::devices::Device;
use crate::devices::find_device_spec;
use crate::types::DeviceId;
use crate::types::VendorId;

verus! {

/// A vendor record, owning its devices exclusively.
#[derive(Debug, Clone)]
pub struct Vendor {
    /// The vendor ID
    pub id: VendorId,
    /// The vendor name
    pub name: String,
    /// The devices manufactured by this vendor
    pub devices: Vec<Device>,
}

impl Vendor {
    /// Create a new vendor.
    pub fn new(id: VendorId, name: String, devices: Vec<Device>) -> (r: Self)
        ensures
            r.id == id,
            r.name == name,
            r.devices == devices,
    {
        Vendor { id, name, devices }
    }

    /// Get the vendor ID.
    pub fn id(&self) -> (r: VendorId)
        ensures
            r == self.id,
    {
        self.id
    }

    /// Get the vendor name.
    pub fn name(&self) -> (r: &str)
        ensures
            r@ == self.name@,
    {
        self.name.as_str()
    }

    /// Get all devices from this vendor.
    pub fn devices(&self) -> (r: &Vec<Device>)
        ensures
            r == &self.devices,
    {
        &self.devices
    }

    /// Find a specific device by ID; devices are not sorted, so this is the
    /// first match of a linear scan.
    pub fn find_device(&self, device_id: DeviceId) -> (r: Option<&Device>)
        ensures
            match r {
                Some(d) => find_device_spec(self.devices@, device_id) == Some(*d),
                None => find_device_spec(self.devices@, device_id) is None,
            },
    {
        let n = self.devices.len();
        let mut i: usize = 0;
        proof {
            assert(self.devices@.skip(0) =~= self.devices@);
        }
        while i < n
            invariant
                i <= n,
                n == self.devices@.len(),
                find_device_spec(self.devices@, device_id) == find_device_spec(
                    self.devices@.skip(i as int),
                    device_id,
                ),
            decreases n - i,
        {
            let d = &self.devices[i];
            proof {
                assert(self.devices@.skip(i as int)[0] == self.devices@[i as int]);
                assert(self.devices@.skip(i as int).drop_first() =~= self.devices@.skip(i + 1));
            }
            if d.id == device_id {
                return Some(d);
            }
            i = i + 1;
        }
        None
    }

    /// Get the number of devices from this vendor.
    pub fn device_count(&self) -> (r: usize)
        ensures
            r == self.devices@.len(),
    {
        self.devices.len()
    }

    /// Check if this vendor manufactures a specific device.
    pub fn has_device(&self, device_id: DeviceId) -> (r: bool)
        ensures
            r == find_device_spec(self.devices@, device_id) is Some,
    {
        match self.find_device(device_id) {
            Some(_) => true,
            None => false,
        }
    }

    /// Walk all devices from this vendor.
    pub fn iter_devices(&self) -> (r: &Vec<Device>)
        ensures
            r == &self.devices,
    {
        &self.devices
    }
}

impl PartialEq for Vendor {
    /// Vendors are compared by identifier alone.
    fn eq(&self, other: &Self) -> (r: bool) {
        self.id == other.id
    }
}

impl vstd::std_specs::cmp::PartialEqSpecImpl for Vendor {
    open spec fn obeys_eq_spec() -> bool {
        true
    }

    open spec fn eq_spec(&self, other: &Self) -> bool {
        self.id == other.id
    }
}

impl Eq for Vendor {
}

impl PartialOrd for Vendor {
    /// Vendors are ordered by identifier alone.
    fn partial_cmp(&self, other: &Self) -> (r: Option<core::cmp::Ordering>) {
        if self.id.value() < other.id.value() {
            Some(core::cmp::Ordering::Less)
        } else if self.id.value() == other.id.value() {
            Some(core::cmp::Ordering::Equal)
        } else {
            Some(core::cmp::Ordering::Greater)
        }
    }
}

impl vstd::std_specs::cmp::PartialOrdSpecImpl for Vendor {
    open spec fn obeys_partial_cmp_spec() -> bool {
        true
    }

    open spec fn partial_cmp_spec(&self, other: &Self) -> Option<core::cmp::Ordering> {
        if self.id.spec_value() < other.id.spec_value() {
            Some(core::cmp::Ordering::Less)
        } else if self.id.spec_value() == other.id.spec_value() {
            Some(core::cmp::Ordering::Equal)
        } else {
            Some(core::cmp::Ordering::Greater)
        }
    }
}

} // verus!
