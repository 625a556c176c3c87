//! Device and subsystem records of the finalized database.

use vstd::prelude::*;
use crate::types::DeviceId;
use crate::types::SubdeviceId;
use crate::types::SubvendorId;

verus! {

/// A subsystem: a vendor-customized variant of a device, identified by a
/// (subvendor, subdevice) pair.
#[derive(Debug, Clone)]
pub struct Subsystem {
    /// The subvendor ID
    pub subvendor_id: SubvendorId,
    /// The subdevice ID
    pub subdevice_id: SubdeviceId,
    /// The subsystem name
    pub name: String,
}

/// The first subsystem of `subs` carrying the identifier pair, if any;
/// lookups take the first match when the pair occurs twice.
pub open spec fn find_subsystem_spec(
    subs: Seq<Subsystem>,
    subvendor_id: SubvendorId,
    subdevice_id: SubdeviceId,
) -> Option<Subsystem>
    decreases subs.len(),
{
    if subs.len() == 0 {
        None
    } else if subs[0].subvendor_id == subvendor_id && subs[0].subdevice_id == subdevice_id {
        Some(subs[0])
    } else {
        find_subsystem_spec(subs.drop_first(), subvendor_id, subdevice_id)
    }
}

impl Subsystem {
    /// Create a new subsystem.
    pub fn new(subvendor_id: SubvendorId, subdevice_id: SubdeviceId, name: String) -> (r: Self)
        ensures
            r.subvendor_id == subvendor_id,
            r.subdevice_id == subdevice_id,
            r.name == name,
    {
        Subsystem { subvendor_id, subdevice_id, name }
    }

    /// Get the subvendor ID.
    pub fn subvendor_id(&self) -> (r: SubvendorId)
        ensures
            r == self.subvendor_id,
    {
        self.subvendor_id
    }

    /// Get the subdevice ID.
    pub fn subdevice_id(&self) -> (r: SubdeviceId)
        ensures
            r == self.subdevice_id,
    {
        self.subdevice_id
    }

    /// Get the subsystem name.
    pub fn name(&self) -> (r: &str)
        ensures
            r@ == self.name@,
    {
        self.name.as_str()
    }
}

impl PartialEq for Subsystem {
    /// Subsystems are compared by their identifier pair alone.
    fn eq(&self, other: &Self) -> (r: bool) {
        self.subvendor_id == other.subvendor_id && self.subdevice_id == other.subdevice_id
    }
}

impl vstd::std_specs::cmp::PartialEqSpecImpl for Subsystem {
    open spec fn obeys_eq_spec() -> bool {
        true
    }

    open spec fn eq_spec(&self, other: &Self) -> bool {
        self.subvendor_id == other.subvendor_id && self.subdevice_id == other.subdevice_id
    }
}

impl Eq for Subsystem {
}

/// A device record, scoped to one vendor and owning its subsystems.
#[derive(Debug, Clone)]
pub struct Device {
    /// The device ID
    pub id: DeviceId,
    /// The device name
    pub name: String,
    /// The subsystems for this device
    pub subsystems: Vec<Subsystem>,
}

/// The first device of `devices` carrying `device_id`, if any; devices are
/// not required sorted, so lookup is the first match of a linear scan.
pub open spec fn find_device_spec(devices: Seq<Device>, device_id: DeviceId) -> Option<Device>
    decreases devices.len(),
{
    if devices.len() == 0 {
        None
    } else if devices[0].id == device_id {
        Some(devices[0])
    } else {
        find_device_spec(devices.drop_first(), device_id)
    }
}

impl Device {
    /// Create a new device.
    pub fn new(id: DeviceId, name: String, subsystems: Vec<Subsystem>) -> (r: Self)
        ensures
            r.id == id,
            r.name == name,
            r.subsystems == subsystems,
    {
        Device { id, name, subsystems }
    }

    /// Get the device ID.
    pub fn id(&self) -> (r: DeviceId)
        ensures
            r == self.id,
    {
        self.id
    }

    /// Get the device name.
    pub fn name(&self) -> (r: &str)
        ensures
            r@ == self.name@,
    {
        self.name.as_str()
    }

    /// Get all subsystems for this device.
    pub fn subsystems(&self) -> (r: &Vec<Subsystem>)
        ensures
            r == &self.subsystems,
    {
        &self.subsystems
    }

    /// Find a specific subsystem by subvendor and subdevice IDs; the first
    /// match wins when the pair occurs twice.
    pub fn find_subsystem(&self, subvendor_id: SubvendorId, subdevice_id: SubdeviceId) -> (r:
        Option<&Subsystem>)
        ensures
            match r {
                Some(s) => find_subsystem_spec(self.subsystems@, subvendor_id, subdevice_id)
                    == Some(*s),
                None => find_subsystem_spec(self.subsystems@, subvendor_id, subdevice_id)
                    is None,
            },
    {
        let n = self.subsystems.len();
        let mut i: usize = 0;
        proof {
            assert(self.subsystems@.skip(0) =~= self.subsystems@);
        }
        while i < n
            invariant
                i <= n,
                n == self.subsystems@.len(),
                find_subsystem_spec(self.subsystems@, subvendor_id, subdevice_id)
                    == find_subsystem_spec(
                    self.subsystems@.skip(i as int),
                    subvendor_id,
                    subdevice_id,
                ),
            decreases n - i,
        {
            let s = &self.subsystems[i];
            proof {
                assert(self.subsystems@.skip(i as int)[0] == self.subsystems@[i as int]);
                assert(self.subsystems@.skip(i as int).drop_first() =~= self.subsystems@.skip(
                    i + 1,
                ));
            }
            if s.subvendor_id == subvendor_id && s.subdevice_id == subdevice_id {
                return Some(s);
            }
            i = i + 1;
        }
        None
    }

    /// Get the number of subsystems for this device.
    pub fn subsystem_count(&self) -> (r: usize)
        ensures
            r == self.subsystems@.len(),
    {
        self.subsystems.len()
    }

    /// Check if this device has a specific subsystem.
    pub fn has_subsystem(&self, subvendor_id: SubvendorId, subdevice_id: SubdeviceId) -> (r: bool)
        ensures
            r == find_subsystem_spec(self.subsystems@, subvendor_id, subdevice_id) is Some,
    {
        match self.find_subsystem(subvendor_id, subdevice_id) {
            Some(_) => true,
            None => false,
        }
    }

    /// Walk all subsystems for this device.
    pub fn iter_subsystems(&self) -> (r: &Vec<Subsystem>)
        ensures
            r == &self.subsystems,
    {
        &self.subsystems
    }
}

impl PartialEq for Device {
    /// Devices are compared by identifier alone.
    fn eq(&self, other: &Self) -> (r: bool) {
        self.id == other.id
    }
}

impl vstd::std_specs::cmp::PartialEqSpecImpl for Device {
    open spec fn obeys_eq_spec() -> bool {
        true
    }

    open spec fn eq_spec(&self, other: &Self) -> bool {
        self.id == other.id
    }
}

impl Eq for Device {
}

impl PartialOrd for Device {
    /// Devices are ordered by identifier alone.
    fn partial_cmp(&self, other: &Self) -> (r: Option<core::cmp::Ordering>) {
        if self.id.value() < other.id.value() {
            Some(core::cmp::Ordering::Less)
        } else if self.id.value() == other.id.value() {
            Some(core::cmp::Ordering::Equal)
        } else {
            Some(core::cmp::Ordering::Greater)
        }
    }
}

impl vstd::std_specs::cmp::PartialOrdSpecImpl for Device {
    open spec fn obeys_partial_cmp_spec() -> bool {
        true
    }

    open spec fn partial_cmp_spec(&self, other: &Self) -> Option<core::cmp::Ordering> {
        if self.id.spec_value() < other.id.spec_value() {
            Some(core::cmp::Ordering::Less)
        } else if self.id.spec_value() == other.id.spec_value() {
            Some(core::cmp::Ordering::Equal)
        } else {
            Some(core::cmp::Ordering::Greater)
        }
    }
}

} // verus!
