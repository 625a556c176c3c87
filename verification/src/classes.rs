//! Device class, subclass and programming interface records.

pub mod well_known;

use vstd::prelude::*;
use crate::hex::hex2_seq;
use crate::hex::hex_u8_string;
use crate::types::DeviceClassId;
use crate::types::ProgInterfaceId;
use crate::types::SubClassId;

verus! {

/// A programming interface within a subclass.
#[derive(Debug, Clone)]
pub struct ProgInterface {
    /// The programming interface ID
    pub id: ProgInterfaceId,
    /// The programming interface name
    pub name: String,
}

/// The first programming interface of `pis` carrying `id`, if any.
pub open spec fn find_prog_interface_spec(
    pis: Seq<ProgInterface>,
    id: ProgInterfaceId,
) -> Option<ProgInterface>
    decreases pis.len(),
{
    if pis.len() == 0 {
        None
    } else if pis[0].id == id {
        Some(pis[0])
    } else {
        find_prog_interface_spec(pis.drop_first(), id)
    }
}

impl ProgInterface {
    /// Create a new programming interface.
    pub fn new(id: ProgInterfaceId, name: String) -> (r: Self)
        ensures
            r.id == id,
            r.name == name,
    {
        ProgInterface { id, name }
    }

    /// Get the programming interface ID.
    pub fn id(&self) -> (r: ProgInterfaceId)
        ensures
            r == self.id,
    {
        self.id
    }

    /// Get the programming interface name.
    pub fn name(&self) -> (r: &str)
        ensures
            r@ == self.name@,
    {
        self.name.as_str()
    }
}

impl PartialEq for ProgInterface {
    /// Programming interfaces are compared by identifier alone.
    fn eq(&self, other: &Self) -> (r: bool) {
        self.id == other.id
    }
}

impl vstd::std_specs::cmp::PartialEqSpecImpl for ProgInterface {
    open spec fn obeys_eq_spec() -> bool {
        true
    }

    open spec fn eq_spec(&self, other: &Self) -> bool {
        self.id == other.id
    }
}

impl Eq for ProgInterface {
}

impl PartialOrd for ProgInterface {
    /// Programming interfaces are ordered by identifier alone.
    fn partial_cmp(&self, other: &Self) -> (r: Option<core::cmp::Ordering>) {
        if self.id.value() < other.id.value() {
            Some(core::cmp::Ordering::Less)
        } else if self.id.value() == other.id.value() {
            Some(core::cmp::Ordering::Equal)
        } else {
            Some(core::cmp::Ordering::Greater)
        }
    }
}

impl vstd::std_specs::cmp::PartialOrdSpecImpl for ProgInterface {
    open spec fn obeys_partial_cmp_spec() -> bool {
        true
    }

    open spec fn partial_cmp_spec(&self, other: &Self) -> Option<core::cmp::Ordering> {
        if self.id.spec_value() < other.id.spec_value() {
            Some(core::cmp::Ordering::Less)
        } else if self.id.spec_value() == other.id.spec_value() {
            Some(core::cmp::Ordering::Equal)
        } else {
            Some(core::cmp::Ordering::Greater)
        }
    }
}

/// A subclass within a device class, owning its programming interfaces.
#[derive(Debug, Clone)]
pub struct SubClass {
    /// The subclass ID
    pub id: SubClassId,
    /// The subclass name
    pub name: String,
    /// The programming interfaces for this subclass
    pub prog_interfaces: Vec<ProgInterface>,
}

/// The first subclass of `subs` carrying `id`, if any.
pub open spec fn find_subclass_spec(subs: Seq<SubClass>, id: SubClassId) -> Option<SubClass>
    decreases subs.len(),
{
    if subs.len() == 0 {
        None
    } else if subs[0].id == id {
        Some(subs[0])
    } else {
        find_subclass_spec(subs.drop_first(), id)
    }
}

impl SubClass {
    /// Create a new subclass.
    pub fn new(id: SubClassId, name: String, prog_interfaces: Vec<ProgInterface>) -> (r: Self)
        ensures
            r.id == id,
            r.name == name,
            r.prog_interfaces == prog_interfaces,
    {
        SubClass { id, name, prog_interfaces }
    }

    /// Get the subclass ID.
    pub fn id(&self) -> (r: SubClassId)
        ensures
            r == self.id,
    {
        self.id
    }

    /// Get the subclass name.
    pub fn name(&self) -> (r: &str)
        ensures
            r@ == self.name@,
    {
        self.name.as_str()
    }

    /// Get all programming interfaces for this subclass.
    pub fn prog_interfaces(&self) -> (r: &Vec<ProgInterface>)
        ensures
            r == &self.prog_interfaces,
    {
        &self.prog_interfaces
    }

    /// Find a specific programming interface by ID.
    pub fn find_prog_interface(&self, prog_interface_id: ProgInterfaceId) -> (r: Option<
        &ProgInterface>)
        ensures
            match r {
                Some(p) => find_prog_interface_spec(self.prog_interfaces@, prog_interface_id)
                    == Some(*p),
                None => find_prog_interface_spec(self.prog_interfaces@, prog_interface_id)
                    is None,
            },
    {
        let n = self.prog_interfaces.len();
        let mut i: usize = 0;
        proof {
            assert(self.prog_interfaces@.skip(0) =~= self.prog_interfaces@);
        }
        while i < n
            invariant
                i <= n,
                n == self.prog_interfaces@.len(),
                find_prog_interface_spec(self.prog_interfaces@, prog_interface_id)
                    == find_prog_interface_spec(
                    self.prog_interfaces@.skip(i as int),
                    prog_interface_id,
                ),
            decreases n - i,
        {
            let p = &self.prog_interfaces[i];
            proof {
                assert(self.prog_interfaces@.skip(i as int)[0] == self.prog_interfaces@[
                    i as int]);
                assert(self.prog_interfaces@.skip(i as int).drop_first()
                    =~= self.prog_interfaces@.skip(i + 1));
            }
            if p.id == prog_interface_id {
                return Some(p);
            }
            i = i + 1;
        }
        None
    }

    /// Get the number of programming interfaces for this subclass.
    pub fn prog_interface_count(&self) -> (r: usize)
        ensures
            r == self.prog_interfaces@.len(),
    {
        self.prog_interfaces.len()
    }

    /// Check if this subclass has a specific programming interface.
    pub fn has_prog_interface(&self, prog_interface_id: ProgInterfaceId) -> (r: bool)
        ensures
            r == find_prog_interface_spec(self.prog_interfaces@, prog_interface_id) is Some,
    {
        match self.find_prog_interface(prog_interface_id) {
            Some(_) => true,
            None => false,
        }
    }

    /// Walk all programming interfaces for this subclass.
    pub fn iter_prog_interfaces(&self) -> (r: &Vec<ProgInterface>)
        ensures
            r == &self.prog_interfaces,
    {
        &self.prog_interfaces
    }
}

impl PartialEq for SubClass {
    /// Subclasses are compared by identifier alone.
    fn eq(&self, other: &Self) -> (r: bool) {
        self.id == other.id
    }
}

impl vstd::std_specs::cmp::PartialEqSpecImpl for SubClass {
    open spec fn obeys_eq_spec() -> bool {
        true
    }

    open spec fn eq_spec(&self, other: &Self) -> bool {
        self.id == other.id
    }
}

impl Eq for SubClass {
}

impl PartialOrd for SubClass {
    /// Subclasses are ordered by identifier alone.
    fn partial_cmp(&self, other: &Self) -> (r: Option<core::cmp::Ordering>) {
        if self.id.value() < other.id.value() {
            Some(core::cmp::Ordering::Less)
        } else if self.id.value() == other.id.value() {
            Some(core::cmp::Ordering::Equal)
        } else {
            Some(core::cmp::Ordering::Greater)
        }
    }
}

impl vstd::std_specs::cmp::PartialOrdSpecImpl for SubClass {
    open spec fn obeys_partial_cmp_spec() -> bool {
        true
    }

    open spec fn partial_cmp_spec(&self, other: &Self) -> Option<core::cmp::Ordering> {
        if self.id.spec_value() < other.id.spec_value() {
            Some(core::cmp::Ordering::Less)
        } else if self.id.spec_value() == other.id.spec_value() {
            Some(core::cmp::Ordering::Equal)
        } else {
            Some(core::cmp::Ordering::Greater)
        }
    }
}

/// A device class, owning its subclasses.
#[derive(Debug, Clone)]
pub struct DeviceClass {
    /// The device class ID
    pub id: DeviceClassId,
    /// The device class name
    pub name: String,
    /// The subclasses for this device class
    pub subclasses: Vec<SubClass>,
}

/// The description [`DeviceClass::describe_device`] renders for a class and
/// optional subclass and programming interface identifiers.
pub open spec fn class_description_spec(
    c: DeviceClass,
    subclass_id: Option<SubClassId>,
    prog_interface_id: Option<ProgInterfaceId>,
) -> Seq<char> {
    match (subclass_id, prog_interface_id) {
        (Some(sc_id), Some(pi_id)) => match find_subclass_spec(c.subclasses@, sc_id) {
            Some(sub) => match find_prog_interface_spec(sub.prog_interfaces@, pi_id) {
                Some(p) => c.name@ + " - "@ + sub.name@ + " - "@ + p.name@,
                None => c.name@ + " - "@ + sub.name@ + " - Unknown Programming Interface ("@
                    + hex2_seq(pi_id.spec_value()) + ")"@,
            },
            None => c.name@ + " - Unknown Subclass ("@ + hex2_seq(sc_id.spec_value()) + ")"@,
        },
        (Some(sc_id), None) => match find_subclass_spec(c.subclasses@, sc_id) {
            Some(sub) => c.name@ + " - "@ + sub.name@,
            None => c.name@ + " - Unknown Subclass ("@ + hex2_seq(sc_id.spec_value()) + ")"@,
        },
        (None, _) => c.name@,
    }
}

impl DeviceClass {
    /// Create a new device class.
    pub fn new(id: DeviceClassId, name: String, subclasses: Vec<SubClass>) -> (r: Self)
        ensures
            r.id == id,
            r.name == name,
            r.subclasses == subclasses,
    {
        DeviceClass { id, name, subclasses }
    }

    /// Get the device class ID.
    pub fn id(&self) -> (r: DeviceClassId)
        ensures
            r == self.id,
    {
        self.id
    }

    /// Get the device class name.
    pub fn name(&self) -> (r: &str)
        ensures
            r@ == self.name@,
    {
        self.name.as_str()
    }

    /// Get all subclasses for this device class.
    pub fn subclasses(&self) -> (r: &Vec<SubClass>)
        ensures
            r == &self.subclasses,
    {
        &self.subclasses
    }

    /// Find a specific subclass by ID.
    pub fn find_subclass(&self, subclass_id: SubClassId) -> (r: Option<&SubClass>)
        ensures
            match r {
                Some(s) => find_subclass_spec(self.subclasses@, subclass_id) == Some(*s),
                None => find_subclass_spec(self.subclasses@, subclass_id) is None,
            },
    {
        let n = self.subclasses.len();
        let mut i: usize = 0;
        proof {
            assert(self.subclasses@.skip(0) =~= self.subclasses@);
        }
        while i < n
            invariant
                i <= n,
                n == self.subclasses@.len(),
                find_subclass_spec(self.subclasses@, subclass_id) == find_subclass_spec(
                    self.subclasses@.skip(i as int),
                    subclass_id,
                ),
            decreases n - i,
        {
            let s = &self.subclasses[i];
            proof {
                assert(self.subclasses@.skip(i as int)[0] == self.subclasses@[i as int]);
                assert(self.subclasses@.skip(i as int).drop_first() =~= self.subclasses@.skip(
                    i + 1,
                ));
            }
            if s.id == subclass_id {
                return Some(s);
            }
            i = i + 1;
        }
        None
    }

    /// Find a specific programming interface by subclass and prog-if IDs.
    pub fn find_prog_interface(
        &self,
        subclass_id: SubClassId,
        prog_interface_id: ProgInterfaceId,
    ) -> (r: Option<&ProgInterface>)
        ensures
            match r {
                Some(p) => {
                    &&& find_subclass_spec(self.subclasses@, subclass_id) is Some
                    &&& find_prog_interface_spec(
                        find_subclass_spec(self.subclasses@, subclass_id)
                            .unwrap().prog_interfaces@,
                        prog_interface_id,
                    ) == Some(*p)
                },
                None => match find_subclass_spec(self.subclasses@, subclass_id) {
                    Some(sub) => find_prog_interface_spec(sub.prog_interfaces@, prog_interface_id)
                        is None,
                    None => true,
                },
            },
    {
        match self.find_subclass(subclass_id) {
            Some(sub) => sub.find_prog_interface(prog_interface_id),
            None => None,
        }
    }

    /// Get the number of subclasses for this device class.
    pub fn subclass_count(&self) -> (r: usize)
        ensures
            r == self.subclasses@.len(),
    {
        self.subclasses.len()
    }

    /// Check if this device class has a specific subclass.
    pub fn has_subclass(&self, subclass_id: SubClassId) -> (r: bool)
        ensures
            r == find_subclass_spec(self.subclasses@, subclass_id) is Some,
    {
        match self.find_subclass(subclass_id) {
            Some(_) => true,
            None => false,
        }
    }

    /// Walk all subclasses for this device class.
    pub fn iter_subclasses(&self) -> (r: &Vec<SubClass>)
        ensures
            r == &self.subclasses,
    {
        &self.subclasses
    }

    /// Get a human-readable description of a device with the given class,
    /// subclass, and programming interface; absent pieces render as
    /// `Unknown ... (xx)` fallbacks.
    pub fn describe_device(
        &self,
        subclass_id: Option<SubClassId>,
        prog_interface_id: Option<ProgInterfaceId>,
    ) -> (r: String)
        ensures
            r@ == class_description_spec(*self, subclass_id, prog_interface_id),
    {
        match (subclass_id, prog_interface_id) {
            (Some(sc_id), Some(pi_id)) => {
                match self.find_subclass(sc_id) {
                    Some(sub) => {
                        match sub.find_prog_interface(pi_id) {
                            Some(p) => {
                                let mut r = self.name.clone();
                                r.append(" - ");
                                r.append(sub.name.as_str());
                                r.append(" - ");
                                r.append(p.name.as_str());
                                r
                            },
                            None => {
                                let mut r = self.name.clone();
                                r.append(" - ");
                                r.append(sub.name.as_str());
                                r.append(" - Unknown Programming Interface (");
                                let h = hex_u8_string(pi_id.value());
                                r.append(h.as_str());
                                r.append(")");
                                r
                            },
                        }
                    },
                    None => {
                        let mut r = self.name.clone();
                        r.append(" - Unknown Subclass (");
                        let h = hex_u8_string(sc_id.value());
                        r.append(h.as_str());
                        r.append(")");
                        r
                    },
                }
            },
            (Some(sc_id), None) => {
                match self.find_subclass(sc_id) {
                    Some(sub) => {
                        let mut r = self.name.clone();
                        r.append(" - ");
                        r.append(sub.name.as_str());
                        r
                    },
                    None => {
                        let mut r = self.name.clone();
                        r.append(" - Unknown Subclass (");
                        let h = hex_u8_string(sc_id.value());
                        r.append(h.as_str());
                        r.append(")");
                        r
                    },
                }
            },
            (None, _) => self.name.clone(),
        }
    }
}

impl PartialEq for DeviceClass {
    /// Device classes are compared by identifier alone.
    fn eq(&self, other: &Self) -> (r: bool) {
        self.id == other.id
    }
}

impl vstd::std_specs::cmp::PartialEqSpecImpl for DeviceClass {
    open spec fn obeys_eq_spec() -> bool {
        true
    }

    open spec fn eq_spec(&self, other: &Self) -> bool {
        self.id == other.id
    }
}

impl Eq for DeviceClass {
}

impl PartialOrd for DeviceClass {
    /// Device classes are ordered by identifier alone.
    fn partial_cmp(&self, other: &Self) -> (r: Option<core::cmp::Ordering>) {
        if self.id.value() < other.id.value() {
            Some(core::cmp::Ordering::Less)
        } else if self.id.value() == other.id.value() {
            Some(core::cmp::Ordering::Equal)
        } else {
            Some(core::cmp::Ordering::Greater)
        }
    }
}

impl vstd::std_specs::cmp::PartialOrdSpecImpl for DeviceClass {
    open spec fn obeys_partial_cmp_spec() -> bool {
        true
    }

    open spec fn partial_cmp_spec(&self, other: &Self) -> Option<core::cmp::Ordering> {
        if self.id.spec_value() < other.id.spec_value() {
            Some(core::cmp::Ordering::Less)
        } else if self.id.spec_value() == other.id.spec_value() {
            Some(core::cmp::Ordering::Equal)
        } else {
            Some(core::cmp::Ordering::Greater)
        }
    }
}

} // verus!
