//! The main database interface.
//!
//! The finalized database holds the vendor and class trees sorted ascending
//! and unique by identifier — an output contract of whatever built the
//! tables — and answers point lookups by binary search over that order.
//! Missing keys never raise errors; name helpers render them as
//! `Unknown <Kind> (<hex-id>)` fallbacks.

use vstd::prelude::*;
use crate::classes::class_description_spec;
use crate::classes::find_prog_interface_spec;
use crate::classes::find_subclass_spec;
use crate::classes::DeviceClass;
use crate::classes::ProgInterface;
use crate::classes::SubClass;
use crate::devices::find_device_spec;
use crate::devices::find_subsystem_spec;
use crate::devices::Device;
use crate::devices::Subsystem;
use crate::hex::hex2_seq;
use crate::hex::hex4_seq;
use crate::hex::hex_u16_string;
use crate::hex::hex_u8_string;
use crate::types::DeviceClassId;
use crate::types::DeviceId;
use crate::types::ProgInterfaceId;
use crate::types::SubClassId;
use crate::types::SubdeviceId;
use crate::types::SubvendorId;
use crate::types::VendorId;
use crate::vendors::Vendor;

verus! {

/// True when the vendors are sorted strictly ascending by identifier, so
/// sorted and unique at once; binary search relies on this.
pub open spec fn vendors_sorted(vs: Seq<Vendor>) -> bool {
    forall|i: int, j: int|
        0 <= i < j < vs.len() ==> #[trigger] vs[i].id.spec_value() < #[trigger] vs[j].id.spec_value()
}

/// True when the classes are sorted strictly ascending by identifier.
pub open spec fn classes_sorted(cs: Seq<DeviceClass>) -> bool {
    forall|i: int, j: int|
        0 <= i < j < cs.len() ==> #[trigger] cs[i].id.spec_value() < #[trigger] cs[j].id.spec_value()
}

/// The first vendor of `vs` carrying `id`, if any.
pub open spec fn find_vendor_spec(vs: Seq<Vendor>, id: VendorId) -> Option<Vendor>
    decreases vs.len(),
{
    if vs.len() == 0 {
        None
    } else if vs[0].id == id {
        Some(vs[0])
    } else {
        find_vendor_spec(vs.drop_first(), id)
    }
}

/// The first class of `cs` carrying `id`, if any.
pub open spec fn find_class_spec(cs: Seq<DeviceClass>, id: DeviceClassId) -> Option<DeviceClass>
    decreases cs.len(),
{
    if cs.len() == 0 {
        None
    } else if cs[0].id == id {
        Some(cs[0])
    } else {
        find_class_spec(cs.drop_first(), id)
    }
}

/// When `vs[k]` is the first vendor carrying `id`, the linear lookup
/// returns exactly that record.
proof fn lemma_find_vendor_at(vs: Seq<Vendor>, id: VendorId, k: int)
    requires
        0 <= k < vs.len(),
        vs[k].id == id,
        forall|j: int| 0 <= j < k ==> vs[j].id != id,
    ensures
        find_vendor_spec(vs, id) == Some(vs[k]),
    decreases k,
{
    if k > 0 {
        lemma_find_vendor_at(vs.drop_first(), id, k - 1);
    }
}

/// When no vendor carries `id`, the linear lookup finds none.
proof fn lemma_find_vendor_none(vs: Seq<Vendor>, id: VendorId)
    requires
        forall|j: int| 0 <= j < vs.len() ==> vs[j].id != id,
    ensures
        find_vendor_spec(vs, id) is None,
    decreases vs.len(),
{
    if vs.len() > 0 {
        lemma_find_vendor_none(vs.drop_first(), id);
    }
}

/// When `cs[k]` is the first class carrying `id`, the linear lookup
/// returns exactly that record.
proof fn lemma_find_class_at(cs: Seq<DeviceClass>, id: DeviceClassId, k: int)
    requires
        0 <= k < cs.len(),
        cs[k].id == id,
        forall|j: int| 0 <= j < k ==> cs[j].id != id,
    ensures
        find_class_spec(cs, id) == Some(cs[k]),
    decreases k,
{
    if k > 0 {
        lemma_find_class_at(cs.drop_first(), id, k - 1);
    }
}

/// When no class carries `id`, the linear lookup finds none.
proof fn lemma_find_class_none(cs: Seq<DeviceClass>, id: DeviceClassId)
    requires
        forall|j: int| 0 <= j < cs.len() ==> cs[j].id != id,
    ensures
        find_class_spec(cs, id) is None,
    decreases cs.len(),
{
    if cs.len() > 0 {
        lemma_find_class_none(cs.drop_first(), id);
    }
}

/// Point-lookup characterization: the vendor lookup finds a record if
/// and only if some vendor carries the identifier, and what it finds is a
/// record of the table carrying exactly that identifier. Together with
/// the sorted-unique invariant this is binary-search correctness: every
/// present identifier resolves to its record, every identifier between or
/// outside the present ones to nothing.
pub proof fn lemma_find_vendor_characterizes(vs: Seq<Vendor>, id: VendorId)
    ensures
        (find_vendor_spec(vs, id) is Some) <==> (exists|i: int|
            0 <= i < vs.len() && (#[trigger] vs[i]).id == id),
        find_vendor_spec(vs, id) is Some ==> {
            let found = find_vendor_spec(vs, id).unwrap();
            &&& found.id == id
            &&& exists|i: int| 0 <= i < vs.len() && #[trigger] vs[i] == found
        },
    decreases vs.len(),
{
    if vs.len() > 0 {
        lemma_find_vendor_characterizes(vs.drop_first(), id);
        if vs[0].id == id {
        } else {
            let t = vs.drop_first();
            if find_vendor_spec(vs, id) is Some {
                let found = find_vendor_spec(vs, id).unwrap();
                let i = choose|i: int| 0 <= i < t.len() && #[trigger] t[i] == found;
                assert(vs[i + 1] == found);
                let j = choose|i: int| 0 <= i < t.len() && (#[trigger] t[i]).id == id;
                assert(vs[j + 1].id == id);
            } else {
                assert forall|i: int| 0 <= i < vs.len() implies (#[trigger] vs[i]).id != id by {
                    if i > 0 {
                        assert(t[i - 1] == vs[i]);
                    }
                }
            }
        }
    }
}

/// The class lookup characterized the same way.
pub proof fn lemma_find_class_characterizes(cs: Seq<DeviceClass>, id: DeviceClassId)
    ensures
        (find_class_spec(cs, id) is Some) <==> (exists|i: int|
            0 <= i < cs.len() && (#[trigger] cs[i]).id == id),
        find_class_spec(cs, id) is Some ==> {
            let found = find_class_spec(cs, id).unwrap();
            &&& found.id == id
            &&& exists|i: int| 0 <= i < cs.len() && #[trigger] cs[i] == found
        },
    decreases cs.len(),
{
    if cs.len() > 0 {
        lemma_find_class_characterizes(cs.drop_first(), id);
        if cs[0].id == id {
        } else {
            let t = cs.drop_first();
            if find_class_spec(cs, id) is Some {
                let found = find_class_spec(cs, id).unwrap();
                let i = choose|i: int| 0 <= i < t.len() && #[trigger] t[i] == found;
                assert(cs[i + 1] == found);
                let j = choose|i: int| 0 <= i < t.len() && (#[trigger] t[i]).id == id;
                assert(cs[j + 1].id == id);
            } else {
                assert forall|i: int| 0 <= i < cs.len() implies (#[trigger] cs[i]).id != id by {
                    if i > 0 {
                        assert(t[i - 1] == cs[i]);
                    }
                }
            }
        }
    }
}

/// The device found by composing the vendor and device lookups.
pub open spec fn find_db_device_spec(vs: Seq<Vendor>, vendor_id: VendorId, device_id: DeviceId)
    -> Option<Device> {
    match find_vendor_spec(vs, vendor_id) {
        Some(v) => find_device_spec(v.devices@, device_id),
        None => None,
    }
}

/// The subsystem found by composing vendor, device and subsystem lookups.
pub open spec fn find_db_subsystem_spec(
    vs: Seq<Vendor>,
    vendor_id: VendorId,
    device_id: DeviceId,
    subvendor_id: SubvendorId,
    subdevice_id: SubdeviceId,
) -> Option<Subsystem> {
    match find_db_device_spec(vs, vendor_id, device_id) {
        Some(d) => find_subsystem_spec(d.subsystems@, subvendor_id, subdevice_id),
        None => None,
    }
}

/// The subclass found by composing the class and subclass lookups.
pub open spec fn find_db_subclass_spec(
    cs: Seq<DeviceClass>,
    class_id: DeviceClassId,
    subclass_id: SubClassId,
) -> Option<SubClass> {
    match find_class_spec(cs, class_id) {
        Some(c) => find_subclass_spec(c.subclasses@, subclass_id),
        None => None,
    }
}

/// The programming interface found by composing all three class lookups.
pub open spec fn find_db_prog_interface_spec(
    cs: Seq<DeviceClass>,
    class_id: DeviceClassId,
    subclass_id: SubClassId,
    prog_interface_id: ProgInterfaceId,
) -> Option<ProgInterface> {
    match find_db_subclass_spec(cs, class_id, subclass_id) {
        Some(s) => find_prog_interface_spec(s.prog_interfaces@, prog_interface_id),
        None => None,
    }
}

/// The vendor's name, or the `Unknown Vendor` fallback with the identifier
/// in zero-padded lowercase hex.
pub open spec fn vendor_name_spec(vs: Seq<Vendor>, id: VendorId) -> Seq<char> {
    match find_vendor_spec(vs, id) {
        Some(v) => v.name@,
        None => "Unknown Vendor ("@ + hex4_seq(id.spec_value()) + ")"@,
    }
}

/// The device's name, or the `Unknown Device` fallback.
pub open spec fn device_name_spec(vs: Seq<Vendor>, vendor_id: VendorId, device_id: DeviceId)
    -> Seq<char> {
    match find_db_device_spec(vs, vendor_id, device_id) {
        Some(d) => d.name@,
        None => "Unknown Device ("@ + hex4_seq(device_id.spec_value()) + ")"@,
    }
}

/// The subsystem's name, or the `Unknown Subsystem` fallback with the
/// identifier pair.
pub open spec fn subsystem_name_spec(
    vs: Seq<Vendor>,
    vendor_id: VendorId,
    device_id: DeviceId,
    subvendor_id: SubvendorId,
    subdevice_id: SubdeviceId,
) -> Seq<char> {
    match find_db_subsystem_spec(vs, vendor_id, device_id, subvendor_id, subdevice_id) {
        Some(s) => s.name@,
        None => "Unknown Subsystem ("@ + hex4_seq(subvendor_id.spec_value()) + ":"@ + hex4_seq(
            subdevice_id.spec_value(),
        ) + ")"@,
    }
}

/// The class's name, or the `Unknown Class` fallback.
pub open spec fn class_name_spec(cs: Seq<DeviceClass>, id: DeviceClassId) -> Seq<char> {
    match find_class_spec(cs, id) {
        Some(c) => c.name@,
        None => "Unknown Class ("@ + hex2_seq(id.spec_value()) + ")"@,
    }
}

/// The full description [`PciDatabase::describe_device`] renders.
pub open spec fn describe_device_spec(
    vs: Seq<Vendor>,
    cs: Seq<DeviceClass>,
    vendor_id: VendorId,
    device_id: DeviceId,
    class_id: Option<DeviceClassId>,
    subclass_id: Option<SubClassId>,
    prog_interface_id: Option<ProgInterfaceId>,
    subvendor_id: Option<SubvendorId>,
    subdevice_id: Option<SubdeviceId>,
) -> Seq<char> {
    let base = vendor_name_spec(vs, vendor_id) + " "@ + device_name_spec(
        vs,
        vendor_id,
        device_id,
    );
    let with_class = match class_id {
        Some(cid) => match find_class_spec(cs, cid) {
            Some(c) => base + " ("@ + class_description_spec(c, subclass_id, prog_interface_id)
                + ")"@,
            None => base,
        },
        None => base,
    };
    match (subvendor_id, subdevice_id) {
        (Some(sv), Some(sd)) => with_class + " ["@ + subsystem_name_spec(
            vs,
            vendor_id,
            device_id,
            sv,
            sd,
        ) + "]"@,
        _ => with_class,
    }
}

/// The number of devices over all vendors.
pub open spec fn total_devices(vs: Seq<Vendor>) -> nat
    decreases vs.len(),
{
    if vs.len() == 0 {
        0
    } else {
        total_devices(vs.drop_last()) + vs.last().devices@.len()
    }
}

/// The number of subsystems over a device sequence.
pub open spec fn subsystems_in(ds: Seq<Device>) -> nat
    decreases ds.len(),
{
    if ds.len() == 0 {
        0
    } else {
        subsystems_in(ds.drop_last()) + ds.last().subsystems@.len()
    }
}

/// The number of subsystems over all vendors.
pub open spec fn total_subsystems(vs: Seq<Vendor>) -> nat
    decreases vs.len(),
{
    if vs.len() == 0 {
        0
    } else {
        total_subsystems(vs.drop_last()) + subsystems_in(vs.last().devices@)
    }
}

/// The number of subclasses over all classes.
pub open spec fn total_subclasses(cs: Seq<DeviceClass>) -> nat
    decreases cs.len(),
{
    if cs.len() == 0 {
        0
    } else {
        total_subclasses(cs.drop_last()) + cs.last().subclasses@.len()
    }
}

/// The number of programming interfaces over a subclass sequence.
pub open spec fn prog_interfaces_in(ss: Seq<SubClass>) -> nat
    decreases ss.len(),
{
    if ss.len() == 0 {
        0
    } else {
        prog_interfaces_in(ss.drop_last()) + ss.last().prog_interfaces@.len()
    }
}

/// The number of programming interfaces over all classes.
pub open spec fn total_prog_interfaces(cs: Seq<DeviceClass>) -> nat
    decreases cs.len(),
{
    if cs.len() == 0 {
        0
    } else {
        total_prog_interfaces(cs.drop_last()) + prog_interfaces_in(cs.last().subclasses@)
    }
}

/// A partial device count never exceeds the whole.
proof fn lemma_total_devices_take(vs: Seq<Vendor>, i: int)
    requires
        0 <= i <= vs.len(),
    ensures
        total_devices(vs.take(i)) <= total_devices(vs),
    decreases vs.len(),
{
    if i < vs.len() {
        assert(vs.take(i) =~= vs.drop_last().take(i));
        lemma_total_devices_take(vs.drop_last(), i);
    } else {
        assert(vs.take(i) =~= vs);
    }
}

/// A partial subsystem count never exceeds the whole.
proof fn lemma_total_subsystems_take(vs: Seq<Vendor>, i: int)
    requires
        0 <= i <= vs.len(),
    ensures
        total_subsystems(vs.take(i)) <= total_subsystems(vs),
    decreases vs.len(),
{
    if i < vs.len() {
        assert(vs.take(i) =~= vs.drop_last().take(i));
        lemma_total_subsystems_take(vs.drop_last(), i);
    } else {
        assert(vs.take(i) =~= vs);
    }
}

/// A partial per-device subsystem count never exceeds the whole.
proof fn lemma_subsystems_in_take(ds: Seq<Device>, j: int)
    requires
        0 <= j <= ds.len(),
    ensures
        subsystems_in(ds.take(j)) <= subsystems_in(ds),
    decreases ds.len(),
{
    if j < ds.len() {
        assert(ds.take(j) =~= ds.drop_last().take(j));
        lemma_subsystems_in_take(ds.drop_last(), j);
    } else {
        assert(ds.take(j) =~= ds);
    }
}

/// A partial subclass count never exceeds the whole.
proof fn lemma_total_subclasses_take(cs: Seq<DeviceClass>, i: int)
    requires
        0 <= i <= cs.len(),
    ensures
        total_subclasses(cs.take(i)) <= total_subclasses(cs),
    decreases cs.len(),
{
    if i < cs.len() {
        assert(cs.take(i) =~= cs.drop_last().take(i));
        lemma_total_subclasses_take(cs.drop_last(), i);
    } else {
        assert(cs.take(i) =~= cs);
    }
}

/// A partial programming interface count never exceeds the whole.
proof fn lemma_total_prog_interfaces_take(cs: Seq<DeviceClass>, i: int)
    requires
        0 <= i <= cs.len(),
    ensures
        total_prog_interfaces(cs.take(i)) <= total_prog_interfaces(cs),
    decreases cs.len(),
{
    if i < cs.len() {
        assert(cs.take(i) =~= cs.drop_last().take(i));
        lemma_total_prog_interfaces_take(cs.drop_last(), i);
    } else {
        assert(cs.take(i) =~= cs);
    }
}

/// A partial per-class programming interface count never exceeds the whole.
proof fn lemma_prog_interfaces_in_take(ss: Seq<SubClass>, j: int)
    requires
        0 <= j <= ss.len(),
    ensures
        prog_interfaces_in(ss.take(j)) <= prog_interfaces_in(ss),
    decreases ss.len(),
{
    if j < ss.len() {
        assert(ss.take(j) =~= ss.drop_last().take(j));
        lemma_prog_interfaces_in_take(ss.drop_last(), j);
    } else {
        assert(ss.take(j) =~= ss);
    }
}

/// The main database of vendor and class records.
///
/// Lookup requires the sortedness invariant [`vendors_sorted`] /
/// [`classes_sorted`]: producing sorted, deduplicated tables is the
/// generator's output contract, not the parser's.
#[derive(Debug)]
pub struct PciDatabase {
    vendors: Vec<Vendor>,
    classes: Vec<DeviceClass>,
}

impl PciDatabase {
    /// The vendor records, in mathematical form.
    pub closed spec fn spec_vendors(&self) -> Seq<Vendor> {
        self.vendors@
    }

    /// The class records, in mathematical form.
    pub closed spec fn spec_classes(&self) -> Seq<DeviceClass> {
        self.classes@
    }

    /// Create a new database with the given vendors and classes.
    pub fn new(vendors: Vec<Vendor>, classes: Vec<DeviceClass>) -> (r: Self)
        ensures
            r.spec_vendors() == vendors@,
            r.spec_classes() == classes@,
    {
        PciDatabase { vendors, classes }
    }

    /// Get the database compiled into the program. This build compiles in
    /// no identifier data, so the database is empty.
    pub fn get() -> (r: Self)
        ensures
            r.spec_vendors().len() == 0,
            r.spec_classes().len() == 0,
    {
        PciDatabase { vendors: Vec::new(), classes: Vec::new() }
    }

    /// Get all vendors in the database.
    pub fn vendors(&self) -> (r: &Vec<Vendor>)
        ensures
            r@ == self.spec_vendors(),
    {
        &self.vendors
    }

    /// Get all device classes in the database.
    pub fn classes(&self) -> (r: &Vec<DeviceClass>)
        ensures
            r@ == self.spec_classes(),
    {
        &self.classes
    }

    /// Find a vendor by ID, by binary search over the sorted vendor table.
    ///
    /// Returns the record carrying `vendor_id` when one is present, and
    /// `None` when no vendor carries it.
    pub fn find_vendor(&self, vendor_id: VendorId) -> (r: Option<&Vendor>)
        requires
            vendors_sorted(self.spec_vendors()),
        ensures
            match r {
                Some(v) => find_vendor_spec(self.spec_vendors(), vendor_id) == Some(*v),
                None => find_vendor_spec(self.spec_vendors(), vendor_id) is None,
            },
    {
        let ghost vs = self.vendors@;
        let mut lo: usize = 0;
        let mut hi: usize = self.vendors.len();
        while lo < hi
            invariant
                lo <= hi <= vs.len(),
                vs == self.vendors@,
                vendors_sorted(vs),
                forall|j: int| 0 <= j < lo ==> #[trigger] vs[j].id.spec_value()
                    < vendor_id.spec_value(),
                forall|j: int| hi <= j < vs.len() ==> #[trigger] vs[j].id.spec_value()
                    > vendor_id.spec_value(),
            decreases hi - lo,
        {
            let mid = lo + (hi - lo) / 2;
            let v = &self.vendors[mid];
            if v.id.value() == vendor_id.value() {
                proof {
                    VendorId::lemma_value_determines(v.id, vendor_id);
                    assert forall|j: int| 0 <= j < mid implies vs[j].id != vendor_id by {
                        assert(vs[j].id.spec_value() < vs[mid as int].id.spec_value());
                    }
                    lemma_find_vendor_at(vs, vendor_id, mid as int);
                }
                return Some(v);
            } else if v.id.value() < vendor_id.value() {
                lo = mid + 1;
            } else {
                hi = mid;
            }
        }
        proof {
            assert forall|j: int| 0 <= j < vs.len() implies vs[j].id != vendor_id by {
                if vs[j].id == vendor_id {
                    assert(vs[j].id.spec_value() == vendor_id.spec_value());
                }
            }
            lemma_find_vendor_none(vs, vendor_id);
        }
        None
    }

    /// Find a device by vendor and device IDs: the vendor by binary
    /// search, the device by linear scan of that vendor's devices.
    pub fn find_device(&self, vendor_id: VendorId, device_id: DeviceId) -> (r: Option<&Device>)
        requires
            vendors_sorted(self.spec_vendors()),
        ensures
            match r {
                Some(d) => find_db_device_spec(self.spec_vendors(), vendor_id, device_id) == Some(
                    *d,
                ),
                None => find_db_device_spec(self.spec_vendors(), vendor_id, device_id) is None,
            },
    {
        match self.find_vendor(vendor_id) {
            Some(vendor) => vendor.find_device(device_id),
            None => None,
        }
    }

    /// Find a subsystem by vendor, device, subvendor, and subdevice IDs;
    /// the first match wins when the pair occurs twice.
    pub fn find_subsystem(
        &self,
        vendor_id: VendorId,
        device_id: DeviceId,
        subvendor_id: SubvendorId,
        subdevice_id: SubdeviceId,
    ) -> (r: Option<&Subsystem>)
        requires
            vendors_sorted(self.spec_vendors()),
        ensures
            match r {
                Some(s) => find_db_subsystem_spec(
                    self.spec_vendors(),
                    vendor_id,
                    device_id,
                    subvendor_id,
                    subdevice_id,
                ) == Some(*s),
                None => find_db_subsystem_spec(
                    self.spec_vendors(),
                    vendor_id,
                    device_id,
                    subvendor_id,
                    subdevice_id,
                ) is None,
            },
    {
        match self.find_device(vendor_id, device_id) {
            Some(device) => device.find_subsystem(subvendor_id, subdevice_id),
            None => None,
        }
    }

    /// Find a device class by ID, by binary search over the sorted class
    /// table.
    pub fn find_class(&self, class_id: DeviceClassId) -> (r: Option<&DeviceClass>)
        requires
            classes_sorted(self.spec_classes()),
        ensures
            match r {
                Some(c) => find_class_spec(self.spec_classes(), class_id) == Some(*c),
                None => find_class_spec(self.spec_classes(), class_id) is None,
            },
    {
        let ghost cs = self.classes@;
        let mut lo: usize = 0;
        let mut hi: usize = self.classes.len();
        while lo < hi
            invariant
                lo <= hi <= cs.len(),
                cs == self.classes@,
                classes_sorted(cs),
                forall|j: int| 0 <= j < lo ==> #[trigger] cs[j].id.spec_value()
                    < class_id.spec_value(),
                forall|j: int| hi <= j < cs.len() ==> #[trigger] cs[j].id.spec_value()
                    > class_id.spec_value(),
            decreases hi - lo,
        {
            let mid = lo + (hi - lo) / 2;
            let c = &self.classes[mid];
            if c.id.value() == class_id.value() {
                proof {
                    DeviceClassId::lemma_value_determines(c.id, class_id);
                    assert forall|j: int| 0 <= j < mid implies cs[j].id != class_id by {
                        assert(cs[j].id.spec_value() < cs[mid as int].id.spec_value());
                    }
                    lemma_find_class_at(cs, class_id, mid as int);
                }
                return Some(c);
            } else if c.id.value() < class_id.value() {
                lo = mid + 1;
            } else {
                hi = mid;
            }
        }
        proof {
            assert forall|j: int| 0 <= j < cs.len() implies cs[j].id != class_id by {
                if cs[j].id == class_id {
                    assert(cs[j].id.spec_value() == class_id.spec_value());
                }
            }
            lemma_find_class_none(cs, class_id);
        }
        None
    }

    /// Find a subclass by class and subclass IDs.
    pub fn find_subclass(&self, class_id: DeviceClassId, subclass_id: SubClassId) -> (r: Option<
        &SubClass>)
        requires
            classes_sorted(self.spec_classes()),
        ensures
            match r {
                Some(s) => find_db_subclass_spec(self.spec_classes(), class_id, subclass_id)
                    == Some(*s),
                None => find_db_subclass_spec(self.spec_classes(), class_id, subclass_id) is None,
            },
    {
        match self.find_class(class_id) {
            Some(class) => class.find_subclass(subclass_id),
            None => None,
        }
    }

    /// Find a programming interface by class, subclass, and programming
    /// interface IDs.
    pub fn find_prog_interface(
        &self,
        class_id: DeviceClassId,
        subclass_id: SubClassId,
        prog_interface_id: ProgInterfaceId,
    ) -> (r: Option<&ProgInterface>)
        requires
            classes_sorted(self.spec_classes()),
        ensures
            match r {
                Some(p) => find_db_prog_interface_spec(
                    self.spec_classes(),
                    class_id,
                    subclass_id,
                    prog_interface_id,
                ) == Some(*p),
                None => find_db_prog_interface_spec(
                    self.spec_classes(),
                    class_id,
                    subclass_id,
                    prog_interface_id,
                ) is None,
            },
    {
        match self.find_subclass(class_id, subclass_id) {
            Some(subclass) => subclass.find_prog_interface(prog_interface_id),
            None => None,
        }
    }

    /// Get a human-readable name for a vendor.
    ///
    /// Returns `Unknown Vendor (xxxx)` when the vendor ID is not found.
    pub fn vendor_name(&self, vendor_id: VendorId) -> (r: String)
        requires
            vendors_sorted(self.spec_vendors()),
        ensures
            r@ == vendor_name_spec(self.spec_vendors(), vendor_id),
    {
        match self.find_vendor(vendor_id) {
            Some(vendor) => vendor.name.clone(),
            None => {
                let mut r = String::from_str("Unknown Vendor (");
                let h = hex_u16_string(vendor_id.value());
                r.append(h.as_str());
                r.append(")");
                r
            },
        }
    }

    /// Get a human-readable name for a device.
    ///
    /// Returns `Unknown Device (xxxx)` when the device is not found.
    pub fn device_name(&self, vendor_id: VendorId, device_id: DeviceId) -> (r: String)
        requires
            vendors_sorted(self.spec_vendors()),
        ensures
            r@ == device_name_spec(self.spec_vendors(), vendor_id, device_id),
    {
        match self.find_device(vendor_id, device_id) {
            Some(device) => device.name.clone(),
            None => {
                let mut r = String::from_str("Unknown Device (");
                let h = hex_u16_string(device_id.value());
                r.append(h.as_str());
                r.append(")");
                r
            },
        }
    }

    /// Get a human-readable name for a subsystem.
    ///
    /// Returns `Unknown Subsystem (xxxx:xxxx)` when it is not found.
    pub fn subsystem_name(
        &self,
        vendor_id: VendorId,
        device_id: DeviceId,
        subvendor_id: SubvendorId,
        subdevice_id: SubdeviceId,
    ) -> (r: String)
        requires
            vendors_sorted(self.spec_vendors()),
        ensures
            r@ == subsystem_name_spec(
                self.spec_vendors(),
                vendor_id,
                device_id,
                subvendor_id,
                subdevice_id,
            ),
    {
        match self.find_subsystem(vendor_id, device_id, subvendor_id, subdevice_id) {
            Some(subsystem) => subsystem.name.clone(),
            None => {
                let mut r = String::from_str("Unknown Subsystem (");
                let h1 = hex_u16_string(subvendor_id.value());
                r.append(h1.as_str());
                r.append(":");
                let h2 = hex_u16_string(subdevice_id.value());
                r.append(h2.as_str());
                r.append(")");
                r
            },
        }
    }

    /// Get a human-readable description of a device class.
    ///
    /// Returns `Unknown Class (xx)` when the class ID is not found.
    pub fn class_name(&self, class_id: DeviceClassId) -> (r: String)
        requires
            classes_sorted(self.spec_classes()),
        ensures
            r@ == class_name_spec(self.spec_classes(), class_id),
    {
        match self.find_class(class_id) {
            Some(class) => class.name.clone(),
            None => {
                let mut r = String::from_str("Unknown Class (");
                let h = hex_u8_string(class_id.value());
                r.append(h.as_str());
                r.append(")");
                r
            },
        }
    }

    /// Get a complete description of a device including vendor, device,
    /// class, and subsystem information, with `Unknown` fallbacks for
    /// whatever is absent.
    pub fn describe_device(
        &self,
        vendor_id: VendorId,
        device_id: DeviceId,
        class_id: Option<DeviceClassId>,
        subclass_id: Option<SubClassId>,
        prog_interface_id: Option<ProgInterfaceId>,
        subvendor_id: Option<SubvendorId>,
        subdevice_id: Option<SubdeviceId>,
    ) -> (r: String)
        requires
            vendors_sorted(self.spec_vendors()),
            classes_sorted(self.spec_classes()),
        ensures
            r@ == describe_device_spec(
                self.spec_vendors(),
                self.spec_classes(),
                vendor_id,
                device_id,
                class_id,
                subclass_id,
                prog_interface_id,
                subvendor_id,
                subdevice_id,
            ),
    {
        let mut description = self.vendor_name(vendor_id);
        description.append(" ");
        let dn = self.device_name(vendor_id, device_id);
        description.append(dn.as_str());

        match class_id {
            Some(cid) => {
                match self.find_class(cid) {
                    Some(class) => {
                        let class_desc = class.describe_device(subclass_id, prog_interface_id);
                        description.append(" (");
                        description.append(class_desc.as_str());
                        description.append(")");
                    },
                    None => {},
                }
            },
            None => {},
        }

        match (subvendor_id, subdevice_id) {
            (Some(sv), Some(sd)) => {
                let subsystem_name = self.subsystem_name(vendor_id, device_id, sv, sd);
                description.append(" [");
                description.append(subsystem_name.as_str());
                description.append("]");
            },
            _ => {},
        }

        description
    }

    /// Get statistics about the database, computed by full traversal.
    pub fn stats(&self) -> (r: DatabaseStats)
        requires
            total_devices(self.spec_vendors()) <= usize::MAX,
            total_subsystems(self.spec_vendors()) <= usize::MAX,
            total_subclasses(self.spec_classes()) <= usize::MAX,
            total_prog_interfaces(self.spec_classes()) <= usize::MAX,
        ensures
            r.vendor_count == self.spec_vendors().len(),
            r.device_count == total_devices(self.spec_vendors()),
            r.subsystem_count == total_subsystems(self.spec_vendors()),
            r.class_count == self.spec_classes().len(),
            r.subclass_count == total_subclasses(self.spec_classes()),
            r.prog_interface_count == total_prog_interfaces(self.spec_classes()),
    {
        let ghost vs = self.vendors@;
        let ghost cs = self.classes@;
        let mut device_total: usize = 0;
        let mut subsystem_total: usize = 0;
        let n = self.vendors.len();
        let mut i: usize = 0;
        proof {
            assert(vs.take(0) =~= Seq::<Vendor>::empty());
        }
        while i < n
            invariant
                i <= n,
                n == vs.len(),
                vs == self.vendors@,
                total_devices(vs) <= usize::MAX,
                total_subsystems(vs) <= usize::MAX,
                device_total == total_devices(vs.take(i as int)),
                subsystem_total == total_subsystems(vs.take(i as int)),
            decreases n - i,
        {
            let vendor = &self.vendors[i];
            proof {
                assert(vs.take(i + 1).drop_last() =~= vs.take(i as int));
                assert(vs.take(i + 1).last() == vs[i as int]);
                lemma_total_devices_take(vs, i + 1);
                lemma_total_subsystems_take(vs, i + 1);
            }
            device_total = device_total + vendor.device_count();
            let ds = vendor.devices();
            let m = ds.len();
            let mut j: usize = 0;
            proof {
                assert(ds@.take(0) =~= Seq::<Device>::empty());
            }
            while j < m
                invariant
                    j <= m,
                    i < vs.len(),
                    m == ds@.len(),
                    ds@ == vs[i as int].devices@,
                    total_subsystems(vs) <= usize::MAX,
                    total_subsystems(vs.take(i + 1)) <= total_subsystems(vs),
                    total_subsystems(vs.take(i + 1)) == total_subsystems(vs.take(i as int))
                        + subsystems_in(ds@),
                    subsystem_total == total_subsystems(vs.take(i as int)) + subsystems_in(
                        ds@.take(j as int),
                    ),
                decreases m - j,
            {
                let device = &ds[j];
                proof {
                    assert(ds@.take(j + 1).drop_last() =~= ds@.take(j as int));
                    assert(ds@.take(j + 1).last() == ds@[j as int]);
                    lemma_subsystems_in_take(ds@, j + 1);
                }
                subsystem_total = subsystem_total + device.subsystem_count();
                j = j + 1;
            }
            proof {
                assert(ds@.take(m as int) =~= ds@);
            }
            i = i + 1;
        }
        proof {
            assert(vs.take(n as int) =~= vs);
        }

        let mut subclass_total: usize = 0;
        let mut prog_interface_total: usize = 0;
        let cn = self.classes.len();
        let mut k: usize = 0;
        proof {
            assert(cs.take(0) =~= Seq::<DeviceClass>::empty());
        }
        while k < cn
            invariant
                k <= cn,
                cn == cs.len(),
                cs == self.classes@,
                total_subclasses(cs) <= usize::MAX,
                total_prog_interfaces(cs) <= usize::MAX,
                subclass_total == total_subclasses(cs.take(k as int)),
                prog_interface_total == total_prog_interfaces(cs.take(k as int)),
            decreases cn - k,
        {
            let class = &self.classes[k];
            proof {
                assert(cs.take(k + 1).drop_last() =~= cs.take(k as int));
                assert(cs.take(k + 1).last() == cs[k as int]);
                lemma_total_subclasses_take(cs, k + 1);
                lemma_total_prog_interfaces_take(cs, k + 1);
            }
            subclass_total = subclass_total + class.subclass_count();
            let ss = class.subclasses();
            let sm = ss.len();
            let mut j: usize = 0;
            proof {
                assert(ss@.take(0) =~= Seq::<SubClass>::empty());
            }
            while j < sm
                invariant
                    j <= sm,
                    k < cs.len(),
                    sm == ss@.len(),
                    ss@ == cs[k as int].subclasses@,
                    total_prog_interfaces(cs) <= usize::MAX,
                    total_prog_interfaces(cs.take(k + 1)) <= total_prog_interfaces(cs),
                    total_prog_interfaces(cs.take(k + 1)) == total_prog_interfaces(
                        cs.take(k as int),
                    ) + prog_interfaces_in(ss@),
                    prog_interface_total == total_prog_interfaces(cs.take(k as int))
                        + prog_interfaces_in(ss@.take(j as int)),
                decreases sm - j,
            {
                let subclass = &ss[j];
                proof {
                    assert(ss@.take(j + 1).drop_last() =~= ss@.take(j as int));
                    assert(ss@.take(j + 1).last() == ss@[j as int]);
                    lemma_prog_interfaces_in_take(ss@, j + 1);
                }
                prog_interface_total = prog_interface_total + subclass.prog_interface_count();
                j = j + 1;
            }
            proof {
                assert(ss@.take(sm as int) =~= ss@);
            }
            k = k + 1;
        }
        proof {
            assert(cs.take(cn as int) =~= cs);
        }

        DatabaseStats {
            vendor_count: n,
            device_count: device_total,
            subsystem_count: subsystem_total,
            class_count: cn,
            subclass_count: subclass_total,
            prog_interface_count: prog_interface_total,
        }
    }

    /// Walk all vendors in the database.
    pub fn iter_vendors(&self) -> (r: &Vec<Vendor>)
        ensures
            r@ == self.spec_vendors(),
    {
        &self.vendors
    }

    /// Walk all device classes in the database.
    pub fn iter_classes(&self) -> (r: &Vec<DeviceClass>)
        ensures
            r@ == self.spec_classes(),
    {
        &self.classes
    }
}

/// Statistics about the database.
#[derive(Debug, Clone, Copy)]
pub struct DatabaseStats {
    /// Number of vendors
    pub vendor_count: usize,
    /// Total number of devices across all vendors
    pub device_count: usize,
    /// Total number of subsystems across all devices
    pub subsystem_count: usize,
    /// Number of device classes
    pub class_count: usize,
    /// Total number of subclasses across all classes
    pub subclass_count: usize,
    /// Total number of programming interfaces across all subclasses
    pub prog_interface_count: usize,
}

/// The sum of all six counts.
pub open spec fn stats_total(s: DatabaseStats) -> int {
    s.vendor_count + s.device_count + s.subsystem_count + s.class_count + s.subclass_count
        + s.prog_interface_count
}

/// The text [`DatabaseStats::summary`] renders.
pub open spec fn stats_summary_spec(s: DatabaseStats) -> Seq<char> {
    "PCI Database Statistics:\nVendors: "@ + crate::hex::dec_seq(s.vendor_count as nat)
        + "\nDevices: "@ + crate::hex::dec_seq(s.device_count as nat) + "\nSubsystems: "@
        + crate::hex::dec_seq(s.subsystem_count as nat) + "\nClasses: "@ + crate::hex::dec_seq(
        s.class_count as nat,
    ) + "\nSubclasses: "@ + crate::hex::dec_seq(s.subclass_count as nat)
        + "\nProgramming Interfaces: "@ + crate::hex::dec_seq(s.prog_interface_count as nat)
        + "\nTotal Entries: "@ + crate::hex::dec_seq(stats_total(s) as nat)
}

impl DatabaseStats {
    /// Get the total number of entries in the database.
    pub fn total_entries(&self) -> (r: usize)
        requires
            stats_total(*self) <= usize::MAX,
        ensures
            r == stats_total(*self),
    {
        self.vendor_count + self.device_count + self.subsystem_count + self.class_count
            + self.subclass_count + self.prog_interface_count
    }

    /// Render the statistics as human-readable text, one count per line.
    pub fn summary(&self) -> (r: String)
        requires
            stats_total(*self) <= usize::MAX,
        ensures
            r@ == stats_summary_spec(*self),
    {
        let mut r = String::from_str("PCI Database Statistics:\nVendors: ");
        let d1 = crate::hex::dec_string(self.vendor_count);
        r.append(d1.as_str());
        r.append("\nDevices: ");
        let d2 = crate::hex::dec_string(self.device_count);
        r.append(d2.as_str());
        r.append("\nSubsystems: ");
        let d3 = crate::hex::dec_string(self.subsystem_count);
        r.append(d3.as_str());
        r.append("\nClasses: ");
        let d4 = crate::hex::dec_string(self.class_count);
        r.append(d4.as_str());
        r.append("\nSubclasses: ");
        let d5 = crate::hex::dec_string(self.subclass_count);
        r.append(d5.as_str());
        r.append("\nProgramming Interfaces: ");
        let d6 = crate::hex::dec_string(self.prog_interface_count);
        r.append(d6.as_str());
        r.append("\nTotal Entries: ");
        let d7 = crate::hex::dec_string(self.total_entries());
        r.append(d7.as_str());
        r
    }
}

} // verus!
