//! Query interface over the database.
//!
//! A query composes zero or more filter predicates — exact identifier
//! match and case-insensitive substring match on names — and evaluates
//! them without mutating the database. Filters are conjunctive: every set
//! filter must hold of a result. The query engine never errors; an empty
//! result set is a valid outcome.

use vstd::prelude::*;
use crate::classes::DeviceClass;
use crate::classes::SubClass;
use crate::database::find_vendor_spec;
use crate::database::vendors_sorted;
use crate::database::PciDatabase;
use crate::devices::Device;
use crate::text::contains_seq;
use crate::text::contains_str;
use crate::types::DeviceClassId;
use crate::types::DeviceId;
use crate::types::SubClassId;
use crate::types::VendorId;
use crate::vendors::Vendor;

verus! {

/// The lowercase form `str::to_lowercase` returns; the result is a
/// function of the input characters alone.
pub uninterp spec fn lower_of(s: Seq<char>) -> Seq<char>;

/// Relies on str::to_lowercase, which maps each character of the slice to
/// its Unicode lowercase equivalent.
#[verifier::external_body]
fn lowercase(s: &str) -> (r: String)
    ensures
        r@ == lower_of(s@),
{
    s.to_lowercase()
}

/// The filters a query holds, in mathematical form; a name filter holds
/// the lowercased needle fixed at construction time.
#[verifier::ext_equal]
pub ghost struct QueryFilters {
    /// Exact vendor identifier, if set
    pub vendor_id: Option<VendorId>,
    /// Lowercased vendor-name needle, if set
    pub vendor_name: Option<Seq<char>>,
    /// Exact device identifier, if set
    pub device_id: Option<DeviceId>,
    /// Lowercased device-name needle, if set
    pub device_name: Option<Seq<char>>,
    /// Exact class identifier, if set
    pub class_id: Option<DeviceClassId>,
    /// Lowercased class-name needle, if set
    pub class_name: Option<Seq<char>>,
    /// Exact subclass identifier, if set
    pub subclass_id: Option<SubClassId>,
    /// Lowercased subclass-name needle, if set
    pub subclass_name: Option<Seq<char>>,
}

/// The empty filter set, which every record passes.
pub open spec fn no_filters() -> QueryFilters {
    QueryFilters {
        vendor_id: None,
        vendor_name: None,
        device_id: None,
        device_name: None,
        class_id: None,
        class_name: None,
        subclass_id: None,
        subclass_name: None,
    }
}

/// True when the vendor passes the vendor filters: its identifier equals
/// the set one, and its lowercased name contains the set needle.
pub open spec fn vendor_passes(f: QueryFilters, v: Vendor) -> bool {
    &&& match f.vendor_id {
        Some(id) => v.id == id,
        None => true,
    }
    &&& match f.vendor_name {
        Some(nm) => contains_seq(lower_of(v.name@), nm),
        None => true,
    }
}

/// True when the device passes the device filters.
pub open spec fn device_passes(f: QueryFilters, d: Device) -> bool {
    &&& match f.device_id {
        Some(id) => d.id == id,
        None => true,
    }
    &&& match f.device_name {
        Some(nm) => contains_seq(lower_of(d.name@), nm),
        None => true,
    }
}

/// True when the class passes the class filters.
pub open spec fn class_passes(f: QueryFilters, c: DeviceClass) -> bool {
    &&& match f.class_id {
        Some(id) => c.id == id,
        None => true,
    }
    &&& match f.class_name {
        Some(nm) => contains_seq(lower_of(c.name@), nm),
        None => true,
    }
}

/// True when the subclass passes the subclass filters.
pub open spec fn subclass_passes(f: QueryFilters, s: SubClass) -> bool {
    &&& match f.subclass_id {
        Some(id) => s.id == id,
        None => true,
    }
    &&& match f.subclass_name {
        Some(nm) => contains_seq(lower_of(s.name@), nm),
        None => true,
    }
}

/// True when some subclass filter is set.
pub open spec fn has_subclass_filters_spec(f: QueryFilters) -> bool {
    f.subclass_id is Some || f.subclass_name is Some
}

/// True when some class or subclass filter is set.
pub open spec fn has_class_filters_spec(f: QueryFilters) -> bool {
    f.class_id is Some || f.class_name is Some || has_subclass_filters_spec(f)
}

/// True when the class passes the class filters and, if subclass filters
/// are set, at least one of its subclasses passes them too.
pub open spec fn class_and_subclass_pass(f: QueryFilters, c: DeviceClass) -> bool {
    &&& class_passes(f, c)
    &&& has_subclass_filters_spec(f) ==> exists|k: int|
        0 <= k < c.subclasses@.len() && subclass_passes(f, #[trigger] c.subclasses@[k])
}

/// The first class of `cs` passing the class and subclass filters, if any;
/// it is attached to device results as auxiliary class context.
pub open spec fn find_matching_class_spec(f: QueryFilters, cs: Seq<DeviceClass>) -> Option<
    DeviceClass,
>
    decreases cs.len(),
{
    if cs.len() == 0 {
        None
    } else if class_and_subclass_pass(f, cs[0]) {
        Some(cs[0])
    } else {
        find_matching_class_spec(f, cs.drop_first())
    }
}

/// The vendors passing the vendor filters, in table order.
pub open spec fn matching_vendors(f: QueryFilters, vs: Seq<Vendor>) -> Seq<Vendor>
    decreases vs.len(),
{
    if vs.len() == 0 {
        Seq::empty()
    } else {
        matching_vendors(f, vs.drop_last()) + if vendor_passes(f, vs.last()) {
            seq![vs.last()]
        } else {
            Seq::empty()
        }
    }
}

/// Query composition is conjunctive: a vendor stands in the result of a
/// vendor query exactly when it stands in the table and passes every set
/// filter at once.
pub proof fn lemma_query_composition_conjunctive(f: QueryFilters, vs: Seq<Vendor>, v: Vendor)
    ensures
        matching_vendors(f, vs).contains(v) <==> (vs.contains(v) && vendor_passes(f, v)),
    decreases vs.len(),
{
    if vs.len() > 0 {
        let t = vs.drop_last();
        lemma_query_composition_conjunctive(f, t, v);
        let m = matching_vendors(f, vs);
        let mt = matching_vendors(f, t);
        if m.contains(v) {
            let i = choose|i: int| 0 <= i < m.len() && m[i] == v;
            if i < mt.len() {
                assert(mt[i] == v);
                assert(mt.contains(v));
                let j = choose|j: int| 0 <= j < t.len() && t[j] == v;
                assert(vs[j] == v);
            } else {
                assert(vendor_passes(f, vs.last()));
                assert(v == vs.last());
                assert(vs[vs.len() - 1] == v);
            }
        }
        if vs.contains(v) && vendor_passes(f, v) {
            let j = choose|j: int| 0 <= j < vs.len() && vs[j] == v;
            if j < vs.len() - 1 {
                assert(t[j] == v);
                assert(t.contains(v));
                let i = choose|i: int| 0 <= i < mt.len() && mt[i] == v;
                assert(m[i] == v);
            } else {
                assert(m[m.len() - 1] == v);
            }
        }
    }
}

/// The devices passing the device filters, in table order.
pub open spec fn matching_devices(f: QueryFilters, ds: Seq<Device>) -> Seq<Device>
    decreases ds.len(),
{
    if ds.len() == 0 {
        Seq::empty()
    } else {
        matching_devices(f, ds.drop_last()) + if device_passes(f, ds.last()) {
            seq![ds.last()]
        } else {
            Seq::empty()
        }
    }
}

/// Each device of `ds` paired with the vendor `v`.
pub open spec fn pair_with(v: Vendor, ds: Seq<Device>) -> Seq<(Vendor, Device)> {
    ds.map_values(|d: Device| (v, d))
}

/// Every (vendor, device) pair passing the vendor and device filters, in
/// table order.
pub open spec fn matching_pairs(f: QueryFilters, vs: Seq<Vendor>) -> Seq<(Vendor, Device)>
    decreases vs.len(),
{
    if vs.len() == 0 {
        Seq::empty()
    } else {
        matching_pairs(f, vs.drop_last()) + if vendor_passes(f, vs.last()) {
            pair_with(vs.last(), matching_devices(f, vs.last().devices@))
        } else {
            Seq::empty()
        }
    }
}

/// The subclasses passing the subclass filters, in table order.
pub open spec fn matching_subclasses(f: QueryFilters, ss: Seq<SubClass>) -> Seq<SubClass>
    decreases ss.len(),
{
    if ss.len() == 0 {
        Seq::empty()
    } else {
        matching_subclasses(f, ss.drop_last()) + if subclass_passes(f, ss.last()) {
            seq![ss.last()]
        } else {
            Seq::empty()
        }
    }
}

/// Every class passing the class filters, each with its passing
/// subclasses; a class with subclass filters set but no passing subclass
/// is excluded.
pub open spec fn class_results(f: QueryFilters, cs: Seq<DeviceClass>) -> Seq<
    (DeviceClass, Seq<SubClass>),
>
    decreases cs.len(),
{
    if cs.len() == 0 {
        Seq::empty()
    } else {
        class_results(f, cs.drop_last()) + (if class_passes(f, cs.last()) && (
        has_subclass_filters_spec(f) ==> matching_subclasses(f, cs.last().subclasses@).len()
            > 0) {
            seq![(cs.last(), matching_subclasses(f, cs.last().subclasses@))]
        } else {
            Seq::empty()
        })
    }
}

/// The values behind a sequence of vendor references.
pub open spec fn vendor_refs_values(s: Seq<&Vendor>) -> Seq<Vendor> {
    s.map_values(|v: &Vendor| *v)
}

/// The values behind a sequence of subclass references.
pub open spec fn subclass_refs_values(s: Seq<&SubClass>) -> Seq<SubClass> {
    s.map_values(|v: &SubClass| *v)
}

/// The class behind an optional class-context reference.
pub open spec fn opt_class_ref_view(o: Option<&DeviceClass>) -> Option<DeviceClass> {
    match o {
        Some(c) => Some(*c),
        None => None,
    }
}

/// The (vendor, device) pairs behind a sequence of device matches.
pub open spec fn match_pairs_of<'a>(ms: Seq<DeviceMatch<'a>>) -> Seq<(Vendor, Device)> {
    ms.map_values(|m: DeviceMatch<'a>| (*m.vendor, *m.device))
}

/// What executing a device query yields over database `db` with filters
/// `f`: when class filters are set and no class passes, nothing; otherwise
/// exactly the passing (vendor, device) pairs in order, each annotated
/// with the first passing class as auxiliary context.
pub open spec fn execute_post<'a>(f: QueryFilters, db: PciDatabase, r: Seq<DeviceMatch<'a>>)
    -> bool {
    let cm = find_matching_class_spec(f, db.spec_classes());
    let pairs = matching_pairs(f, db.spec_vendors());
    if has_class_filters_spec(f) && cm is None {
        r.len() == 0
    } else {
        &&& match_pairs_of(r) == pairs
        &&& forall|k: int|
            0 <= k < r.len() ==> opt_class_ref_view(#[trigger] r[k].class_info) == cm
    }
}

/// What executing a class query yields: exactly the passing classes in
/// order, each with its passing subclasses.
pub open spec fn execute_classes_post<'a>(
    f: QueryFilters,
    db: PciDatabase,
    r: Seq<ClassMatch<'a>>,
) -> bool {
    let rs = class_results(f, db.spec_classes());
    &&& r.len() == rs.len()
    &&& forall|k: int|
        0 <= k < r.len() ==> *(#[trigger] r[k]).class == rs[k].0 && subclass_refs_values(
            r[k].matching_subclasses@,
        ) == rs[k].1
}

/// Builder for composed queries against the database.
#[derive(Debug)]
pub struct QueryBuilder<'db> {
    database: &'db PciDatabase,
    vendor_id_filter: Option<VendorId>,
    vendor_name_filter: Option<String>,
    device_id_filter: Option<DeviceId>,
    device_name_filter: Option<String>,
    class_id_filter: Option<DeviceClassId>,
    class_name_filter: Option<String>,
    subclass_id_filter: Option<SubClassId>,
    subclass_name_filter: Option<String>,
}

/// The lowercased needle behind an optional stored filter string.
spec fn opt_needle_view(o: Option<String>) -> Option<Seq<char>> {
    match o {
        Some(s) => Some(s@),
        None => None,
    }
}

impl<'db> QueryBuilder<'db> {
    /// The filters currently set.
    pub closed spec fn filters(&self) -> QueryFilters {
        QueryFilters {
            vendor_id: self.vendor_id_filter,
            vendor_name: opt_needle_view(self.vendor_name_filter),
            device_id: self.device_id_filter,
            device_name: opt_needle_view(self.device_name_filter),
            class_id: self.class_id_filter,
            class_name: opt_needle_view(self.class_name_filter),
            subclass_id: self.subclass_id_filter,
            subclass_name: opt_needle_view(self.subclass_name_filter),
        }
    }

    /// The database the query runs against.
    pub closed spec fn spec_db(&self) -> PciDatabase {
        *self.database
    }

    /// Create a new query builder for the given database.
    pub fn new(database: &'db PciDatabase) -> (r: Self)
        ensures
            r.spec_db() == *database,
            r.filters() == no_filters(),
    {
        let r = QueryBuilder {
            database,
            vendor_id_filter: None,
            vendor_name_filter: None,
            device_id_filter: None,
            device_name_filter: None,
            class_id_filter: None,
            class_name_filter: None,
            subclass_id_filter: None,
            subclass_name_filter: None,
        };
        proof {
            assert(r.filters() =~= no_filters());
        }
        r
    }

    /// Filter by vendor ID.
    pub fn vendor_id(self, vendor_id: VendorId) -> (r: Self)
        ensures
            r.spec_db() == self.spec_db(),
            r.filters() == (QueryFilters { vendor_id: Some(vendor_id), ..self.filters() }),
    {
        let mut s = self;
        s.vendor_id_filter = Some(vendor_id);
        proof {
            assert(s.filters() =~= (QueryFilters { vendor_id: Some(vendor_id), ..self.filters() }));
        }
        s
    }

    /// Filter by vendor name (case-insensitive substring match); the
    /// needle is lowercased once, here.
    pub fn vendor_name_contains(self, name: &str) -> (r: Self)
        ensures
            r.spec_db() == self.spec_db(),
            r.filters() == (QueryFilters {
                vendor_name: Some(lower_of(name@)),
                ..self.filters()
            }),
    {
        let mut s = self;
        s.vendor_name_filter = Some(lowercase(name));
        proof {
            assert(s.filters() =~= (QueryFilters {
                vendor_name: Some(lower_of(name@)),
                ..self.filters()
            }));
        }
        s
    }

    /// Filter by device ID.
    pub fn device_id(self, device_id: DeviceId) -> (r: Self)
        ensures
            r.spec_db() == self.spec_db(),
            r.filters() == (QueryFilters { device_id: Some(device_id), ..self.filters() }),
    {
        let mut s = self;
        s.device_id_filter = Some(device_id);
        proof {
            assert(s.filters() =~= (QueryFilters { device_id: Some(device_id), ..self.filters() }));
        }
        s
    }

    /// Filter by device name (case-insensitive substring match).
    pub fn device_name_contains(self, name: &str) -> (r: Self)
        ensures
            r.spec_db() == self.spec_db(),
            r.filters() == (QueryFilters {
                device_name: Some(lower_of(name@)),
                ..self.filters()
            }),
    {
        let mut s = self;
        s.device_name_filter = Some(lowercase(name));
        proof {
            assert(s.filters() =~= (QueryFilters {
                device_name: Some(lower_of(name@)),
                ..self.filters()
            }));
        }
        s
    }

    /// Filter by device class ID.
    pub fn class_id(self, class_id: DeviceClassId) -> (r: Self)
        ensures
            r.spec_db() == self.spec_db(),
            r.filters() == (QueryFilters { class_id: Some(class_id), ..self.filters() }),
    {
        let mut s = self;
        s.class_id_filter = Some(class_id);
        proof {
            assert(s.filters() =~= (QueryFilters { class_id: Some(class_id), ..self.filters() }));
        }
        s
    }

    /// Filter by device class name (case-insensitive substring match).
    pub fn class_name_contains(self, name: &str) -> (r: Self)
        ensures
            r.spec_db() == self.spec_db(),
            r.filters() == (QueryFilters { class_name: Some(lower_of(name@)), ..self.filters() }),
    {
        let mut s = self;
        s.class_name_filter = Some(lowercase(name));
        proof {
            assert(s.filters() =~= (QueryFilters {
                class_name: Some(lower_of(name@)),
                ..self.filters()
            }));
        }
        s
    }

    /// Filter by subclass ID.
    pub fn subclass_id(self, subclass_id: SubClassId) -> (r: Self)
        ensures
            r.spec_db() == self.spec_db(),
            r.filters() == (QueryFilters { subclass_id: Some(subclass_id), ..self.filters() }),
    {
        let mut s = self;
        s.subclass_id_filter = Some(subclass_id);
        proof {
            assert(s.filters() =~= (QueryFilters {
                subclass_id: Some(subclass_id),
                ..self.filters()
            }));
        }
        s
    }

    /// Filter by subclass name (case-insensitive substring match).
    pub fn subclass_name_contains(self, name: &str) -> (r: Self)
        ensures
            r.spec_db() == self.spec_db(),
            r.filters() == (QueryFilters {
                subclass_name: Some(lower_of(name@)),
                ..self.filters()
            }),
    {
        let mut s = self;
        s.subclass_name_filter = Some(lowercase(name));
        proof {
            assert(s.filters() =~= (QueryFilters {
                subclass_name: Some(lower_of(name@)),
                ..self.filters()
            }));
        }
        s
    }

    fn has_subclass_filters(&self) -> (r: bool)
        ensures
            r == has_subclass_filters_spec(self.filters()),
    {
        self.subclass_id_filter.is_some() || self.subclass_name_filter.is_some()
    }

    fn has_class_filters(&self) -> (r: bool)
        ensures
            r == has_class_filters_spec(self.filters()),
    {
        self.class_id_filter.is_some() || self.class_name_filter.is_some()
            || self.has_subclass_filters()
    }

    fn vendor_passes_exec(&self, vendor: &Vendor) -> (r: bool)
        ensures
            r == vendor_passes(self.filters(), *vendor),
    {
        match &self.vendor_id_filter {
            Some(id) => {
                if vendor.id != *id {
                    return false;
                }
            },
            None => {},
        }
        match &self.vendor_name_filter {
            Some(needle) => {
                let lowered = lowercase(vendor.name.as_str());
                contains_str(lowered.as_str(), needle.as_str())
            },
            None => true,
        }
    }

    fn device_passes_exec(&self, device: &Device) -> (r: bool)
        ensures
            r == device_passes(self.filters(), *device),
    {
        match &self.device_id_filter {
            Some(id) => {
                if device.id != *id {
                    return false;
                }
            },
            None => {},
        }
        match &self.device_name_filter {
            Some(needle) => {
                let lowered = lowercase(device.name.as_str());
                contains_str(lowered.as_str(), needle.as_str())
            },
            None => true,
        }
    }

    fn class_passes_exec(&self, class: &DeviceClass) -> (r: bool)
        ensures
            r == class_passes(self.filters(), *class),
    {
        match &self.class_id_filter {
            Some(id) => {
                if class.id != *id {
                    return false;
                }
            },
            None => {},
        }
        match &self.class_name_filter {
            Some(needle) => {
                let lowered = lowercase(class.name.as_str());
                contains_str(lowered.as_str(), needle.as_str())
            },
            None => true,
        }
    }

    fn subclass_passes_exec(&self, subclass: &SubClass) -> (r: bool)
        ensures
            r == subclass_passes(self.filters(), *subclass),
    {
        match &self.subclass_id_filter {
            Some(id) => {
                if subclass.id != *id {
                    return false;
                }
            },
            None => {},
        }
        match &self.subclass_name_filter {
            Some(needle) => {
                let lowered = lowercase(subclass.name.as_str());
                contains_str(lowered.as_str(), needle.as_str())
            },
            None => true,
        }
    }

    fn class_and_subclass_pass_exec(&self, class: &DeviceClass) -> (r: bool)
        ensures
            r == class_and_subclass_pass(self.filters(), *class),
    {
        if !self.class_passes_exec(class) {
            return false;
        }
        if !self.has_subclass_filters() {
            return true;
        }
        let n = class.subclasses.len();
        let mut j: usize = 0;
        while j < n
            invariant
                j <= n,
                n == class.subclasses@.len(),
                class_passes(self.filters(), *class),
                has_subclass_filters_spec(self.filters()),
                forall|k: int|
                    0 <= k < j ==> !subclass_passes(
                        self.filters(),
                        #[trigger] class.subclasses@[k],
                    ),
            decreases n - j,
        {
            if self.subclass_passes_exec(&class.subclasses[j]) {
                proof {
                    assert(subclass_passes(self.filters(), class.subclasses@[j as int]));
                    assert(exists|k: int|
                        0 <= k < class.subclasses@.len() && subclass_passes(
                            self.filters(),
                            #[trigger] class.subclasses@[k],
                        ));
                    assert(class_and_subclass_pass(self.filters(), *class));
                }
                return true;
            }
            j = j + 1;
        }
        false
    }

    fn find_matching_class(&self) -> (r: Option<&'db DeviceClass>)
        ensures
            match r {
                Some(c) => find_matching_class_spec(self.filters(), self.spec_db().spec_classes())
                    == Some(*c),
                None => find_matching_class_spec(self.filters(), self.spec_db().spec_classes())
                    is None,
            },
    {
        let classes = self.database.classes();
        let n = classes.len();
        let mut i: usize = 0;
        proof {
            assert(classes@.skip(0) =~= classes@);
        }
        while i < n
            invariant
                i <= n,
                n == classes@.len(),
                classes@ == self.spec_db().spec_classes(),
                find_matching_class_spec(self.filters(), classes@) == find_matching_class_spec(
                    self.filters(),
                    classes@.skip(i as int),
                ),
            decreases n - i,
        {
            let class = &classes[i];
            proof {
                assert(classes@.skip(i as int)[0] == classes@[i as int]);
                assert(classes@.skip(i as int).drop_first() =~= classes@.skip(i + 1));
            }
            if self.class_and_subclass_pass_exec(class) {
                return Some(class);
            }
            i = i + 1;
        }
        None
    }

    /// Execute the query and return matching device results: every
    /// (vendor, device) pair passing the vendor and device filters, each
    /// annotated with the first class passing the class and subclass
    /// filters. When class filters are set and no class passes, the
    /// result is empty.
    pub fn execute(self) -> (r: Vec<DeviceMatch<'db>>)
        ensures
            execute_post(self.filters(), self.spec_db(), r@),
    {
        let ghost f = self.filters();
        let mut results: Vec<DeviceMatch<'db>> = Vec::new();
        let class_match = self.find_matching_class();
        if self.has_class_filters() && class_match.is_none() {
            return results;
        }
        let vendors = self.database.vendors();
        let n = vendors.len();
        let mut i: usize = 0;
        proof {
            assert(vendors@.take(0) =~= Seq::<Vendor>::empty());
            assert(match_pairs_of(results@) =~= matching_pairs(f, vendors@.take(0)));
        }
        while i < n
            invariant
                i <= n,
                n == vendors@.len(),
                f == self.filters(),
                vendors@ == self.spec_db().spec_vendors(),
                opt_class_ref_view(class_match) == find_matching_class_spec(
                    f,
                    self.spec_db().spec_classes(),
                ),
                match_pairs_of(results@) == matching_pairs(f, vendors@.take(i as int)),
                forall|k: int|
                    0 <= k < results@.len() ==> opt_class_ref_view(
                        (#[trigger] results@[k]).class_info,
                    ) == opt_class_ref_view(class_match),
            decreases n - i,
        {
            let vendor = &vendors[i];
            proof {
                assert(vendors@.take(i + 1).drop_last() =~= vendors@.take(i as int));
                assert(vendors@.take(i + 1).last() == vendors@[i as int]);
            }
            if self.vendor_passes_exec(vendor) {
                let m = vendor.devices.len();
                let mut j: usize = 0;
                proof {
                    assert(vendor.devices@.take(0) =~= Seq::<Device>::empty());
                    assert(pair_with(*vendor, matching_devices(f, vendor.devices@.take(0)))
                        =~= Seq::<(Vendor, Device)>::empty());
                }
                while j < m
                    invariant
                        j <= m,
                        i < n,
                        n == vendors@.len(),
                        m == vendor.devices@.len(),
                        f == self.filters(),
                        vendors@ == self.spec_db().spec_vendors(),
                        vendor == &vendors@[i as int],
                        opt_class_ref_view(class_match) == find_matching_class_spec(
                            f,
                            self.spec_db().spec_classes(),
                        ),
                        match_pairs_of(results@) == matching_pairs(f, vendors@.take(i as int))
                            + pair_with(
                            *vendor,
                            matching_devices(f, vendor.devices@.take(j as int)),
                        ),
                        forall|k: int|
                            0 <= k < results@.len() ==> opt_class_ref_view(
                                (#[trigger] results@[k]).class_info,
                            ) == opt_class_ref_view(class_match),
                    decreases m - j,
                {
                    let device = &vendor.devices[j];
                    proof {
                        assert(vendor.devices@.take(j + 1).drop_last() =~= vendor.devices@.take(
                            j as int,
                        ));
                        assert(vendor.devices@.take(j + 1).last() == vendor.devices@[j as int]);
                    }
                    if self.device_passes_exec(device) {
                        let ghost prev = results@;
                        let ghost md = matching_devices(f, vendor.devices@.take(j as int));
                        results.push(DeviceMatch { vendor, device, class_info: class_match });
                        proof {
                            assert(match_pairs_of(results@) =~= match_pairs_of(prev).push(
                                (*vendor, *device),
                            ));
                            assert(pair_with(*vendor, md + seq![*device]) =~= pair_with(
                                *vendor,
                                md,
                            ).push((*vendor, *device)));
                            assert(matching_pairs(f, vendors@.take(i as int)) + pair_with(
                                *vendor,
                                md,
                            ).push((*vendor, *device)) =~= (matching_pairs(
                                f,
                                vendors@.take(i as int),
                            ) + pair_with(*vendor, md)).push((*vendor, *device)));
                        }
                    } else {
                        proof {
                            assert(matching_devices(f, vendor.devices@.take(j + 1))
                                =~= matching_devices(f, vendor.devices@.take(j as int)));
                        }
                    }
                    j = j + 1;
                }
                proof {
                    assert(vendor.devices@.take(m as int) =~= vendor.devices@);
                }
            }
            i = i + 1;
        }
        proof {
            assert(vendors@.take(n as int) =~= vendors@);
        }
        results
    }

    /// Execute the query and return the vendors passing the vendor
    /// filters, in table order.
    pub fn execute_vendors(self) -> (r: Vec<&'db Vendor>)
        ensures
            vendor_refs_values(r@) == matching_vendors(
                self.filters(),
                self.spec_db().spec_vendors(),
            ),
    {
        let ghost f = self.filters();
        let vendors = self.database.vendors();
        let n = vendors.len();
        let mut results: Vec<&'db Vendor> = Vec::new();
        let mut i: usize = 0;
        proof {
            assert(vendors@.take(0) =~= Seq::<Vendor>::empty());
            assert(vendor_refs_values(results@) =~= matching_vendors(f, vendors@.take(0)));
        }
        while i < n
            invariant
                i <= n,
                n == vendors@.len(),
                f == self.filters(),
                vendors@ == self.spec_db().spec_vendors(),
                vendor_refs_values(results@) == matching_vendors(f, vendors@.take(i as int)),
            decreases n - i,
        {
            let vendor = &vendors[i];
            proof {
                assert(vendors@.take(i + 1).drop_last() =~= vendors@.take(i as int));
                assert(vendors@.take(i + 1).last() == vendors@[i as int]);
            }
            if self.vendor_passes_exec(vendor) {
                let ghost prev = results@;
                results.push(vendor);
                proof {
                    assert(vendor_refs_values(results@) =~= vendor_refs_values(prev).push(
                        *vendor,
                    ));
                    assert(matching_vendors(f, vendors@.take(i as int)) + seq![*vendor]
                        =~= matching_vendors(f, vendors@.take(i as int)).push(*vendor));
                }
            }
            i = i + 1;
        }
        proof {
            assert(vendors@.take(n as int) =~= vendors@);
        }
        results
    }

    /// Execute the query and return matching class results: every class
    /// passing the class filters, each with its subclasses passing the
    /// subclass filters; when subclass filters are set and none passes,
    /// the class is excluded.
    pub fn execute_classes(self) -> (r: Vec<ClassMatch<'db>>)
        ensures
            execute_classes_post(self.filters(), self.spec_db(), r@),
    {
        let ghost f = self.filters();
        let classes = self.database.classes();
        let n = classes.len();
        let mut results: Vec<ClassMatch<'db>> = Vec::new();
        let mut i: usize = 0;
        proof {
            assert(classes@.take(0) =~= Seq::<DeviceClass>::empty());
            assert(class_results(f, classes@.take(0)) =~= Seq::<
                (DeviceClass, Seq<SubClass>),
            >::empty());
        }
        while i < n
            invariant
                i <= n,
                n == classes@.len(),
                f == self.filters(),
                classes@ == self.spec_db().spec_classes(),
                results@.len() == class_results(f, classes@.take(i as int)).len(),
                forall|k: int|
                    0 <= k < results@.len() ==> *(#[trigger] results@[k]).class == class_results(
                        f,
                        classes@.take(i as int),
                    )[k].0 && subclass_refs_values(results@[k].matching_subclasses@)
                        == class_results(f, classes@.take(i as int))[k].1,
            decreases n - i,
        {
            let class = &classes[i];
            proof {
                assert(classes@.take(i + 1).drop_last() =~= classes@.take(i as int));
                assert(classes@.take(i + 1).last() == classes@[i as int]);
            }
            let ghost step = class_results(f, classes@.take(i + 1));
            if self.class_passes_exec(class) {
                let m = class.subclasses.len();
                let mut msubs: Vec<&'db SubClass> = Vec::new();
                let mut j: usize = 0;
                proof {
                    assert(class.subclasses@.take(0) =~= Seq::<SubClass>::empty());
                    assert(subclass_refs_values(msubs@) =~= matching_subclasses(
                        f,
                        class.subclasses@.take(0),
                    ));
                }
                while j < m
                    invariant
                        j <= m,
                        m == class.subclasses@.len(),
                        f == self.filters(),
                        subclass_refs_values(msubs@) == matching_subclasses(
                            f,
                            class.subclasses@.take(j as int),
                        ),
                    decreases m - j,
                {
                    let subclass = &class.subclasses[j];
                    proof {
                        assert(class.subclasses@.take(j + 1).drop_last() =~= class.subclasses@
                            .take(j as int));
                        assert(class.subclasses@.take(j + 1).last() == class.subclasses@[
                            j as int]);
                    }
                    if self.subclass_passes_exec(subclass) {
                        let ghost prev = msubs@;
                        msubs.push(subclass);
                        proof {
                            assert(subclass_refs_values(msubs@) =~= subclass_refs_values(
                                prev,
                            ).push(*subclass));
                            assert(matching_subclasses(f, class.subclasses@.take(j as int))
                                + seq![*subclass] =~= matching_subclasses(
                                f,
                                class.subclasses@.take(j as int),
                            ).push(*subclass));
                        }
                    }
                    j = j + 1;
                }
                proof {
                    assert(class.subclasses@.take(m as int) =~= class.subclasses@);
                }
                let skip_class = self.has_subclass_filters() && msubs.is_empty();
                if !skip_class {
                    let ghost prevr = results@;
                    results.push(ClassMatch { class, matching_subclasses: msubs });
                    proof {
                        assert(step =~= class_results(f, classes@.take(i as int)).push(
                            (*class, matching_subclasses(f, class.subclasses@)),
                        ));
                        assert(forall|k: int|
                            0 <= k < prevr.len() ==> #[trigger] results@[k] == prevr[k]);
                        assert(results@[prevr.len() as int].class == class);
                    }
                } else {
                    proof {
                        assert(step =~= class_results(f, classes@.take(i as int)));
                    }
                }
            } else {
                proof {
                    assert(step =~= class_results(f, classes@.take(i as int)));
                }
            }
            i = i + 1;
        }
        proof {
            assert(classes@.take(n as int) =~= classes@);
        }
        results
    }
}

/// A device match result from a query.
#[derive(Debug)]
pub struct DeviceMatch<'db> {
    /// The matching vendor
    pub vendor: &'db Vendor,
    /// The matching device
    pub device: &'db Device,
    /// Auxiliary class context: the first class passing the class and
    /// subclass filters. The source format has no structural link from a
    /// device to a class, so this is a best-effort annotation across
    /// unrelated identifier spaces, not a validated device-to-class
    /// mapping.
    pub class_info: Option<&'db DeviceClass>,
}

/// The description [`DeviceMatch::description`] renders.
pub open spec fn device_match_description_spec(m: DeviceMatch) -> Seq<char> {
    match m.class_info {
        Some(c) => m.vendor.name@ + " "@ + m.device.name@ + " ("@ + c.name@ + ")"@,
        None => m.vendor.name@ + " "@ + m.device.name@,
    }
}

impl<'db> DeviceMatch<'db> {
    /// Get the vendor ID.
    pub fn vendor_id(&self) -> (r: VendorId)
        ensures
            r == self.vendor.id,
    {
        self.vendor.id
    }

    /// Get the vendor name.
    pub fn vendor_name(&self) -> (r: &str)
        ensures
            r@ == self.vendor.name@,
    {
        self.vendor.name.as_str()
    }

    /// Get the device ID.
    pub fn device_id(&self) -> (r: DeviceId)
        ensures
            r == self.device.id,
    {
        self.device.id
    }

    /// Get the device name.
    pub fn device_name(&self) -> (r: &str)
        ensures
            r@ == self.device.name@,
    {
        self.device.name.as_str()
    }

    /// Get a formatted description of this device match.
    pub fn description(&self) -> (r: String)
        ensures
            r@ == device_match_description_spec(*self),
    {
        let mut r = self.vendor.name.clone();
        r.append(" ");
        r.append(self.device.name.as_str());
        match self.class_info {
            Some(class) => {
                r.append(" (");
                r.append(class.name.as_str());
                r.append(")");
            },
            None => {},
        }
        r
    }
}

/// A class match result from a query.
#[derive(Debug)]
pub struct ClassMatch<'db> {
    /// The matching class
    pub class: &'db DeviceClass,
    /// Subclasses that matched the query (all of them when no subclass
    /// filter was set)
    pub matching_subclasses: Vec<&'db SubClass>,
}

/// The subclass names joined with commas.
pub open spec fn joined_subclass_names(ss: Seq<SubClass>) -> Seq<char>
    decreases ss.len(),
{
    if ss.len() == 0 {
        Seq::empty()
    } else if ss.len() == 1 {
        ss[0].name@
    } else {
        joined_subclass_names(ss.drop_last()) + ", "@ + ss.last().name@
    }
}

/// The description [`ClassMatch::description`] renders.
pub open spec fn class_match_description_spec(c: DeviceClass, ms: Seq<SubClass>) -> Seq<char> {
    if ms.len() == 0 {
        c.name@
    } else {
        c.name@ + " ("@ + joined_subclass_names(ms) + ")"@
    }
}

impl<'db> ClassMatch<'db> {
    /// Get the class ID.
    pub fn class_id(&self) -> (r: DeviceClassId)
        ensures
            r == self.class.id,
    {
        self.class.id
    }

    /// Get the class name.
    pub fn class_name(&self) -> (r: &str)
        ensures
            r@ == self.class.name@,
    {
        self.class.name.as_str()
    }

    /// Get a formatted description of this class match: the class name,
    /// with the matching subclass names joined in parentheses when any.
    pub fn description(&self) -> (r: String)
        ensures
            r@ == class_match_description_spec(
                *self.class,
                subclass_refs_values(self.matching_subclasses@),
            ),
    {
        let n = self.matching_subclasses.len();
        if n == 0 {
            return self.class.name.clone();
        }
        let ghost ms = subclass_refs_values(self.matching_subclasses@);
        let mut r = self.class.name.clone();
        r.append(" (");
        let mut i: usize = 0;
        while i < n
            invariant
                0 <= i <= n,
                n >= 1,
                n == self.matching_subclasses@.len(),
                ms == subclass_refs_values(self.matching_subclasses@),
                i == 0 ==> r@ == self.class.name@ + " ("@,
                i >= 1 ==> r@ == self.class.name@ + " ("@ + joined_subclass_names(
                    ms.take(i as int),
                ),
            decreases n - i,
        {
            if i > 0 {
                r.append(", ");
            }
            r.append(self.matching_subclasses[i].name.as_str());
            proof {
                assert(ms.take(i + 1).drop_last() =~= ms.take(i as int));
                assert(ms.take(i + 1).last() == ms[i as int]);
                assert(ms[i as int] == *self.matching_subclasses@[i as int]);
                if i == 0 {
                    assert(joined_subclass_names(ms.take(1)) == ms.take(1)[0].name@);
                    assert(ms.take(1)[0] == ms[0]);
                }
            }
            i = i + 1;
        }
        proof {
            assert(ms.take(n as int) =~= ms);
        }
        r.append(")");
        r
    }
}

impl PciDatabase {
    /// Find all devices from a specific vendor.
    pub fn devices_by_vendor(&self, vendor_id: VendorId) -> (r: Option<&Vec<Device>>)
        requires
            vendors_sorted(self.spec_vendors()),
        ensures
            match r {
                Some(ds) => {
                    &&& find_vendor_spec(self.spec_vendors(), vendor_id) is Some
                    &&& ds@ == find_vendor_spec(self.spec_vendors(), vendor_id).unwrap().devices@
                },
                None => find_vendor_spec(self.spec_vendors(), vendor_id) is None,
            },
    {
        match self.find_vendor(vendor_id) {
            Some(vendor) => Some(vendor.devices()),
            None => None,
        }
    }

    /// Find all devices annotated with a specific class.
    ///
    /// The class is auxiliary context, not a validated device-to-class
    /// link; class assignment depends on the device's configuration.
    pub fn devices_by_class(&self, class_id: DeviceClassId) -> (r: Vec<DeviceMatch<'_>>)
        ensures
            execute_post((QueryFilters { class_id: Some(class_id), ..no_filters() }), *self, r@),
    {
        QueryBuilder::new(self).class_id(class_id).execute()
    }

    /// Search for vendors by name (case-insensitive).
    pub fn search_vendors(&self, name: &str) -> (r: Vec<&Vendor>)
        ensures
            vendor_refs_values(r@) == matching_vendors(
                (QueryFilters { vendor_name: Some(lower_of(name@)), ..no_filters() }),
                self.spec_vendors(),
            ),
    {
        QueryBuilder::new(self).vendor_name_contains(name).execute_vendors()
    }

    /// Search for devices by name (case-insensitive).
    pub fn search_devices(&self, name: &str) -> (r: Vec<DeviceMatch<'_>>)
        ensures
            execute_post(
                (QueryFilters { device_name: Some(lower_of(name@)), ..no_filters() }),
                *self,
                r@,
            ),
    {
        QueryBuilder::new(self).device_name_contains(name).execute()
    }

    /// Search for device classes by name (case-insensitive).
    pub fn search_classes(&self, name: &str) -> (r: Vec<ClassMatch<'_>>)
        ensures
            execute_classes_post(
                (QueryFilters { class_name: Some(lower_of(name@)), ..no_filters() }),
                *self,
                r@,
            ),
    {
        QueryBuilder::new(self).class_name_contains(name).execute_classes()
    }

    /// Get a query builder for this database.
    pub fn query(&self) -> (r: QueryBuilder<'_>)
        ensures
            r.spec_db() == *self,
            r.filters() == no_filters(),
    {
        QueryBuilder::new(self)
    }
}

} // verus!
