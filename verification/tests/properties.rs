//! Tests for the library's stated properties: hex boundary values, depth
//! validation, mode-switch independence, binary-search correctness,
//! fallback rendering, conjunctive query composition, and the end-to-end
//! example.

use ids_rs::error::PciError;
use ids_rs::parser::PciIdsParser;
use ids_rs::Device;
use ids_rs::DeviceClass;
use ids_rs::DeviceClassId;
use ids_rs::DeviceId;
use ids_rs::PciDatabase;
use ids_rs::ProgInterface;
use ids_rs::ProgInterfaceId;
use ids_rs::SubClass;
use ids_rs::SubClassId;
use ids_rs::SubdeviceId;
use ids_rs::Subsystem;
use ids_rs::SubvendorId;
use ids_rs::Vendor;
use ids_rs::VendorId;

fn vendor(id: u16, name: &str, devices: Vec<Device>) -> Vendor {
    Vendor::new(VendorId::new(id), String::from(name), devices)
}

fn device(id: u16, name: &str, subsystems: Vec<Subsystem>) -> Device {
    Device::new(DeviceId::new(id), String::from(name), subsystems)
}

fn subsystem(sv: u16, sd: u16, name: &str) -> Subsystem {
    Subsystem::new(SubvendorId::new(sv), SubdeviceId::new(sd), String::from(name))
}

fn class(id: u8, name: &str, subclasses: Vec<SubClass>) -> DeviceClass {
    DeviceClass::new(DeviceClassId::new(id), String::from(name), subclasses)
}

fn subclass(id: u8, name: &str, prog_interfaces: Vec<ProgInterface>) -> SubClass {
    SubClass::new(SubClassId::new(id), String::from(name), prog_interfaces)
}

// -----------------------------------------------------------------------
// Hex boundary values
// -----------------------------------------------------------------------

#[test]
fn test_hex_boundary_values() {
    // 0000 and ffff parse as valid 16-bit identifiers
    let mut parser = PciIdsParser::new();
    parser.parse("0000  Zero Vendor\nffff  Max Vendor\n").expect("boundary ids must parse");
    assert_eq!(parser.vendors().len(), 2);
    assert_eq!(parser.vendors()[0].id.value(), 0x0000);
    assert_eq!(parser.vendors()[1].id.value(), 0xffff);

    // 10000 overflows the 16-bit width
    let mut parser = PciIdsParser::new();
    assert_eq!(parser.parse("10000  Too Wide\n"), Err(PciError::InvalidHexValue));

    // Non-hex characters are rejected
    let mut parser = PciIdsParser::new();
    assert_eq!(parser.parse("zzzz  Not Hex\n"), Err(PciError::InvalidHexValue));

    // A class id ff parses; 100 overflows the 8-bit width
    let mut parser = PciIdsParser::new();
    parser.parse("C ff  Last Class\n").expect("class id ff must parse");
    assert_eq!(parser.classes()[0].id.value(), 0xff);

    let mut parser = PciIdsParser::new();
    assert_eq!(parser.parse("C 100  Too Wide\n"), Err(PciError::InvalidHexValue));
}

// -----------------------------------------------------------------------
// Depth validation
// -----------------------------------------------------------------------

#[test]
fn test_three_tabs_always_invalid_indentation() {
    // Three leading tabs abort the parse in vendor mode...
    let mut parser = PciIdsParser::new();
    let result = parser.parse("8086  Intel\n\t1234  Device\n\t\t\t00  Too Deep\n");
    assert_eq!(result, Err(PciError::InvalidIndentation));

    // ... and in class mode
    let mut parser = PciIdsParser::new();
    let result = parser.parse("C 02  Network controller\n\t00  Ethernet\n\t\t\t00  Too Deep\n");
    assert_eq!(result, Err(PciError::InvalidIndentation));

    // ... even with nothing open
    let mut parser = PciIdsParser::new();
    assert_eq!(parser.parse("\t\t\tanything"), Err(PciError::InvalidIndentation));

    // Nothing is kept on error
    assert_eq!(parser.vendors().len(), 0);
    assert_eq!(parser.classes().len(), 0);
}

#[test]
fn test_two_tab_device_shaped_line() {
    // Two leading tabs put a line in the subsystem slot; a device-shaped
    // payload there fails the subsystem decoder's two-field shape.
    let mut parser = PciIdsParser::new();
    let result = parser.parse("8086  Intel\n\t1234  Device\n\t\t5678  Device Shaped\n");
    assert_eq!(result, Err(PciError::InvalidFormat));

    // With no open device, a depth-2 line is silently dropped instead.
    let mut parser = PciIdsParser::new();
    parser.parse("8086  Intel\n\t\t5678  Device Shaped\n").expect("orphan detail lines are dropped");
    assert_eq!(parser.vendors().len(), 1);
    assert_eq!(parser.vendors()[0].devices.len(), 0);
}

#[test]
fn test_orphan_prog_interface_dropped() {
    let mut parser = PciIdsParser::new();
    parser.parse("C 02  Network controller\n\t\t00  Orphan Interface\n").expect("orphans are dropped");
    assert_eq!(parser.classes().len(), 1);
    assert_eq!(parser.classes()[0].subclasses.len(), 0);
}

// -----------------------------------------------------------------------
// Mode-switch independence
// -----------------------------------------------------------------------

#[test]
fn test_mode_switch_idempotence() {
    // The same vendor and class blocks, interleaved two ways
    let interleaved = "1000  Vendor One\n\t0001  Device A\nC 01  Class One\n\t01  Sub One\n2000  Vendor Two\n\t0002  Device B\nC 02  Class Two\n\t02  Sub Two\n";
    let separated = "1000  Vendor One\n\t0001  Device A\n2000  Vendor Two\n\t0002  Device B\nC 01  Class One\n\t01  Sub One\nC 02  Class Two\n\t02  Sub Two\n";

    let mut p1 = PciIdsParser::new();
    p1.parse(interleaved).expect("interleaved document must parse");
    let mut p2 = PciIdsParser::new();
    p2.parse(separated).expect("separated document must parse");

    assert_eq!(p1.vendors().len(), 2);
    assert_eq!(p2.vendors().len(), 2);
    for k in 0..2 {
        assert_eq!(p1.vendors()[k].id.value(), p2.vendors()[k].id.value());
        assert_eq!(p1.vendors()[k].name, p2.vendors()[k].name);
        assert_eq!(p1.vendors()[k].devices.len(), p2.vendors()[k].devices.len());
        assert_eq!(p1.vendors()[k].devices[0].name, p2.vendors()[k].devices[0].name);
    }

    assert_eq!(p1.classes().len(), 2);
    assert_eq!(p2.classes().len(), 2);
    for k in 0..2 {
        assert_eq!(p1.classes()[k].id.value(), p2.classes()[k].id.value());
        assert_eq!(p1.classes()[k].name, p2.classes()[k].name);
        assert_eq!(p1.classes()[k].subclasses.len(), p2.classes()[k].subclasses.len());
        assert_eq!(p1.classes()[k].subclasses[0].name, p2.classes()[k].subclasses[0].name);
    }
}

#[test]
fn test_round_trip_structural_counts() {
    // N top-level vendor headers yield exactly N vendor builders, with
    // the devices nested beneath each in document order
    let content = "1000  One\n\t0001  A1\n\t0002  A2\n2000  Two\n3000  Three\n\t0003  C1\n";
    let mut parser = PciIdsParser::new();
    parser.parse(content).expect("document must parse");

    assert_eq!(parser.vendors().len(), 3);
    assert_eq!(parser.vendors()[0].devices.len(), 2);
    assert_eq!(parser.vendors()[0].devices[0].name, "A1");
    assert_eq!(parser.vendors()[0].devices[1].name, "A2");
    assert_eq!(parser.vendors()[1].devices.len(), 0);
    assert_eq!(parser.vendors()[2].devices.len(), 1);
    assert_eq!(parser.vendors()[2].devices[0].name, "C1");
}

// -----------------------------------------------------------------------
// Binary-search correctness
// -----------------------------------------------------------------------

#[test]
fn test_binary_search_correctness() {
    let vendors = vec![
        vendor(0x1000, "One", Vec::new()),
        vendor(0x2000, "Two", Vec::new()),
        vendor(0x3000, "Three", Vec::new()),
        vendor(0x8086, "Intel", Vec::new()),
    ];
    let db = PciDatabase::new(vendors, Vec::new());

    // Every present id is found with its record
    assert_eq!(db.find_vendor(VendorId::new(0x1000)).unwrap().name(), "One");
    assert_eq!(db.find_vendor(VendorId::new(0x2000)).unwrap().name(), "Two");
    assert_eq!(db.find_vendor(VendorId::new(0x3000)).unwrap().name(), "Three");
    assert_eq!(db.find_vendor(VendorId::new(0x8086)).unwrap().name(), "Intel");

    // Ids strictly between present ids are not found
    assert!(db.find_vendor(VendorId::new(0x1800)).is_none());
    assert!(db.find_vendor(VendorId::new(0x2fff)).is_none());
    assert!(db.find_vendor(VendorId::new(0x3001)).is_none());

    // Ids outside the array's min and max are not found
    assert!(db.find_vendor(VendorId::new(0x0000)).is_none());
    assert!(db.find_vendor(VendorId::new(0x0fff)).is_none());
    assert!(db.find_vendor(VendorId::new(0xffff)).is_none());
}

#[test]
fn test_class_binary_search() {
    let classes = vec![
        class(0x01, "Mass storage controller", Vec::new()),
        class(0x02, "Network controller", Vec::new()),
        class(0x0c, "Serial bus controller", Vec::new()),
    ];
    let db = PciDatabase::new(Vec::new(), classes);

    assert_eq!(db.find_class(DeviceClassId::new(0x02)).unwrap().name(), "Network controller");
    assert!(db.find_class(DeviceClassId::new(0x03)).is_none());
    assert!(db.find_class(DeviceClassId::new(0x00)).is_none());
    assert!(db.find_class(DeviceClassId::new(0xff)).is_none());
}

// -----------------------------------------------------------------------
// Fallback rendering
// -----------------------------------------------------------------------

#[test]
fn test_fallback_rendering() {
    let db = PciDatabase::new(Vec::new(), Vec::new());

    assert_eq!(db.vendor_name(VendorId::new(0xabcd)), "Unknown Vendor (abcd)");
    assert_eq!(db.vendor_name(VendorId::new(0x0001)), "Unknown Vendor (0001)");
    assert_eq!(
        db.device_name(VendorId::new(0x8086), DeviceId::new(0x1234)),
        "Unknown Device (1234)"
    );
    assert_eq!(
        db.subsystem_name(
            VendorId::new(0x8086),
            DeviceId::new(0x1234),
            SubvendorId::new(0x1a2b),
            SubdeviceId::new(0x3c4d)
        ),
        "Unknown Subsystem (1a2b:3c4d)"
    );
    assert_eq!(db.class_name(DeviceClassId::new(0x9f)), "Unknown Class (9f)");
}

#[test]
fn test_known_names_returned_verbatim() {
    let vendors = vec![vendor(0x8086, "Intel Corporation", vec![device(
        0x1234,
        "Fast Ethernet",
        vec![subsystem(0xabcd, 0x0001, "OEM Card")],
    )])];
    let classes = vec![class(0x02, "Network controller", vec![subclass(
        0x00,
        "Ethernet controller",
        Vec::new(),
    )])];
    let db = PciDatabase::new(vendors, classes);

    assert_eq!(db.vendor_name(VendorId::new(0x8086)), "Intel Corporation");
    assert_eq!(db.device_name(VendorId::new(0x8086), DeviceId::new(0x1234)), "Fast Ethernet");
    assert_eq!(
        db.subsystem_name(
            VendorId::new(0x8086),
            DeviceId::new(0x1234),
            SubvendorId::new(0xabcd),
            SubdeviceId::new(0x0001)
        ),
        "OEM Card"
    );
    assert_eq!(db.class_name(DeviceClassId::new(0x02)), "Network controller");
}

// -----------------------------------------------------------------------
// Query composition
// -----------------------------------------------------------------------

#[test]
fn test_query_composition_is_conjunctive() {
    let vendors = vec![
        vendor(0x1000, "Alpha Networks", Vec::new()),
        vendor(0x2000, "Beta Display", Vec::new()),
    ];
    let db = PciDatabase::new(vendors, Vec::new());

    // A substring match returns only the vendor whose name contains it
    let matches = db.query().vendor_name_contains("net").execute_vendors();
    assert_eq!(matches.len(), 1);
    assert_eq!(matches[0].id().value(), 0x1000);

    // Mismatched predicates are conjunctive: the result is empty
    let matches = db
        .query()
        .vendor_id(VendorId::new(0x1000))
        .vendor_name_contains("beta")
        .execute_vendors();
    assert!(matches.is_empty());
}

#[test]
fn test_query_case_insensitive_substring() {
    let vendors = vec![
        vendor(0x1000, "ALPHA NETWORKS", Vec::new()),
        vendor(0x2000, "beta display", Vec::new()),
    ];
    let db = PciDatabase::new(vendors, Vec::new());

    // The needle is lowercased at construction, the candidate name per
    // comparison: mixed cases on both sides still match
    let matches = db.query().vendor_name_contains("Networks").execute_vendors();
    assert_eq!(matches.len(), 1);
    assert_eq!(matches[0].id().value(), 0x1000);

    let matches = db.query().vendor_name_contains("BETA").execute_vendors();
    assert_eq!(matches.len(), 1);
    assert_eq!(matches[0].id().value(), 0x2000);
}

#[test]
fn test_execute_attaches_first_matching_class() {
    let vendors = vec![vendor(0x1000, "Alpha", vec![device(0x0001, "Card", Vec::new())])];
    let classes = vec![
        class(0x01, "Mass storage controller", Vec::new()),
        class(0x02, "Network controller", Vec::new()),
        class(0x03, "Network adjacent controller", Vec::new()),
    ];
    let db = PciDatabase::new(vendors, classes);

    // The first class matching the class filters is attached as context
    let results = db.query().class_name_contains("network").execute();
    assert_eq!(results.len(), 1);
    assert_eq!(results[0].vendor_id().value(), 0x1000);
    assert_eq!(results[0].device_id().value(), 0x0001);
    assert_eq!(results[0].class_info.unwrap().name(), "Network controller");
    assert_eq!(results[0].description(), "Alpha Card (Network controller)");

    // With class filters set and no class passing, the result is empty
    let results = db.query().class_name_contains("wireless").execute();
    assert!(results.is_empty());
}

#[test]
fn test_execute_classes_subclass_exclusion() {
    let classes = vec![
        class(0x01, "Storage", vec![subclass(0x00, "SCSI", Vec::new())]),
        class(0x02, "Network", vec![
            subclass(0x00, "Ethernet controller", Vec::new()),
            subclass(0x01, "Token ring", Vec::new()),
        ]),
    ];
    let db = PciDatabase::new(Vec::new(), classes);

    // A subclass filter keeps only classes with a passing subclass, and
    // lists exactly the passing subclasses
    let results = db.query().subclass_name_contains("ethernet").execute_classes();
    assert_eq!(results.len(), 1);
    assert_eq!(results[0].class_id().value(), 0x02);
    assert_eq!(results[0].matching_subclasses.len(), 1);
    assert_eq!(results[0].matching_subclasses[0].name(), "Ethernet controller");
    assert_eq!(results[0].description(), "Network (Ethernet controller)");

    // Without subclass filters every passing class is kept, with all its
    // subclasses listed
    let results = db.query().class_name_contains("network").execute_classes();
    assert_eq!(results.len(), 1);
    assert_eq!(results[0].matching_subclasses.len(), 2);
    assert_eq!(results[0].description(), "Network (Ethernet controller, Token ring)");
}

#[test]
fn test_search_devices_by_name() {
    let vendors = vec![
        vendor(0x1000, "Alpha", vec![
            device(0x0001, "Gigabit Ethernet NIC", Vec::new()),
            device(0x0002, "SATA Controller", Vec::new()),
        ]),
        vendor(0x2000, "Beta", vec![device(0x0003, "Fast ETHERNET Card", Vec::new())]),
    ];
    let db = PciDatabase::new(vendors, Vec::new());

    let results = db.search_devices("ethernet");
    assert_eq!(results.len(), 2);
    assert_eq!(results[0].device_id().value(), 0x0001);
    assert_eq!(results[1].device_id().value(), 0x0003);
    assert_eq!(results[0].description(), "Alpha Gigabit Ethernet NIC");
}

// -----------------------------------------------------------------------
// End-to-end example
// -----------------------------------------------------------------------

#[test]
fn test_example_end_to_end() {
    let content = "8086  Intel Corporation\n\t1234  Test Device\n\t\tabcd 0001  Test Subsystem\nC 02  Network controller\n\t00  Ethernet controller\n";

    let mut parser = PciIdsParser::new();
    parser.parse(content).expect("example document must parse");

    assert_eq!(parser.vendors().len(), 1);
    let v = &parser.vendors()[0];
    assert_eq!(v.id.value(), 0x8086);
    assert_eq!(v.name, "Intel Corporation");
    assert_eq!(v.devices.len(), 1);
    let d = &v.devices[0];
    assert_eq!(d.id.value(), 0x1234);
    assert_eq!(d.subsystems.len(), 1);
    let s = &d.subsystems[0];
    assert_eq!(s.subvendor_id.value(), 0xabcd);
    assert_eq!(s.subdevice_id.value(), 0x0001);
    assert_eq!(s.name, "Test Subsystem");

    assert_eq!(parser.classes().len(), 1);
    let c = &parser.classes()[0];
    assert_eq!(c.id.value(), 0x02);
    assert_eq!(c.name, "Network controller");
    assert_eq!(c.subclasses.len(), 1);
    let sc = &c.subclasses[0];
    assert_eq!(sc.id.value(), 0x00);
    assert_eq!(sc.name, "Ethernet controller");
    assert_eq!(sc.prog_interfaces.len(), 0);
}

// -----------------------------------------------------------------------
// Lookup composition and first-match behaviour
// -----------------------------------------------------------------------

#[test]
fn test_subsystem_first_match_wins() {
    let vendors = vec![vendor(0x8086, "Intel", vec![device(0x1234, "Card", vec![
        subsystem(0xaaaa, 0xbbbb, "First"),
        subsystem(0xaaaa, 0xbbbb, "Second"),
    ])])];
    let db = PciDatabase::new(vendors, Vec::new());

    let s = db
        .find_subsystem(
            VendorId::new(0x8086),
            DeviceId::new(0x1234),
            SubvendorId::new(0xaaaa),
            SubdeviceId::new(0xbbbb),
        )
        .unwrap();
    assert_eq!(s.name(), "First");
}

#[test]
fn test_find_prog_interface_composition() {
    let classes = vec![class(0x0c, "Serial bus controller", vec![subclass(
        0x03,
        "USB controller",
        vec![
            ProgInterface::new(ProgInterfaceId::new(0x00), String::from("OHCI")),
            ProgInterface::new(ProgInterfaceId::new(0x30), String::from("XHCI")),
        ],
    )])];
    let db = PciDatabase::new(Vec::new(), classes);

    let p = db
        .find_prog_interface(
            DeviceClassId::new(0x0c),
            SubClassId::new(0x03),
            ProgInterfaceId::new(0x30),
        )
        .unwrap();
    assert_eq!(p.name(), "XHCI");

    assert!(db
        .find_prog_interface(
            DeviceClassId::new(0x0c),
            SubClassId::new(0x03),
            ProgInterfaceId::new(0x99),
        )
        .is_none());
    assert!(db
        .find_prog_interface(
            DeviceClassId::new(0x0c),
            SubClassId::new(0x04),
            ProgInterfaceId::new(0x00),
        )
        .is_none());
}

#[test]
fn test_describe_device_full() {
    let vendors = vec![vendor(0x8086, "Intel Corporation", vec![device(
        0x1234,
        "Fast NIC",
        vec![subsystem(0x1a2b, 0x3c4d, "OEM Build")],
    )])];
    let classes = vec![class(0x02, "Network controller", vec![subclass(
        0x00,
        "Ethernet controller",
        Vec::new(),
    )])];
    let db = PciDatabase::new(vendors, classes);

    let description = db.describe_device(
        VendorId::new(0x8086),
        DeviceId::new(0x1234),
        Some(DeviceClassId::new(0x02)),
        Some(SubClassId::new(0x00)),
        None,
        Some(SubvendorId::new(0x1a2b)),
        Some(SubdeviceId::new(0x3c4d)),
    );
    assert_eq!(
        description,
        "Intel Corporation Fast NIC (Network controller - Ethernet controller) [OEM Build]"
    );

    // Absent pieces render as fallbacks
    let description = db.describe_device(
        VendorId::new(0x9999),
        DeviceId::new(0x0001),
        Some(DeviceClassId::new(0x02)),
        Some(SubClassId::new(0x7f)),
        None,
        None,
        None,
    );
    assert_eq!(
        description,
        "Unknown Vendor (9999) Unknown Device (0001) (Network controller - Unknown Subclass (7f))"
    );
}

#[test]
fn test_class_describe_device_variants() {
    let c = class(0x0c, "Serial bus controller", vec![subclass(0x03, "USB controller", vec![
        ProgInterface::new(ProgInterfaceId::new(0x30), String::from("XHCI")),
    ])]);

    assert_eq!(c.describe_device(None, None), "Serial bus controller");
    assert_eq!(
        c.describe_device(Some(SubClassId::new(0x03)), None),
        "Serial bus controller - USB controller"
    );
    assert_eq!(
        c.describe_device(Some(SubClassId::new(0x03)), Some(ProgInterfaceId::new(0x30))),
        "Serial bus controller - USB controller - XHCI"
    );
    assert_eq!(
        c.describe_device(Some(SubClassId::new(0x03)), Some(ProgInterfaceId::new(0x11))),
        "Serial bus controller - USB controller - Unknown Programming Interface (11)"
    );
    assert_eq!(
        c.describe_device(Some(SubClassId::new(0x04)), Some(ProgInterfaceId::new(0x30))),
        "Serial bus controller - Unknown Subclass (04)"
    );
}

#[test]
fn test_stats_counts_and_summary() {
    let vendors = vec![
        vendor(0x1000, "One", vec![
            device(0x0001, "A", vec![subsystem(1, 2, "S1"), subsystem(3, 4, "S2")]),
            device(0x0002, "B", Vec::new()),
        ]),
        vendor(0x2000, "Two", vec![device(0x0003, "C", Vec::new())]),
    ];
    let classes = vec![class(0x01, "Storage", vec![
        subclass(0x00, "SCSI", vec![ProgInterface::new(
            ProgInterfaceId::new(0x00),
            String::from("Plain"),
        )]),
        subclass(0x01, "IDE", Vec::new()),
    ])];
    let db = PciDatabase::new(vendors, classes);

    let stats = db.stats();
    assert_eq!(stats.vendor_count, 2);
    assert_eq!(stats.device_count, 3);
    assert_eq!(stats.subsystem_count, 2);
    assert_eq!(stats.class_count, 1);
    assert_eq!(stats.subclass_count, 2);
    assert_eq!(stats.prog_interface_count, 1);
    assert_eq!(stats.total_entries(), 11);

    assert_eq!(
        stats.summary(),
        "PCI Database Statistics:\nVendors: 2\nDevices: 3\nSubsystems: 2\nClasses: 1\nSubclasses: 2\nProgramming Interfaces: 1\nTotal Entries: 11"
    );
}

#[test]
fn test_parse_is_atomic_and_repeatable() {
    let mut parser = PciIdsParser::new();
    parser.parse("1234  Some Vendor\n").expect("must parse");
    assert_eq!(parser.vendors().len(), 1);

    // A failing parse keeps nothing, not even earlier results
    let result = parser.parse("1234  Some Vendor\nzzzz  Bad\n");
    assert_eq!(result, Err(PciError::InvalidHexValue));
    assert_eq!(parser.vendors().len(), 0);
    assert_eq!(parser.classes().len(), 0);

    // A later successful parse replaces state wholesale
    parser.parse("5678  Another Vendor\n").expect("must parse");
    assert_eq!(parser.vendors().len(), 1);
    assert_eq!(parser.vendors()[0].id.value(), 0x5678);
}

#[test]
fn test_vendor_hex_id_shorter_than_four_digits() {
    // Hex fields need not be zero-padded for the decoders; the sniff that
    // leaves class mode, though, relies on the exact 4-hex shape
    let mut parser = PciIdsParser::new();
    parser.parse("1a2  Short Id Vendor\n").expect("short hex id parses");
    assert_eq!(parser.vendors()[0].id.value(), 0x01a2);
}

#[test]
fn test_class_line_requires_marker() {
    // The class decoder insists on the literal marker
    assert_eq!(
        ids_rs::parser::parse_class_line("02  Network controller"),
        Err(PciError::InvalidFormat)
    );
    let (id, name) = ids_rs::parser::parse_class_line("C 02  Network controller").unwrap();
    assert_eq!(id.value(), 0x02);
    assert_eq!(name, "Network controller");

    // A lone separator-less line is a format error
    let mut parser = PciIdsParser::new();
    assert_eq!(parser.parse("justoneword"), Err(PciError::InvalidFormat));

    // A vendor-mode line whose id field holds a non-hex character fails
    let mut parser = PciIdsParser::new();
    assert_eq!(parser.parse("G02  Missing Marker\n"), Err(PciError::InvalidHexValue));
}

#[test]
fn test_record_equality_is_by_id() {
    // Records compare by identifier alone, whatever their names hold
    let a = vendor(0x1000, "Name A", Vec::new());
    let b = vendor(0x1000, "Name B", Vec::new());
    let c = vendor(0x2000, "Name A", Vec::new());
    assert_eq!(a, b);
    assert_ne!(a, c);
    assert!(a < c);
    assert!(c > b);

    let s1 = subsystem(0x0001, 0x0002, "X");
    let s2 = subsystem(0x0001, 0x0002, "Y");
    let s3 = subsystem(0x0001, 0x0003, "X");
    assert_eq!(s1, s2);
    assert_ne!(s1, s3);

    let d1 = device(0x0001, "A", Vec::new());
    let d2 = device(0x0001, "B", Vec::new());
    assert_eq!(d1, d2);

    let c1 = class(0x01, "One", Vec::new());
    let c2 = class(0x02, "Two", Vec::new());
    assert_ne!(c1, c2);
    assert!(c1 < c2);
}

#[test]
fn test_uppercase_hex_ids_parse() {
    let mut parser = PciIdsParser::new();
    parser.parse("ABCD  Upper Vendor\n\tEF01  Upper Device\n").expect("uppercase hex parses");
    assert_eq!(parser.vendors()[0].id.value(), 0xabcd);
    assert_eq!(parser.vendors()[0].devices[0].id.value(), 0xef01);
}

#[test]
fn test_devices_by_vendor() {
    let vendors = vec![vendor(0x1000, "One", vec![
        device(0x0001, "A", Vec::new()),
        device(0x0002, "B", Vec::new()),
    ])];
    let db = PciDatabase::new(vendors, Vec::new());

    let ds = db.devices_by_vendor(VendorId::new(0x1000)).unwrap();
    assert_eq!(ds.len(), 2);
    assert_eq!(ds[0].name(), "A");
    assert!(db.devices_by_vendor(VendorId::new(0x2000)).is_none());
}

#[test]
fn test_generate_code_header() {
    let parser = PciIdsParser::new();
    let code = parser.generate_code();
    assert_eq!(
        code,
        "// Generated PCI vendor and device data\nuse crate::vendors::Vendor;\nuse crate::devices::{Device, Subsystem};\nuse crate::classes::{DeviceClass, SubClass, ProgInterface};\nuse crate::types::*;\n\n"
    );
}

#[test]
fn test_device_and_subsystem_accessors() {
    let d = device(0x0001, "Card", vec![subsystem(0xaaaa, 0xbbbb, "Sub")]);
    assert_eq!(d.id().value(), 0x0001);
    assert_eq!(d.name(), "Card");
    assert_eq!(d.subsystem_count(), 1);
    assert!(d.has_subsystem(SubvendorId::new(0xaaaa), SubdeviceId::new(0xbbbb)));
    assert!(!d.has_subsystem(SubvendorId::new(0xaaaa), SubdeviceId::new(0x0000)));

    let v = vendor(0x1000, "Maker", vec![device(0x0001, "Card", Vec::new())]);
    assert_eq!(v.device_count(), 1);
    assert!(v.has_device(DeviceId::new(0x0001)));
    assert!(!v.has_device(DeviceId::new(0x0002)));
    assert_eq!(v.find_device(DeviceId::new(0x0001)).unwrap().name(), "Card");

    let c = class(0x02, "Network", vec![subclass(0x00, "Ethernet", Vec::new())]);
    assert_eq!(c.subclass_count(), 1);
    assert!(c.has_subclass(SubClassId::new(0x00)));
    assert!(!c.has_subclass(SubClassId::new(0x01)));

    let sc = subclass(0x00, "Ethernet", vec![ProgInterface::new(
        ProgInterfaceId::new(0x20),
        String::from("EHCI"),
    )]);
    assert_eq!(sc.prog_interface_count(), 1);
    assert!(sc.has_prog_interface(ProgInterfaceId::new(0x20)));
    assert!(!sc.has_prog_interface(ProgInterfaceId::new(0x21)));
}

#[test]
fn test_sniff_returns_to_vendor_mode() {
    // After a class section, a depth-0 line of the exact 4-hex + two
    // spaces shape switches back to vendor mode
    let content = "C 02  Network controller\n\t00  Ethernet controller\n8086  Intel Corporation\n\t1234  Device\n";
    let mut parser = PciIdsParser::new();
    parser.parse(content).expect("must parse");

    assert_eq!(parser.classes().len(), 1);
    assert_eq!(parser.classes()[0].subclasses.len(), 1);
    assert_eq!(parser.vendors().len(), 1);
    assert_eq!(parser.vendors()[0].name, "Intel Corporation");
    assert_eq!(parser.vendors()[0].devices.len(), 1);
}

#[test]
fn test_non_sniffable_line_in_class_mode_is_dropped() {
    // A depth-0 class-mode line that is neither a class marker nor of the
    // 4-hex + two spaces shape closes the open class and is ignored
    let content = "C 02  Network controller\n\t00  Ethernet controller\n1a2  Short Vendor\n";
    let mut parser = PciIdsParser::new();
    parser.parse(content).expect("must parse");

    assert_eq!(parser.classes().len(), 1);
    assert_eq!(parser.vendors().len(), 0);
}
