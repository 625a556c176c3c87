//! Parser for the identifier database text format.
//!
//! The format is line-oriented and tab-indented. Vendor, device and
//! subsystem lines form one tree; class, subclass and programming-interface
//! lines form another. A single pass consumes both, switching between the
//! two grammars on a textual heuristic.

use vstd::prelude::*;
use crate::error::PciError;
use crate::error::PciResult;
use crate::hex::all_hex_digits;
use crate::hex::hex_value_of;
use crate::hex::is_hex_digit;
use crate::hex::is_hex_digit_char;
use crate::hex::parse_hex_u16;
use crate::hex::parse_hex_u8;
use crate::text::find_sep;
use crate::text::find_sep_from;
use crate::text::leading_tabs_spec;
use crate::text::count_leading_tabs;
use crate::text::split_double_space;
use crate::text::split_lines;
use crate::text::split_ws;
use crate::text::trim;
use crate::text::trim_spec;
use crate::text::views_of;
use crate::text::ws_tokens;
use crate::types::DeviceClassId;
use crate::types::DeviceId;
use crate::types::ProgInterfaceId;
use crate::types::SubClassId;
use crate::types::SubdeviceId;
use crate::types::SubvendorId;
use crate::types::VendorId;

verus! {

// ----------------------------------------------------------------------
// Builders and their mathematical shadows
// ----------------------------------------------------------------------

/// Parse-time accumulator for a subsystem record.
#[derive(Debug)]
pub struct SubsystemBuilder {
    /// The subvendor ID
    pub subvendor_id: SubvendorId,
    /// The subdevice ID
    pub subdevice_id: SubdeviceId,
    /// The subsystem name
    pub name: String,
}

/// The mathematical shadow of a subsystem builder.
#[verifier::ext_equal]
pub ghost struct GSubsystem {
    /// The raw subvendor identifier
    pub subvendor_id: u16,
    /// The raw subdevice identifier
    pub subdevice_id: u16,
    /// The subsystem name
    pub name: Seq<char>,
}

impl View for SubsystemBuilder {
    type V = GSubsystem;

    open spec fn view(&self) -> GSubsystem {
        GSubsystem {
            subvendor_id: self.subvendor_id.spec_value(),
            subdevice_id: self.subdevice_id.spec_value(),
            name: self.name@,
        }
    }
}

/// Parse-time accumulator for a device record.
#[derive(Debug)]
pub struct DeviceBuilder {
    /// The device ID
    pub id: DeviceId,
    /// The device name
    pub name: String,
    /// The subsystems for this device
    pub subsystems: Vec<SubsystemBuilder>,
}

/// The mathematical shadow of a device builder.
#[verifier::ext_equal]
pub ghost struct GDevice {
    /// The raw device identifier
    pub id: u16,
    /// The device name
    pub name: Seq<char>,
    /// The subsystems nested beneath the device, in document order
    pub subsystems: Seq<GSubsystem>,
}

impl View for DeviceBuilder {
    type V = GDevice;

    open spec fn view(&self) -> GDevice {
        GDevice {
            id: self.id.spec_value(),
            name: self.name@,
            subsystems: self.subsystems@.map_values(|s: SubsystemBuilder| s@),
        }
    }
}

/// Parse-time accumulator for a vendor record.
#[derive(Debug)]
pub struct VendorBuilder {
    /// The vendor ID
    pub id: VendorId,
    /// The vendor name
    pub name: String,
    /// The devices for this vendor
    pub devices: Vec<DeviceBuilder>,
}

/// The mathematical shadow of a vendor builder.
#[verifier::ext_equal]
pub ghost struct GVendor {
    /// The raw vendor identifier
    pub id: u16,
    /// The vendor name
    pub name: Seq<char>,
    /// The devices nested beneath the vendor, in document order
    pub devices: Seq<GDevice>,
}

impl View for VendorBuilder {
    type V = GVendor;

    open spec fn view(&self) -> GVendor {
        GVendor {
            id: self.id.spec_value(),
            name: self.name@,
            devices: self.devices@.map_values(|d: DeviceBuilder| d@),
        }
    }
}

/// Parse-time accumulator for a programming interface record.
#[derive(Debug)]
pub struct ProgInterfaceBuilder {
    /// The programming interface ID
    pub id: ProgInterfaceId,
    /// The programming interface name
    pub name: String,
}

/// The mathematical shadow of a programming interface builder.
#[verifier::ext_equal]
pub ghost struct GProgInterface {
    /// The raw programming interface identifier
    pub id: u8,
    /// The programming interface name
    pub name: Seq<char>,
}

impl View for ProgInterfaceBuilder {
    type V = GProgInterface;

    open spec fn view(&self) -> GProgInterface {
        GProgInterface { id: self.id.spec_value(), name: self.name@ }
    }
}

/// Parse-time accumulator for a subclass record.
#[derive(Debug)]
pub struct SubClassBuilder {
    /// The subclass ID
    pub id: SubClassId,
    /// The subclass name
    pub name: String,
    /// The programming interfaces for this subclass
    pub prog_interfaces: Vec<ProgInterfaceBuilder>,
}

/// The mathematical shadow of a subclass builder.
#[verifier::ext_equal]
pub ghost struct GSubClass {
    /// The raw subclass identifier
    pub id: u8,
    /// The subclass name
    pub name: Seq<char>,
    /// The programming interfaces nested beneath the subclass, in document order
    pub prog_interfaces: Seq<GProgInterface>,
}

impl View for SubClassBuilder {
    type V = GSubClass;

    open spec fn view(&self) -> GSubClass {
        GSubClass {
            id: self.id.spec_value(),
            name: self.name@,
            prog_interfaces: self.prog_interfaces@.map_values(|p: ProgInterfaceBuilder| p@),
        }
    }
}

/// Parse-time accumulator for a device class record.
#[derive(Debug)]
pub struct ClassBuilder {
    /// The device class ID
    pub id: DeviceClassId,
    /// The device class name
    pub name: String,
    /// The subclasses for this device class
    pub subclasses: Vec<SubClassBuilder>,
}

/// The mathematical shadow of a class builder.
#[verifier::ext_equal]
pub ghost struct GClass {
    /// The raw device class identifier
    pub id: u8,
    /// The device class name
    pub name: Seq<char>,
    /// The subclasses nested beneath the class, in document order
    pub subclasses: Seq<GSubClass>,
}

impl View for ClassBuilder {
    type V = GClass;

    open spec fn view(&self) -> GClass {
        GClass {
            id: self.id.spec_value(),
            name: self.name@,
            subclasses: self.subclasses@.map_values(|s: SubClassBuilder| s@),
        }
    }
}

// ----------------------------------------------------------------------
// Line decoders
// ----------------------------------------------------------------------

/// Decode a line of shape `XX..  Name`: the field before the first
/// double-space separator read as hex below `bound`, the rest trimmed as
/// the name.
pub open spec fn decode_id_name_line(s: Seq<char>, bound: nat) -> Result<
    (nat, Seq<char>),
    PciError,
> {
    if find_sep(s) < 0 {
        Err(PciError::InvalidFormat)
    } else {
        let idpart = trim_spec(s.take(find_sep(s)));
        if crate::hex::valid_hex(idpart, bound) {
            Ok((hex_value_of(idpart), trim_spec(s.skip(find_sep(s) + 2))))
        } else {
            Err(PciError::InvalidHexValue)
        }
    }
}

/// Decode a subsystem line of shape `XXXX XXXX  Name`: exactly two
/// whitespace-separated 16-bit hex fields before the separator.
pub open spec fn decode_subsystem_line(s: Seq<char>) -> Result<(nat, nat, Seq<char>), PciError> {
    if find_sep(s) < 0 {
        Err(PciError::InvalidFormat)
    } else {
        let toks = ws_tokens(s.take(find_sep(s)));
        if toks.len() != 2 {
            Err(PciError::InvalidFormat)
        } else if !crate::hex::valid_hex(toks[0], 0x10000) {
            Err(PciError::InvalidHexValue)
        } else if !crate::hex::valid_hex(toks[1], 0x10000) {
            Err(PciError::InvalidHexValue)
        } else {
            Ok((hex_value_of(toks[0]), hex_value_of(toks[1]), trim_spec(s.skip(find_sep(s) + 2))))
        }
    }
}

/// True when a line opens with the class marker: a `C` and one space.
pub open spec fn class_prefixed(s: Seq<char>) -> bool {
    s.len() >= 2 && s[0] == 'C' && s[1] == ' '
}

/// Decode a class line of shape `C XX  Name`.
pub open spec fn decode_class_line(s: Seq<char>) -> Result<(nat, Seq<char>), PciError> {
    if !class_prefixed(s) {
        Err(PciError::InvalidFormat)
    } else {
        decode_id_name_line(s.skip(2), 0x100)
    }
}

/// Parse a vendor line: `XXXX  Name`.
pub fn parse_vendor_line(line: &str) -> (r: Result<(VendorId, String), PciError>)
    ensures
        match r {
            Ok((id, name)) => decode_id_name_line(line@, 0x10000) == Ok::<
                (nat, Seq<char>),
                PciError,
            >((id.spec_value() as nat, name@)),
            Err(e) => decode_id_name_line(line@, 0x10000) == Err::<(nat, Seq<char>), PciError>(e),
        },
{
    match split_double_space(line) {
        None => Err(PciError::InvalidFormat),
        Some((l, rest)) => {
            match parse_hex_u16(trim(l)) {
                Err(e) => Err(e),
                Ok(v) => Ok((VendorId::new(v), String::from_str(trim(rest)))),
            }
        },
    }
}

/// Parse a device line: `XXXX  Name`.
pub fn parse_device_line(line: &str) -> (r: Result<(DeviceId, String), PciError>)
    ensures
        match r {
            Ok((id, name)) => decode_id_name_line(line@, 0x10000) == Ok::<
                (nat, Seq<char>),
                PciError,
            >((id.spec_value() as nat, name@)),
            Err(e) => decode_id_name_line(line@, 0x10000) == Err::<(nat, Seq<char>), PciError>(e),
        },
{
    match split_double_space(line) {
        None => Err(PciError::InvalidFormat),
        Some((l, rest)) => {
            match parse_hex_u16(trim(l)) {
                Err(e) => Err(e),
                Ok(v) => Ok((DeviceId::new(v), String::from_str(trim(rest)))),
            }
        },
    }
}

/// Parse a subsystem line: `XXXX XXXX  Name`.
pub fn parse_subsystem_line(line: &str) -> (r: Result<
    (SubvendorId, SubdeviceId, String),
    PciError,
>)
    ensures
        match r {
            Ok((sv, sd, name)) => decode_subsystem_line(line@) == Ok::<
                (nat, nat, Seq<char>),
                PciError,
            >((sv.spec_value() as nat, sd.spec_value() as nat, name@)),
            Err(e) => decode_subsystem_line(line@) == Err::<(nat, nat, Seq<char>), PciError>(e),
        },
{
    match split_double_space(line) {
        None => Err(PciError::InvalidFormat),
        Some((l, rest)) => {
            let ids = split_ws(l);
            proof {
                assert(views_of(ids@).len() == ids@.len());
            }
            if ids.len() != 2 {
                return Err(PciError::InvalidFormat);
            }
            proof {
                assert(views_of(ids@)[0] == ids@[0]@);
                assert(views_of(ids@)[1] == ids@[1]@);
            }
            let subvendor = match parse_hex_u16(ids[0]) {
                Err(e) => {
                    return Err(e);
                },
                Ok(v) => v,
            };
            let subdevice = match parse_hex_u16(ids[1]) {
                Err(e) => {
                    return Err(e);
                },
                Ok(v) => v,
            };
            Ok(
                (
                    SubvendorId::new(subvendor),
                    SubdeviceId::new(subdevice),
                    String::from_str(trim(rest)),
                ),
            )
        },
    }
}

/// Test whether a line opens with the class marker `C` plus space.
pub fn is_class_line(line: &str) -> (r: bool)
    ensures
        r == class_prefixed(line@),
{
    let n = line.unicode_len();
    n >= 2 && line.get_char(0) == 'C' && line.get_char(1) == ' '
}

/// Parse a class line: `C XX  Name`.
pub fn parse_class_line(line: &str) -> (r: Result<(DeviceClassId, String), PciError>)
    ensures
        match r {
            Ok((id, name)) => decode_class_line(line@) == Ok::<(nat, Seq<char>), PciError>(
                (id.spec_value() as nat, name@),
            ),
            Err(e) => decode_class_line(line@) == Err::<(nat, Seq<char>), PciError>(e),
        },
{
    if !is_class_line(line) {
        return Err(PciError::InvalidFormat);
    }
    let rest = line.substring_char(2, line.unicode_len());
    proof {
        assert(rest@ =~= line@.skip(2));
    }
    match split_double_space(rest) {
        None => Err(PciError::InvalidFormat),
        Some((l, tail)) => {
            match parse_hex_u8(trim(l)) {
                Err(e) => Err(e),
                Ok(v) => Ok((DeviceClassId::new(v), String::from_str(trim(tail)))),
            }
        },
    }
}

/// Parse a subclass line: `XX  Name`.
pub fn parse_subclass_line(line: &str) -> (r: Result<(SubClassId, String), PciError>)
    ensures
        match r {
            Ok((id, name)) => decode_id_name_line(line@, 0x100) == Ok::<
                (nat, Seq<char>),
                PciError,
            >((id.spec_value() as nat, name@)),
            Err(e) => decode_id_name_line(line@, 0x100) == Err::<(nat, Seq<char>), PciError>(e),
        },
{
    match split_double_space(line) {
        None => Err(PciError::InvalidFormat),
        Some((l, rest)) => {
            match parse_hex_u8(trim(l)) {
                Err(e) => Err(e),
                Ok(v) => Ok((SubClassId::new(v), String::from_str(trim(rest)))),
            }
        },
    }
}

/// Parse a programming interface line: `XX  Name`.
pub fn parse_prog_interface_line(line: &str) -> (r: Result<(ProgInterfaceId, String), PciError>)
    ensures
        match r {
            Ok((id, name)) => decode_id_name_line(line@, 0x100) == Ok::<
                (nat, Seq<char>),
                PciError,
            >((id.spec_value() as nat, name@)),
            Err(e) => decode_id_name_line(line@, 0x100) == Err::<(nat, Seq<char>), PciError>(e),
        },
{
    match split_double_space(line) {
        None => Err(PciError::InvalidFormat),
        Some((l, rest)) => {
            match parse_hex_u8(trim(l)) {
                Err(e) => Err(e),
                Ok(v) => Ok((ProgInterfaceId::new(v), String::from_str(trim(rest)))),
            }
        },
    }
}

// ----------------------------------------------------------------------
// Mode heuristics
// ----------------------------------------------------------------------

/// The vendor-line sniff that switches the parser back from class mode:
/// four hex digits followed by two spaces. The format has no terminator
/// for the class section, so this exact shape is relied upon; a depth-0
/// class-mode line that happens to match it is read as a vendor header.
pub open spec fn looks_like_vendor(t: Seq<char>) -> bool {
    t.len() >= 6 && t[4] == ' ' && t[5] == ' ' && all_hex_digits(t.take(4))
}

/// Executable test for [`looks_like_vendor`].
pub fn is_vendor_shaped(t: &str) -> (r: bool)
    ensures
        r == looks_like_vendor(t@),
{
    let n = t.unicode_len();
    if n < 6 {
        return false;
    }
    if t.get_char(4) != ' ' || t.get_char(5) != ' ' {
        return false;
    }
    let mut i: usize = 0;
    while i < 4
        invariant
            i <= 4,
            n == t@.len(),
            n >= 6,
            forall|k: int| 0 <= k < i ==> is_hex_digit(#[trigger] t@[k]),
        decreases 4 - i,
    {
        if !is_hex_digit_char(t.get_char(i)) {
            proof {
                assert(t@.take(4)[i as int] == t@[i as int]);
            }
            return false;
        }
        i = i + 1;
    }
    proof {
        assert forall|k: int| 0 <= k < t@.take(4).len() implies is_hex_digit(
            #[trigger] t@.take(4)[k],
        ) by {
            assert(t@.take(4)[k] == t@[k]);
        }
    }
    true
}

// ----------------------------------------------------------------------
// The section-mode state machine, in mathematical form
// ----------------------------------------------------------------------

/// Which of the two grammars the parser is currently reading.
#[derive(Debug, Clone, Copy, PartialEq, Eq, Structural)]
pub enum ParsingMode {
    /// Reading vendor, device and subsystem lines
    Vendors,
    /// Reading class, subclass and programming-interface lines
    Classes,
}

/// The whole parser state between lines: the active mode, the finished
/// records, and at most one open record per depth of the active tree.
#[verifier::ext_equal]
pub ghost struct ParseState {
    /// The active section mode
    pub mode: ParsingMode,
    /// Finished vendors, in document order
    pub vendors: Seq<GVendor>,
    /// Finished classes, in document order
    pub classes: Seq<GClass>,
    /// The open vendor, if any
    pub cur_vendor: Option<GVendor>,
    /// The open device, if any
    pub cur_device: Option<GDevice>,
    /// The open class, if any
    pub cur_class: Option<GClass>,
    /// The open subclass, if any
    pub cur_subclass: Option<GSubClass>,
}

/// The state before any line: vendor mode, nothing read, nothing open.
pub open spec fn init_state() -> ParseState {
    ParseState {
        mode: ParsingMode::Vendors,
        vendors: Seq::empty(),
        classes: Seq::empty(),
        cur_vendor: None,
        cur_device: None,
        cur_class: None,
        cur_subclass: None,
    }
}

/// The vendor with the open device appended, when one is open.
pub open spec fn vendor_with_device(v: GVendor, cd: Option<GDevice>) -> GVendor {
    match cd {
        Some(d) => GVendor { id: v.id, name: v.name, devices: v.devices.push(d) },
        None => v,
    }
}

/// Close the open device into the open vendor, then the open vendor into
/// the vendor list; an open device with no open vendor is dropped.
pub open spec fn fin_vendors(
    vendors: Seq<GVendor>,
    cv: Option<GVendor>,
    cd: Option<GDevice>,
) -> Seq<GVendor> {
    match cv {
        Some(v) => vendors.push(vendor_with_device(v, cd)),
        None => vendors,
    }
}

/// The class with the open subclass appended, when one is open.
pub open spec fn class_with_subclass(c: GClass, cs: Option<GSubClass>) -> GClass {
    match cs {
        Some(s) => GClass { id: c.id, name: c.name, subclasses: c.subclasses.push(s) },
        None => c,
    }
}

/// Close the open subclass into the open class, then the open class into
/// the class list; an open subclass with no open class is dropped.
pub open spec fn fin_classes(
    classes: Seq<GClass>,
    cc: Option<GClass>,
    cs: Option<GSubClass>,
) -> Seq<GClass> {
    match cc {
        Some(c) => classes.push(class_with_subclass(c, cs)),
        None => classes,
    }
}

/// The state with the vendor-side records finalized.
pub open spec fn state_fin_vd(st: ParseState) -> ParseState {
    ParseState {
        vendors: fin_vendors(st.vendors, st.cur_vendor, st.cur_device),
        cur_vendor: None,
        cur_device: None,
        ..st
    }
}

/// The state with the class-side records finalized.
pub open spec fn state_fin_cs(st: ParseState) -> ParseState {
    ParseState {
        classes: fin_classes(st.classes, st.cur_class, st.cur_subclass),
        cur_class: None,
        cur_subclass: None,
        ..st
    }
}

/// The open vendor after a sibling device line closed the previous open
/// device into it; a device with no open vendor is dropped.
pub open spec fn push_open_device(cv: Option<GVendor>, cd: Option<GDevice>) -> Option<GVendor> {
    match (cv, cd) {
        (Some(v), Some(d)) => Some(
            GVendor { id: v.id, name: v.name, devices: v.devices.push(d) },
        ),
        _ => cv,
    }
}

/// The open class after a sibling subclass line closed the previous open
/// subclass into it; a subclass with no open class is dropped.
pub open spec fn push_open_subclass(cc: Option<GClass>, cs: Option<GSubClass>) -> Option<
    GClass,
> {
    match (cc, cs) {
        (Some(c), Some(s)) => Some(
            GClass { id: c.id, name: c.name, subclasses: c.subclasses.push(s) },
        ),
        _ => cc,
    }
}

/// One vendor-section line at the given depth, over the vendor-side state.
pub open spec fn vsec(
    vendors: Seq<GVendor>,
    cv: Option<GVendor>,
    cd: Option<GDevice>,
    t: Seq<char>,
    depth: nat,
) -> Result<(Seq<GVendor>, Option<GVendor>, Option<GDevice>), PciError> {
    if depth == 0 {
        match decode_id_name_line(t, 0x10000) {
            Ok(v) => Ok(
                (
                    fin_vendors(vendors, cv, cd),
                    Some(GVendor { id: v.0 as u16, name: v.1, devices: Seq::empty() }),
                    None,
                ),
            ),
            Err(e) => Err(e),
        }
    } else if depth == 1 {
        match decode_id_name_line(t, 0x10000) {
            Ok(v) => Ok(
                (
                    vendors,
                    push_open_device(cv, cd),
                    Some(GDevice { id: v.0 as u16, name: v.1, subsystems: Seq::empty() }),
                ),
            ),
            Err(e) => Err(e),
        }
    } else if depth == 2 {
        match cd {
            Some(d) => match decode_subsystem_line(t) {
                Ok(v) => Ok(
                    (
                        vendors,
                        cv,
                        Some(
                            GDevice {
                                id: d.id,
                                name: d.name,
                                subsystems: d.subsystems.push(
                                    GSubsystem {
                                        subvendor_id: v.0 as u16,
                                        subdevice_id: v.1 as u16,
                                        name: v.2,
                                    },
                                ),
                            },
                        ),
                    ),
                ),
                Err(e) => Err(e),
            },
            None => Ok((vendors, cv, cd)),
        }
    } else {
        Err(PciError::InvalidIndentation)
    }
}

/// One class-section line at the given depth, over the class-side state.
pub open spec fn csec(
    classes: Seq<GClass>,
    cc: Option<GClass>,
    cs: Option<GSubClass>,
    t: Seq<char>,
    depth: nat,
) -> Result<(Seq<GClass>, Option<GClass>, Option<GSubClass>), PciError> {
    if depth == 0 {
        if class_prefixed(t) {
            match decode_class_line(t) {
                Ok(v) => Ok(
                    (
                        fin_classes(classes, cc, cs),
                        Some(GClass { id: v.0 as u8, name: v.1, subclasses: Seq::empty() }),
                        None,
                    ),
                ),
                Err(e) => Err(e),
            }
        } else {
            Ok((fin_classes(classes, cc, cs), None, None))
        }
    } else if depth == 1 {
        match decode_id_name_line(t, 0x100) {
            Ok(v) => Ok(
                (
                    classes,
                    push_open_subclass(cc, cs),
                    Some(GSubClass { id: v.0 as u8, name: v.1, prog_interfaces: Seq::empty() }),
                ),
            ),
            Err(e) => Err(e),
        }
    } else if depth == 2 {
        match cs {
            Some(sc) => match decode_id_name_line(t, 0x100) {
                Ok(v) => Ok(
                    (
                        classes,
                        cc,
                        Some(
                            GSubClass {
                                id: sc.id,
                                name: sc.name,
                                prog_interfaces: sc.prog_interfaces.push(
                                    GProgInterface { id: v.0 as u8, name: v.1 },
                                ),
                            },
                        ),
                    ),
                ),
                Err(e) => Err(e),
            },
            None => Ok((classes, cc, cs)),
        }
    } else {
        Err(PciError::InvalidIndentation)
    }
}

/// One line of the document: skip blanks and comments, apply the mode
/// transitions, then decode at the line's depth in the active mode.
pub open spec fn step_line(st: ParseState, line: Seq<char>) -> Result<ParseState, PciError> {
    if line_skippable(line) {
        Ok(st)
    } else {
        let t = trim_spec(line);
        let d = leading_tabs_spec(line);
        let st1 = if class_prefixed(t) && d == 0 {
            ParseState { mode: ParsingMode::Classes, ..state_fin_vd(st) }
        } else if d == 0 && !class_prefixed(t) && st.mode == ParsingMode::Classes
            && looks_like_vendor(t) {
            ParseState { mode: ParsingMode::Vendors, ..state_fin_cs(st) }
        } else {
            st
        };
        if st1.mode == ParsingMode::Vendors {
            match vsec(st1.vendors, st1.cur_vendor, st1.cur_device, t, d) {
                Ok(v) => Ok(ParseState { vendors: v.0, cur_vendor: v.1, cur_device: v.2, ..st1 }),
                Err(e) => Err(e),
            }
        } else {
            match csec(st1.classes, st1.cur_class, st1.cur_subclass, t, d) {
                Ok(v) => Ok(ParseState { classes: v.0, cur_class: v.1, cur_subclass: v.2, ..st1 }),
                Err(e) => Err(e),
            }
        }
    }
}

/// Fold [`step_line`] over the lines from index `i` on.
pub open spec fn run_lines_from(st: ParseState, lines: Seq<Seq<char>>, i: int) -> Result<
    ParseState,
    PciError,
>
    decreases lines.len() - i,
{
    if i < 0 || i >= lines.len() {
        Ok(st)
    } else {
        match step_line(st, lines[i]) {
            Ok(st2) => run_lines_from(st2, lines, i + 1),
            Err(e) => Err(e),
        }
    }
}

/// What parsing a whole document yields: the vendor and class trees in
/// document order, or the first error. The parse is atomic; nothing is
/// kept on error.
pub open spec fn parse_spec(content: Seq<char>) -> Result<(Seq<GVendor>, Seq<GClass>), PciError> {
    match run_lines_from(init_state(), crate::text::split_lines_spec(content), 0) {
        Ok(st) => {
            let st1 = state_fin_cs(state_fin_vd(st));
            Ok((st1.vendors, st1.classes))
        },
        Err(e) => Err(e),
    }
}

// ----------------------------------------------------------------------
// Laws of the state machine
// ----------------------------------------------------------------------

/// Depth validation: a record line indented three or more tabs aborts the
/// parse with `InvalidIndentation`, whatever the state and mode.
pub proof fn lemma_deep_indentation_rejected(st: ParseState, line: Seq<char>)
    requires
        !line_skippable(line),
        leading_tabs_spec(line) >= 3,
    ensures
        step_line(st, line) == Err::<ParseState, PciError>(PciError::InvalidIndentation),
{
}

/// Depth validation over whole documents: a document that parses
/// successfully has no record line indented three or more tabs.
pub proof fn lemma_parse_rejects_deep_indentation(content: Seq<char>, k: int)
    requires
        parse_spec(content) is Ok,
        0 <= k < crate::text::split_lines_spec(content).len(),
        !line_skippable(crate::text::split_lines_spec(content)[k]),
    ensures
        leading_tabs_spec(crate::text::split_lines_spec(content)[k]) <= 2,
{
    lemma_run_ok_no_deep_tabs(init_state(), crate::text::split_lines_spec(content), 0, k);
}

proof fn lemma_run_ok_no_deep_tabs(st: ParseState, lines: Seq<Seq<char>>, i: int, k: int)
    requires
        0 <= i <= k < lines.len(),
        run_lines_from(st, lines, i) is Ok,
        !line_skippable(lines[k]),
    ensures
        leading_tabs_spec(lines[k]) <= 2,
    decreases k - i,
{
    if leading_tabs_spec(lines[k]) >= 3 {
        if i == k {
            lemma_deep_indentation_rejected(st, lines[k]);
        } else {
            match step_line(st, lines[i]) {
                Ok(st2) => {
                    lemma_run_ok_no_deep_tabs(st2, lines, i + 1, k);
                },
                Err(_) => {},
            }
        }
    }
}

/// A device-shaped payload two tabs deep sits in the subsystem slot:
/// with a device open it fails the subsystem decoder's two-field shape,
/// so the parse aborts with `InvalidFormat` (with no device open, the
/// line is silently dropped instead).
pub proof fn lemma_device_shaped_at_depth_two_rejected(st: ParseState, line: Seq<char>)
    requires
        !line_skippable(line),
        leading_tabs_spec(line) == 2,
        looks_like_vendor(trim_spec(line)),
        st.mode == ParsingMode::Vendors,
        st.cur_device is Some,
    ensures
        step_line(st, line) == Err::<ParseState, PciError>(PciError::InvalidFormat),
{
    let t = trim_spec(line);
    assert forall|c: char| crate::hex::is_hex_digit(c) implies !crate::text::is_space_char(
        c,
    ) by {}
    assert(find_sep_from(t, 4) == 4);
    assert(t[3] != ' ' && t[2] != ' ' && t[1] != ' ' && t[0] != ' ') by {
        assert(crate::hex::is_hex_digit(t.take(4)[0]));
        assert(crate::hex::is_hex_digit(t.take(4)[1]));
        assert(crate::hex::is_hex_digit(t.take(4)[2]));
        assert(crate::hex::is_hex_digit(t.take(4)[3]));
    }
    assert(find_sep_from(t, 3) == 4);
    assert(find_sep_from(t, 2) == 4);
    assert(find_sep_from(t, 1) == 4);
    assert(find_sep(t) == 4);

    let idpart = t.take(4);
    assert(forall|k: int| 0 <= k < 4 ==> !crate::text::is_space_char(#[trigger] idpart[k])) by {
        assert(forall|k: int|
            0 <= k < 4 ==> crate::hex::is_hex_digit(#[trigger] t.take(4)[k]));
    }
    assert(crate::text::token_end_from(idpart, 4) == 4);
    assert(crate::text::token_end_from(idpart, 3) == 4);
    assert(crate::text::token_end_from(idpart, 2) == 4);
    assert(crate::text::token_end_from(idpart, 1) == 4);
    assert(crate::text::token_end_from(idpart, 0) == 4);
    assert(ws_tokens(idpart) == seq![idpart.subrange(0, 4)] + crate::text::ws_tokens_from(
        idpart,
        4,
    ));
    assert(ws_tokens(idpart).len() == 1);
    assert(decode_subsystem_line(t) == Err::<(nat, nat, Seq<char>), PciError>(
        PciError::InvalidFormat,
    ));
}

/// True when the line opens a new vendor record in the given state: a
/// depth-0 line that is no class marker, read in vendor mode (or switching
/// back to it by the vendor-line sniff), and decoding as a vendor header.
pub open spec fn opens_vendor(st: ParseState, line: Seq<char>) -> bool {
    let t = trim_spec(line);
    &&& !line_skippable(line)
    &&& leading_tabs_spec(line) == 0
    &&& !class_prefixed(t)
    &&& (st.mode == ParsingMode::Vendors || looks_like_vendor(t))
    &&& decode_id_name_line(t, 0x10000) is Ok
}

/// The number of vendor-opening lines of a run that completes without
/// error; a step that fails contributes nothing past the failure.
pub open spec fn vendor_header_count(st: ParseState, lines: Seq<Seq<char>>, i: int) -> nat
    decreases lines.len() - i,
{
    if i < 0 || i >= lines.len() {
        0
    } else {
        match step_line(st, lines[i]) {
            Ok(st2) => (if opens_vendor(st, lines[i]) {
                1nat
            } else {
                0nat
            }) + vendor_header_count(st2, lines, i + 1),
            Err(_) => 0,
        }
    }
}

/// One when a vendor is open, zero otherwise.
pub open spec fn open_count(o: Option<GVendor>) -> nat {
    match o {
        Some(_) => 1,
        None => 0,
    }
}

proof fn lemma_vendor_count_run(st: ParseState, lines: Seq<Seq<char>>, i: int)
    requires
        0 <= i,
        run_lines_from(st, lines, i) is Ok,
    ensures
        ({
            let st2 = run_lines_from(st, lines, i).unwrap();
            st2.vendors.len() + open_count(st2.cur_vendor) == st.vendors.len() + open_count(
                st.cur_vendor,
            ) + vendor_header_count(st, lines, i)
        }),
    decreases lines.len() - i,
{
    if 0 <= i < lines.len() {
        match step_line(st, lines[i]) {
            Ok(stm) => {
                assert(stm.vendors.len() + open_count(stm.cur_vendor) == st.vendors.len()
                    + open_count(st.cur_vendor) + (if opens_vendor(st, lines[i]) {
                    1int
                } else {
                    0int
                }));
                lemma_vendor_count_run(stm, lines, i + 1);
            },
            Err(_) => {},
        }
    }
}

/// Round-trip structural count: a document that parses successfully
/// yields exactly one vendor record per vendor-opening line, the devices
/// beneath each header nested into its record in document order by
/// [`parse_spec`].
pub proof fn lemma_vendor_count(content: Seq<char>)
    requires
        parse_spec(content) is Ok,
    ensures
        parse_spec(content).unwrap().0.len() == vendor_header_count(
            init_state(),
            crate::text::split_lines_spec(content),
            0,
        ),
{
    let lines = crate::text::split_lines_spec(content);
    lemma_vendor_count_run(init_state(), lines, 0);
    let st = run_lines_from(init_state(), lines, 0).unwrap();
    assert(state_fin_cs(state_fin_vd(st)).vendors.len() == st.vendors.len() + open_count(
        st.cur_vendor,
    ));
}

/// Running a tail of the lines equals running the skipped suffix from its
/// start.
proof fn lemma_run_skip(st: ParseState, lines: Seq<Seq<char>>, i: int)
    requires
        0 <= i <= lines.len(),
    ensures
        run_lines_from(st, lines, i) == run_lines_from(st, lines.skip(i), 0),
    decreases lines.len() - i,
{
    if i < lines.len() {
        assert(lines.skip(i)[0] == lines[i]);
        match step_line(st, lines[i]) {
            Ok(st2) => {
                lemma_run_skip(st2, lines, i + 1);
                lemma_run_skip(st2, lines.skip(i), 1);
                assert(lines.skip(i).skip(1) =~= lines.skip(i + 1));
            },
            Err(_) => {},
        }
    } else {
        assert(lines.skip(i).len() == 0);
    }
}

/// Running concatenated line sequences composes the two runs.
proof fn lemma_run_append(st: ParseState, a: Seq<Seq<char>>, b: Seq<Seq<char>>)
    ensures
        run_lines_from(st, a + b, 0) == (match run_lines_from(st, a, 0) {
            Ok(m) => run_lines_from(m, b, 0),
            Err(e) => Err(e),
        }),
    decreases a.len(),
{
    if a.len() == 0 {
        assert(a + b =~= b);
    } else {
        assert((a + b)[0] == a[0]);
        match step_line(st, a[0]) {
            Ok(m) => {
                lemma_run_skip(m, a + b, 1);
                assert((a + b).skip(1) =~= a.drop_first() + b);
                lemma_run_append(m, a.drop_first(), b);
                lemma_run_skip(m, a, 1);
                assert(a.skip(1) =~= a.drop_first());
            },
            Err(_) => {},
        }
    }
}

/// One vendor block: a vendor header of the exact sniffable shape — four
/// hex digits and two spaces at depth 0 — followed by indented lines.
pub open spec fn is_vendor_block(b: Seq<Seq<char>>) -> bool {
    &&& b.len() >= 1
    &&& !line_skippable(b[0])
    &&& leading_tabs_spec(b[0]) == 0
    &&& !class_prefixed(trim_spec(b[0]))
    &&& looks_like_vendor(trim_spec(b[0]))
    &&& forall|i: int|
        1 <= i < b.len() ==> !line_skippable(#[trigger] b[i]) && 1 <= leading_tabs_spec(b[i])
}

/// One class block: a `C `-marked header at depth 0, followed by indented
/// lines.
pub open spec fn is_class_block(b: Seq<Seq<char>>) -> bool {
    &&& b.len() >= 1
    &&& !line_skippable(b[0])
    &&& leading_tabs_spec(b[0]) == 0
    &&& class_prefixed(trim_spec(b[0]))
    &&& forall|i: int|
        1 <= i < b.len() ==> !line_skippable(#[trigger] b[i]) && 1 <= leading_tabs_spec(b[i])
}

/// True when every block is a vendor block or a class block.
pub open spec fn all_blocks(bs: Seq<Seq<Seq<char>>>) -> bool {
    forall|i: int|
        0 <= i < bs.len() ==> is_vendor_block(#[trigger] bs[i]) || is_class_block(bs[i])
}

/// The lines of all blocks, in order.
pub open spec fn concat_blocks(bs: Seq<Seq<Seq<char>>>) -> Seq<Seq<char>>
    decreases bs.len(),
{
    if bs.len() == 0 {
        Seq::empty()
    } else {
        bs[0] + concat_blocks(bs.drop_first())
    }
}

/// The vendor blocks, in order.
pub open spec fn vendor_blocks_of(bs: Seq<Seq<Seq<char>>>) -> Seq<Seq<Seq<char>>>
    decreases bs.len(),
{
    if bs.len() == 0 {
        Seq::empty()
    } else if is_vendor_block(bs[0]) {
        seq![bs[0]] + vendor_blocks_of(bs.drop_first())
    } else {
        vendor_blocks_of(bs.drop_first())
    }
}

/// The class blocks, in order.
pub open spec fn class_blocks_of(bs: Seq<Seq<Seq<char>>>) -> Seq<Seq<Seq<char>>>
    decreases bs.len(),
{
    if bs.len() == 0 {
        Seq::empty()
    } else if is_class_block(bs[0]) {
        seq![bs[0]] + class_blocks_of(bs.drop_first())
    } else {
        class_blocks_of(bs.drop_first())
    }
}

/// An indented line in vendor mode steps the vendor side alone, the same
/// way in two states whose vendor sides agree.
proof fn lemma_step_inner_vendor(stf: ParseState, stv: ParseState, line: Seq<char>)
    requires
        !line_skippable(line),
        leading_tabs_spec(line) >= 1,
        stf.mode == ParsingMode::Vendors,
        stv.mode == ParsingMode::Vendors,
        stf.vendors == stv.vendors,
        stf.cur_vendor == stv.cur_vendor,
        stf.cur_device == stv.cur_device,
    ensures
        match (step_line(stf, line), step_line(stv, line)) {
            (Ok(a), Ok(b)) => {
                &&& a.mode == ParsingMode::Vendors
                &&& b.mode == ParsingMode::Vendors
                &&& a.vendors == b.vendors
                &&& a.cur_vendor == b.cur_vendor
                &&& a.cur_device == b.cur_device
                &&& a.classes == stf.classes
                &&& a.cur_class == stf.cur_class
                &&& a.cur_subclass == stf.cur_subclass
                &&& b.classes == stv.classes
                &&& b.cur_class == stv.cur_class
                &&& b.cur_subclass == stv.cur_subclass
            },
            (Err(e1), Err(e2)) => e1 == e2,
            _ => false,
        },
{
}

/// An indented line in class mode steps the class side alone, the same
/// way in two states whose class sides agree.
proof fn lemma_step_inner_class(stf: ParseState, stc: ParseState, line: Seq<char>)
    requires
        !line_skippable(line),
        leading_tabs_spec(line) >= 1,
        stf.mode == ParsingMode::Classes,
        stc.mode == ParsingMode::Classes,
        stf.classes == stc.classes,
        stf.cur_class == stc.cur_class,
        stf.cur_subclass == stc.cur_subclass,
    ensures
        match (step_line(stf, line), step_line(stc, line)) {
            (Ok(a), Ok(b)) => {
                &&& a.mode == ParsingMode::Classes
                &&& b.mode == ParsingMode::Classes
                &&& a.classes == b.classes
                &&& a.cur_class == b.cur_class
                &&& a.cur_subclass == b.cur_subclass
                &&& a.vendors == stf.vendors
                &&& a.cur_vendor == stf.cur_vendor
                &&& a.cur_device == stf.cur_device
                &&& b.vendors == stc.vendors
                &&& b.cur_vendor == stc.cur_vendor
                &&& b.cur_device == stc.cur_device
            },
            (Err(e1), Err(e2)) => e1 == e2,
            _ => false,
        },
{
}

/// A sniffable vendor header steps two states whose finalized vendor
/// lists agree into states whose vendor sides agree exactly, closing the
/// class side of the first and leaving the second's untouched.
proof fn lemma_step_vendor_header(stf: ParseState, stv: ParseState, line: Seq<char>)
    requires
        !line_skippable(line),
        leading_tabs_spec(line) == 0,
        !class_prefixed(trim_spec(line)),
        looks_like_vendor(trim_spec(line)),
        stv.mode == ParsingMode::Vendors,
        fin_vendors(stf.vendors, stf.cur_vendor, stf.cur_device) == fin_vendors(
            stv.vendors,
            stv.cur_vendor,
            stv.cur_device,
        ),
    ensures
        match (step_line(stf, line), step_line(stv, line)) {
            (Ok(a), Ok(b)) => {
                &&& a.mode == ParsingMode::Vendors
                &&& b.mode == ParsingMode::Vendors
                &&& a.vendors == b.vendors
                &&& a.cur_vendor == b.cur_vendor
                &&& a.cur_device == b.cur_device
                &&& fin_classes(a.classes, a.cur_class, a.cur_subclass) == fin_classes(
                    stf.classes,
                    stf.cur_class,
                    stf.cur_subclass,
                )
                &&& b.classes == stv.classes
                &&& b.cur_class == stv.cur_class
                &&& b.cur_subclass == stv.cur_subclass
            },
            (Err(e1), Err(e2)) => e1 == e2,
            _ => false,
        },
{
}

/// A class header steps two states whose finalized class lists agree into
/// states whose class sides agree exactly, closing the vendor side of
/// both.
proof fn lemma_step_class_header(stf: ParseState, stc: ParseState, line: Seq<char>)
    requires
        !line_skippable(line),
        leading_tabs_spec(line) == 0,
        class_prefixed(trim_spec(line)),
        fin_classes(stf.classes, stf.cur_class, stf.cur_subclass) == fin_classes(
            stc.classes,
            stc.cur_class,
            stc.cur_subclass,
        ),
    ensures
        match (step_line(stf, line), step_line(stc, line)) {
            (Ok(a), Ok(b)) => {
                &&& a.mode == ParsingMode::Classes
                &&& b.mode == ParsingMode::Classes
                &&& a.classes == b.classes
                &&& a.cur_class == b.cur_class
                &&& a.cur_subclass == b.cur_subclass
                &&& fin_vendors(a.vendors, a.cur_vendor, a.cur_device) == fin_vendors(
                    stf.vendors,
                    stf.cur_vendor,
                    stf.cur_device,
                )
                &&& fin_vendors(b.vendors, b.cur_vendor, b.cur_device) == fin_vendors(
                    stc.vendors,
                    stc.cur_vendor,
                    stc.cur_device,
                )
            },
            (Err(e1), Err(e2)) => e1 == e2,
            _ => false,
        },
{
}

/// The indented tail of a vendor block keeps two vendor-side-equal states
/// in lockstep and never touches either class side.
proof fn lemma_run_tail_vendor(stf: ParseState, stv: ParseState, lines: Seq<Seq<char>>, i: int)
    requires
        0 <= i <= lines.len(),
        forall|j: int|
            i <= j < lines.len() ==> !line_skippable(#[trigger] lines[j]) && 1
                <= leading_tabs_spec(lines[j]),
        stf.mode == ParsingMode::Vendors,
        stv.mode == ParsingMode::Vendors,
        stf.vendors == stv.vendors,
        stf.cur_vendor == stv.cur_vendor,
        stf.cur_device == stv.cur_device,
    ensures
        match (run_lines_from(stf, lines, i), run_lines_from(stv, lines, i)) {
            (Ok(a), Ok(b)) => {
                &&& a.mode == ParsingMode::Vendors
                &&& b.mode == ParsingMode::Vendors
                &&& a.vendors == b.vendors
                &&& a.cur_vendor == b.cur_vendor
                &&& a.cur_device == b.cur_device
                &&& a.classes == stf.classes
                &&& a.cur_class == stf.cur_class
                &&& a.cur_subclass == stf.cur_subclass
                &&& b.classes == stv.classes
                &&& b.cur_class == stv.cur_class
                &&& b.cur_subclass == stv.cur_subclass
            },
            (Err(e1), Err(e2)) => e1 == e2,
            _ => false,
        },
    decreases lines.len() - i,
{
    if i < lines.len() {
        lemma_step_inner_vendor(stf, stv, lines[i]);
        match (step_line(stf, lines[i]), step_line(stv, lines[i])) {
            (Ok(a), Ok(b)) => {
                lemma_run_tail_vendor(a, b, lines, i + 1);
            },
            _ => {},
        }
    }
}

/// The indented tail of a class block keeps two class-side-equal states
/// in lockstep and never touches either vendor side.
proof fn lemma_run_tail_class(stf: ParseState, stc: ParseState, lines: Seq<Seq<char>>, i: int)
    requires
        0 <= i <= lines.len(),
        forall|j: int|
            i <= j < lines.len() ==> !line_skippable(#[trigger] lines[j]) && 1
                <= leading_tabs_spec(lines[j]),
        stf.mode == ParsingMode::Classes,
        stc.mode == ParsingMode::Classes,
        stf.classes == stc.classes,
        stf.cur_class == stc.cur_class,
        stf.cur_subclass == stc.cur_subclass,
    ensures
        match (run_lines_from(stf, lines, i), run_lines_from(stc, lines, i)) {
            (Ok(a), Ok(b)) => {
                &&& a.mode == ParsingMode::Classes
                &&& b.mode == ParsingMode::Classes
                &&& a.classes == b.classes
                &&& a.cur_class == b.cur_class
                &&& a.cur_subclass == b.cur_subclass
                &&& a.vendors == stf.vendors
                &&& a.cur_vendor == stf.cur_vendor
                &&& a.cur_device == stf.cur_device
                &&& b.vendors == stc.vendors
                &&& b.cur_vendor == stc.cur_vendor
                &&& b.cur_device == stc.cur_device
            },
            (Err(e1), Err(e2)) => e1 == e2,
            _ => false,
        },
    decreases lines.len() - i,
{
    if i < lines.len() {
        lemma_step_inner_class(stf, stc, lines[i]);
        match (step_line(stf, lines[i]), step_line(stc, lines[i])) {
            (Ok(a), Ok(b)) => {
                lemma_run_tail_class(a, b, lines, i + 1);
            },
            _ => {},
        }
    }
}

/// A whole vendor block runs in lockstep over the vendor side.
proof fn lemma_run_vendor_block(stf: ParseState, stv: ParseState, b: Seq<Seq<char>>)
    requires
        is_vendor_block(b),
        stv.mode == ParsingMode::Vendors,
        fin_vendors(stf.vendors, stf.cur_vendor, stf.cur_device) == fin_vendors(
            stv.vendors,
            stv.cur_vendor,
            stv.cur_device,
        ),
    ensures
        match (run_lines_from(stf, b, 0), run_lines_from(stv, b, 0)) {
            (Ok(a), Ok(bb)) => {
                &&& a.mode == ParsingMode::Vendors
                &&& bb.mode == ParsingMode::Vendors
                &&& a.vendors == bb.vendors
                &&& a.cur_vendor == bb.cur_vendor
                &&& a.cur_device == bb.cur_device
                &&& fin_classes(a.classes, a.cur_class, a.cur_subclass) == fin_classes(
                    stf.classes,
                    stf.cur_class,
                    stf.cur_subclass,
                )
                &&& bb.classes == stv.classes
                &&& bb.cur_class == stv.cur_class
                &&& bb.cur_subclass == stv.cur_subclass
            },
            (Err(e1), Err(e2)) => e1 == e2,
            _ => false,
        },
{
    lemma_step_vendor_header(stf, stv, b[0]);
    match (step_line(stf, b[0]), step_line(stv, b[0])) {
        (Ok(a1), Ok(b1)) => {
            lemma_run_tail_vendor(a1, b1, b, 1);
        },
        _ => {},
    }
}

/// A whole class block runs in lockstep over the class side.
proof fn lemma_run_class_block(stf: ParseState, stc: ParseState, b: Seq<Seq<char>>)
    requires
        is_class_block(b),
        fin_classes(stf.classes, stf.cur_class, stf.cur_subclass) == fin_classes(
            stc.classes,
            stc.cur_class,
            stc.cur_subclass,
        ),
    ensures
        match (run_lines_from(stf, b, 0), run_lines_from(stc, b, 0)) {
            (Ok(a), Ok(bb)) => {
                &&& a.mode == ParsingMode::Classes
                &&& bb.mode == ParsingMode::Classes
                &&& a.classes == bb.classes
                &&& a.cur_class == bb.cur_class
                &&& a.cur_subclass == bb.cur_subclass
                &&& fin_vendors(a.vendors, a.cur_vendor, a.cur_device) == fin_vendors(
                    stf.vendors,
                    stf.cur_vendor,
                    stf.cur_device,
                )
                &&& fin_vendors(bb.vendors, bb.cur_vendor, bb.cur_device) == fin_vendors(
                    stc.vendors,
                    stc.cur_vendor,
                    stc.cur_device,
                )
            },
            (Err(e1), Err(e2)) => e1 == e2,
            _ => false,
        },
{
    lemma_step_class_header(stf, stc, b[0]);
    match (step_line(stf, b[0]), step_line(stc, b[0])) {
        (Ok(a1), Ok(b1)) => {
            lemma_run_tail_class(a1, b1, b, 1);
        },
        _ => {},
    }
}

/// Simulation over a block list: the interleaved run, the run of the
/// vendor blocks alone, and the run of the class blocks alone stay
/// coupled by their finalized record lists.
proof fn lemma_blocks_sim(bs: Seq<Seq<Seq<char>>>, stf: ParseState, stv: ParseState, stc: ParseState)
    requires
        all_blocks(bs),
        stv.mode == ParsingMode::Vendors,
        fin_vendors(stf.vendors, stf.cur_vendor, stf.cur_device) == fin_vendors(
            stv.vendors,
            stv.cur_vendor,
            stv.cur_device,
        ),
        fin_classes(stf.classes, stf.cur_class, stf.cur_subclass) == fin_classes(
            stc.classes,
            stc.cur_class,
            stc.cur_subclass,
        ),
        run_lines_from(stf, concat_blocks(bs), 0) is Ok,
    ensures
        run_lines_from(stv, concat_blocks(vendor_blocks_of(bs)), 0) is Ok,
        run_lines_from(stc, concat_blocks(class_blocks_of(bs)), 0) is Ok,
        ({
            let a = run_lines_from(stf, concat_blocks(bs), 0).unwrap();
            let v = run_lines_from(stv, concat_blocks(vendor_blocks_of(bs)), 0).unwrap();
            let c = run_lines_from(stc, concat_blocks(class_blocks_of(bs)), 0).unwrap();
            &&& fin_vendors(a.vendors, a.cur_vendor, a.cur_device) == fin_vendors(
                v.vendors,
                v.cur_vendor,
                v.cur_device,
            )
            &&& fin_classes(a.classes, a.cur_class, a.cur_subclass) == fin_classes(
                c.classes,
                c.cur_class,
                c.cur_subclass,
            )
            &&& v.mode == ParsingMode::Vendors
        }),
    decreases bs.len(),
{
    if bs.len() == 0 {
        assert(concat_blocks(bs) =~= Seq::<Seq<char>>::empty());
    } else {
        let b = bs[0];
        let rest = bs.drop_first();
        assert(is_vendor_block(b) || is_class_block(b));
        assert(all_blocks(rest)) by {
            assert(forall|i: int|
                0 <= i < rest.len() ==> #[trigger] rest[i] == bs[i + 1]);
        }
        lemma_run_append(stf, b, concat_blocks(rest));
        if is_vendor_block(b) {
            assert(!is_class_block(b));
            assert(vendor_blocks_of(bs) == seq![b] + vendor_blocks_of(rest));
            assert(class_blocks_of(bs) == class_blocks_of(rest));
            let vb = seq![b] + vendor_blocks_of(rest);
            assert(vb[0] == b);
            assert(vb.drop_first() =~= vendor_blocks_of(rest));
            assert(concat_blocks(vb) == b + concat_blocks(vendor_blocks_of(rest)));
            lemma_run_vendor_block(stf, stv, b);
            lemma_run_append(stv, b, concat_blocks(vendor_blocks_of(rest)));
            match (run_lines_from(stf, b, 0), run_lines_from(stv, b, 0)) {
                (Ok(a1), Ok(v1)) => {
                    lemma_blocks_sim(rest, a1, v1, stc);
                },
                _ => {},
            }
        } else {
            assert(is_class_block(b));
            assert(!is_vendor_block(b));
            assert(class_blocks_of(bs) == seq![b] + class_blocks_of(rest));
            assert(vendor_blocks_of(bs) == vendor_blocks_of(rest));
            let cb = seq![b] + class_blocks_of(rest);
            assert(cb[0] == b);
            assert(cb.drop_first() =~= class_blocks_of(rest));
            assert(concat_blocks(cb) == b + concat_blocks(class_blocks_of(rest)));
            lemma_run_class_block(stf, stc, b);
            lemma_run_append(stc, b, concat_blocks(class_blocks_of(rest)));
            match (run_lines_from(stf, b, 0), run_lines_from(stc, b, 0)) {
                (Ok(a1), Ok(c1)) => {
                    lemma_blocks_sim(rest, a1, stv, c1);
                },
                _ => {},
            }
        }
    }
}

/// Mode-switch independence: a document made of vendor blocks and class
/// blocks in any interleaving yields the vendor list that the vendor
/// blocks alone yield, and the class list that the class blocks alone
/// yield, each internally in document order. The interleaving order
/// therefore never changes either result list.
pub proof fn lemma_interleaving_independence(bs: Seq<Seq<Seq<char>>>)
    requires
        all_blocks(bs),
        run_lines_from(init_state(), concat_blocks(bs), 0) is Ok,
    ensures
        run_lines_from(init_state(), concat_blocks(vendor_blocks_of(bs)), 0) is Ok,
        run_lines_from(init_state(), concat_blocks(class_blocks_of(bs)), 0) is Ok,
        ({
            let a = run_lines_from(init_state(), concat_blocks(bs), 0).unwrap();
            let v = run_lines_from(init_state(), concat_blocks(vendor_blocks_of(bs)), 0).unwrap();
            let c = run_lines_from(init_state(), concat_blocks(class_blocks_of(bs)), 0).unwrap();
            &&& state_fin_vd(a).vendors == state_fin_vd(v).vendors
            &&& state_fin_cs(a).classes == state_fin_cs(c).classes
        }),
{
    lemma_blocks_sim(bs, init_state(), init_state(), init_state());
}

/// The views of a sequence of vendor builders.
pub open spec fn vendors_view(v: Seq<VendorBuilder>) -> Seq<GVendor> {
    v.map_values(|b: VendorBuilder| b@)
}

/// The views of a sequence of class builders.
pub open spec fn classes_view(c: Seq<ClassBuilder>) -> Seq<GClass> {
    c.map_values(|b: ClassBuilder| b@)
}

/// The view of an open vendor slot.
pub open spec fn opt_vendor_view(o: Option<VendorBuilder>) -> Option<GVendor> {
    match o {
        Some(v) => Some(v@),
        None => None,
    }
}

/// The view of an open device slot.
pub open spec fn opt_device_view(o: Option<DeviceBuilder>) -> Option<GDevice> {
    match o {
        Some(v) => Some(v@),
        None => None,
    }
}

/// The view of an open class slot.
pub open spec fn opt_class_view(o: Option<ClassBuilder>) -> Option<GClass> {
    match o {
        Some(v) => Some(v@),
        None => None,
    }
}

/// The view of an open subclass slot.
pub open spec fn opt_subclass_view(o: Option<SubClassBuilder>) -> Option<GSubClass> {
    match o {
        Some(v) => Some(v@),
        None => None,
    }
}

/// Assemble the mathematical state from the parser's working values.
pub open spec fn pack_state(
    mode: ParsingMode,
    vendors: Seq<VendorBuilder>,
    classes: Seq<ClassBuilder>,
    cv: Option<VendorBuilder>,
    cd: Option<DeviceBuilder>,
    cc: Option<ClassBuilder>,
    cs: Option<SubClassBuilder>,
) -> ParseState {
    ParseState {
        mode: mode,
        vendors: vendors_view(vendors),
        classes: classes_view(classes),
        cur_vendor: opt_vendor_view(cv),
        cur_device: opt_device_view(cd),
        cur_class: opt_class_view(cc),
        cur_subclass: opt_subclass_view(cs),
    }
}

/// True when a line carries no record: blank, or a comment whose first
/// non-whitespace character is `#`.
pub open spec fn line_skippable(s: Seq<char>) -> bool {
    trim_spec(s).len() == 0 || trim_spec(s)[0] == '#'
}

/// Executable test for [`line_skippable`].
pub fn is_skippable(line: &str) -> (r: bool)
    ensures
        r == line_skippable(line@),
{
    let t = trim(line);
    t.unicode_len() == 0 || t.get_char(0) == '#'
}

// ----------------------------------------------------------------------
// The parser
// ----------------------------------------------------------------------

/// Parser for the identifier database format.
pub struct PciIdsParser {
    vendors: Vec<VendorBuilder>,
    classes: Vec<ClassBuilder>,
}

impl PciIdsParser {
    /// The finished vendors, in mathematical form.
    pub closed spec fn spec_vendors(&self) -> Seq<GVendor> {
        vendors_view(self.vendors@)
    }

    /// The finished classes, in mathematical form.
    pub closed spec fn spec_classes(&self) -> Seq<GClass> {
        classes_view(self.classes@)
    }

    /// Create a new parser.
    pub fn new() -> (r: Self)
        ensures
            r.spec_vendors().len() == 0,
            r.spec_classes().len() == 0,
    {
        PciIdsParser { vendors: Vec::new(), classes: Vec::new() }
    }

    /// Get the parsed vendors.
    pub fn vendors(&self) -> (r: &Vec<VendorBuilder>)
        ensures
            vendors_view(r@) == self.spec_vendors(),
    {
        &self.vendors
    }

    /// Get the parsed classes.
    pub fn classes(&self) -> (r: &Vec<ClassBuilder>)
        ensures
            classes_view(r@) == self.spec_classes(),
    {
        &self.classes
    }

    fn finalize_vendor_device(
        &mut self,
        current_vendor: &mut Option<VendorBuilder>,
        current_device: &mut Option<DeviceBuilder>,
    ) -> (r: PciResult<()>)
        ensures
            r is Ok,
            vendors_view(final(self).vendors@) == fin_vendors(
                vendors_view(old(self).vendors@),
                opt_vendor_view(*old(current_vendor)),
                opt_device_view(*old(current_device)),
            ),
            final(self).classes == old(self).classes,
            *final(current_vendor) is None,
            *final(current_device) is None,
    {
        let dev = current_device.take();
        let ven = current_vendor.take();
        match ven {
            Some(mut vendor) => {
                let ghost vv = vendor@;
                let ghost dv = opt_device_view(dev);
                match dev {
                    Some(device) => {
                        let ghost dd = device@;
                        vendor.devices.push(device);
                        proof {
                            assert(vendor@.devices =~= vv.devices.push(dd));
                            assert(vendor@ =~= vendor_with_device(vv, dv));
                        }
                    },
                    None => {},
                }
                let ghost prev = self.vendors@;
                self.vendors.push(vendor);
                proof {
                    assert(vendors_view(self.vendors@) =~= vendors_view(prev).push(
                        vendor_with_device(vv, dv),
                    ));
                }
            },
            None => {},
        }
        Ok(())
    }

    fn finalize_class_subclass(
        &mut self,
        current_class: &mut Option<ClassBuilder>,
        current_subclass: &mut Option<SubClassBuilder>,
    ) -> (r: PciResult<()>)
        ensures
            r is Ok,
            classes_view(final(self).classes@) == fin_classes(
                classes_view(old(self).classes@),
                opt_class_view(*old(current_class)),
                opt_subclass_view(*old(current_subclass)),
            ),
            final(self).vendors == old(self).vendors,
            *final(current_class) is None,
            *final(current_subclass) is None,
    {
        let sub = current_subclass.take();
        let cls = current_class.take();
        match cls {
            Some(mut class) => {
                let ghost cv = class@;
                let ghost sv = opt_subclass_view(sub);
                match sub {
                    Some(subclass) => {
                        let ghost sd = subclass@;
                        class.subclasses.push(subclass);
                        proof {
                            assert(class@.subclasses =~= cv.subclasses.push(sd));
                            assert(class@ =~= class_with_subclass(cv, sv));
                        }
                    },
                    None => {},
                }
                let ghost prev = self.classes@;
                self.classes.push(class);
                proof {
                    assert(classes_view(self.classes@) =~= classes_view(prev).push(
                        class_with_subclass(cv, sv),
                    ));
                }
            },
            None => {},
        }
        Ok(())
    }

    fn parse_vendor_section(
        &mut self,
        trimmed: &str,
        indentation: usize,
        current_vendor: &mut Option<VendorBuilder>,
        current_device: &mut Option<DeviceBuilder>,
    ) -> (r: PciResult<()>)
        ensures
            final(self).classes == old(self).classes,
            match r {
                Ok(()) => vsec(
                    vendors_view(old(self).vendors@),
                    opt_vendor_view(*old(current_vendor)),
                    opt_device_view(*old(current_device)),
                    trimmed@,
                    indentation as nat,
                ) == Ok::<(Seq<GVendor>, Option<GVendor>, Option<GDevice>), PciError>(
                    (
                        vendors_view(final(self).vendors@),
                        opt_vendor_view(*final(current_vendor)),
                        opt_device_view(*final(current_device)),
                    ),
                ),
                Err(e) => vsec(
                    vendors_view(old(self).vendors@),
                    opt_vendor_view(*old(current_vendor)),
                    opt_device_view(*old(current_device)),
                    trimmed@,
                    indentation as nat,
                ) == Err::<(Seq<GVendor>, Option<GVendor>, Option<GDevice>), PciError>(e),
            },
    {
        if indentation == 0 {
            let _ = self.finalize_vendor_device(current_vendor, current_device);
            match parse_vendor_line(trimmed) {
                Ok((id, name)) => {
                    let ghost nm = name@;
                    *current_vendor = Some(VendorBuilder { id, name, devices: Vec::new() });
                    proof {
                        let gv = opt_vendor_view(*current_vendor).unwrap();
                        assert(gv.devices =~= Seq::<GDevice>::empty());
                        assert(gv =~= (GVendor {
                            id: id.spec_value(),
                            name: nm,
                            devices: Seq::empty(),
                        }));
                    }
                    Ok(())
                },
                Err(e) => Err(e),
            }
        } else if indentation == 1 {
            let ghost cv0 = opt_vendor_view(*current_vendor);
            let ghost cd0 = opt_device_view(*current_device);
            match current_device.take() {
                Some(device) => {
                    match current_vendor.take() {
                        Some(mut vendor) => {
                            let ghost vv = vendor@;
                            let ghost dd = device@;
                            vendor.devices.push(device);
                            proof {
                                assert(vendor@.devices =~= vv.devices.push(dd));
                                assert(opt_vendor_view(Some(vendor)) =~= push_open_device(
                                    cv0,
                                    cd0,
                                ));
                            }
                            *current_vendor = Some(vendor);
                        },
                        None => {},
                    }
                },
                None => {},
            }
            match parse_device_line(trimmed) {
                Ok((id, name)) => {
                    let ghost nm = name@;
                    *current_device = Some(DeviceBuilder { id, name, subsystems: Vec::new() });
                    proof {
                        let gd = opt_device_view(*current_device).unwrap();
                        assert(gd.subsystems =~= Seq::<GSubsystem>::empty());
                        assert(gd =~= (GDevice {
                            id: id.spec_value(),
                            name: nm,
                            subsystems: Seq::empty(),
                        }));
                    }
                    Ok(())
                },
                Err(e) => Err(e),
            }
        } else if indentation == 2 {
            match current_device.take() {
                Some(mut device) => {
                    match parse_subsystem_line(trimmed) {
                        Ok((subvendor_id, subdevice_id, name)) => {
                            let ghost dd = device@;
                            let ghost nm = name@;
                            device.subsystems.push(
                                SubsystemBuilder { subvendor_id, subdevice_id, name },
                            );
                            proof {
                                assert(device@.subsystems =~= dd.subsystems.push(
                                    GSubsystem {
                                        subvendor_id: subvendor_id.spec_value(),
                                        subdevice_id: subdevice_id.spec_value(),
                                        name: nm,
                                    },
                                ));
                            }
                            *current_device = Some(device);
                            Ok(())
                        },
                        Err(e) => {
                            *current_device = Some(device);
                            Err(e)
                        },
                    }
                },
                None => Ok(()),
            }
        } else {
            Err(PciError::InvalidIndentation)
        }
    }

    fn parse_class_section(
        &mut self,
        trimmed: &str,
        indentation: usize,
        current_class: &mut Option<ClassBuilder>,
        current_subclass: &mut Option<SubClassBuilder>,
    ) -> (r: PciResult<()>)
        ensures
            final(self).vendors == old(self).vendors,
            match r {
                Ok(()) => csec(
                    classes_view(old(self).classes@),
                    opt_class_view(*old(current_class)),
                    opt_subclass_view(*old(current_subclass)),
                    trimmed@,
                    indentation as nat,
                ) == Ok::<(Seq<GClass>, Option<GClass>, Option<GSubClass>), PciError>(
                    (
                        classes_view(final(self).classes@),
                        opt_class_view(*final(current_class)),
                        opt_subclass_view(*final(current_subclass)),
                    ),
                ),
                Err(e) => csec(
                    classes_view(old(self).classes@),
                    opt_class_view(*old(current_class)),
                    opt_subclass_view(*old(current_subclass)),
                    trimmed@,
                    indentation as nat,
                ) == Err::<(Seq<GClass>, Option<GClass>, Option<GSubClass>), PciError>(e),
            },
    {
        if indentation == 0 {
            let _ = self.finalize_class_subclass(current_class, current_subclass);
            if is_class_line(trimmed) {
                match parse_class_line(trimmed) {
                    Ok((id, name)) => {
                        let ghost nm = name@;
                        *current_class = Some(ClassBuilder { id, name, subclasses: Vec::new() });
                        proof {
                            let gc = opt_class_view(*current_class).unwrap();
                            assert(gc.subclasses =~= Seq::<GSubClass>::empty());
                            assert(gc =~= (GClass {
                                id: id.spec_value(),
                                name: nm,
                                subclasses: Seq::empty(),
                            }));
                        }
                        Ok(())
                    },
                    Err(e) => Err(e),
                }
            } else {
                Ok(())
            }
        } else if indentation == 1 {
            let ghost cc0 = opt_class_view(*current_class);
            let ghost cs0 = opt_subclass_view(*current_subclass);
            match current_subclass.take() {
                Some(subclass) => {
                    match current_class.take() {
                        Some(mut class) => {
                            let ghost cv = class@;
                            let ghost sd = subclass@;
                            class.subclasses.push(subclass);
                            proof {
                                assert(class@.subclasses =~= cv.subclasses.push(sd));
                                assert(opt_class_view(Some(class)) =~= push_open_subclass(
                                    cc0,
                                    cs0,
                                ));
                            }
                            *current_class = Some(class);
                        },
                        None => {},
                    }
                },
                None => {},
            }
            match parse_subclass_line(trimmed) {
                Ok((id, name)) => {
                    let ghost nm = name@;
                    *current_subclass = Some(
                        SubClassBuilder { id, name, prog_interfaces: Vec::new() },
                    );
                    proof {
                        let gs = opt_subclass_view(*current_subclass).unwrap();
                        assert(gs.prog_interfaces =~= Seq::<GProgInterface>::empty());
                        assert(gs =~= (GSubClass {
                            id: id.spec_value(),
                            name: nm,
                            prog_interfaces: Seq::empty(),
                        }));
                    }
                    Ok(())
                },
                Err(e) => Err(e),
            }
        } else if indentation == 2 {
            match current_subclass.take() {
                Some(mut subclass) => {
                    match parse_prog_interface_line(trimmed) {
                        Ok((id, name)) => {
                            let ghost sd = subclass@;
                            let ghost nm = name@;
                            subclass.prog_interfaces.push(ProgInterfaceBuilder { id, name });
                            proof {
                                assert(subclass@.prog_interfaces =~= sd.prog_interfaces.push(
                                    GProgInterface { id: id.spec_value(), name: nm },
                                ));
                            }
                            *current_subclass = Some(subclass);
                            Ok(())
                        },
                        Err(e) => {
                            *current_subclass = Some(subclass);
                            Err(e)
                        },
                    }
                },
                None => Ok(()),
            }
        } else {
            Err(PciError::InvalidIndentation)
        }
    }

    /// Parse the identifier database content.
    ///
    /// The document is consumed line by line:
    /// - Vendor lines: 4 hex digits, two spaces, and the vendor name
    /// - Device lines: one tab, 4 hex digits, two spaces, and the name
    /// - Subsystem lines: two tabs, two 4-digit hex fields, two spaces, name
    /// - Class lines: `C `, 2 hex digits, two spaces, and the class name
    /// - Subclass lines: one tab, 2 hex digits, two spaces, and the name
    /// - Programming interface lines: two tabs, 2 hex digits, two spaces, name
    /// - Comment lines start with `#`; blank lines are ignored
    ///
    /// The call is atomic: on success the parser holds exactly the two
    /// record lists [`parse_spec`] gives; on error it holds nothing.
    pub fn parse(&mut self, content: &str) -> (r: PciResult<()>)
        ensures
            match r {
                Ok(()) => parse_spec(content@) == Ok::<(Seq<GVendor>, Seq<GClass>), PciError>(
                    (final(self).spec_vendors(), final(self).spec_classes()),
                ),
                Err(e) => {
                    &&& parse_spec(content@) == Err::<(Seq<GVendor>, Seq<GClass>), PciError>(e)
                    &&& final(self).spec_vendors().len() == 0
                    &&& final(self).spec_classes().len() == 0
                },
            },
    {
        self.vendors.clear();
        self.classes.clear();

        let mut current_vendor: Option<VendorBuilder> = None;
        let mut current_device: Option<DeviceBuilder> = None;
        let mut current_class: Option<ClassBuilder> = None;
        let mut current_subclass: Option<SubClassBuilder> = None;
        let mut parsing_mode = ParsingMode::Vendors;

        let lines = split_lines(content);
        let ghost lseq = crate::text::split_lines_spec(content@);
        proof {
            assert(pack_state(
                parsing_mode,
                self.vendors@,
                self.classes@,
                current_vendor,
                current_device,
                current_class,
                current_subclass,
            ) =~= init_state());
        }
        let n = lines.len();
        let mut i: usize = 0;
        while i < n
            invariant
                i <= n,
                n == lines@.len(),
                views_of(lines@) == lseq,
                lseq == crate::text::split_lines_spec(content@),
                run_lines_from(init_state(), lseq, 0) == run_lines_from(
                    pack_state(
                        parsing_mode,
                        self.vendors@,
                        self.classes@,
                        current_vendor,
                        current_device,
                        current_class,
                        current_subclass,
                    ),
                    lseq,
                    i as int,
                ),
            decreases n - i,
        {
            let line = lines[i];
            proof {
                assert(views_of(lines@)[i as int] == lines@[i as int]@);
            }
            let ghost st0 = pack_state(
                parsing_mode,
                self.vendors@,
                self.classes@,
                current_vendor,
                current_device,
                current_class,
                current_subclass,
            );
            if is_skippable(line) {
                proof {
                    assert(step_line(st0, lseq[i as int]) == Ok::<ParseState, PciError>(st0));
                }
                i = i + 1;
                continue ;
            }
            let trimmed = trim(line);
            let indentation = count_leading_tabs(line);

            if is_class_line(trimmed) && indentation == 0 {
                parsing_mode = ParsingMode::Classes;
                let _ = self.finalize_vendor_device(&mut current_vendor, &mut current_device);
            } else if indentation == 0 && !is_class_line(trimmed) && parsing_mode
                == ParsingMode::Classes {
                if is_vendor_shaped(trimmed) {
                    parsing_mode = ParsingMode::Vendors;
                    let _ = self.finalize_class_subclass(
                        &mut current_class,
                        &mut current_subclass,
                    );
                }
            }
            let ghost st1 = pack_state(
                parsing_mode,
                self.vendors@,
                self.classes@,
                current_vendor,
                current_device,
                current_class,
                current_subclass,
            );
            proof {
                let t = trim_spec(lseq[i as int]);
                let d = leading_tabs_spec(lseq[i as int]);
                if class_prefixed(t) && d == 0 {
                    assert(st1 =~= (ParseState {
                        mode: ParsingMode::Classes,
                        ..state_fin_vd(st0)
                    }));
                } else if d == 0 && !class_prefixed(t) && st0.mode == ParsingMode::Classes
                    && looks_like_vendor(t) {
                    assert(st1 =~= (ParseState {
                        mode: ParsingMode::Vendors,
                        ..state_fin_cs(st0)
                    }));
                } else {
                    assert(st1 =~= st0);
                }
            }
            let result = match parsing_mode {
                ParsingMode::Vendors => self.parse_vendor_section(
                    trimmed,
                    indentation,
                    &mut current_vendor,
                    &mut current_device,
                ),
                ParsingMode::Classes => self.parse_class_section(
                    trimmed,
                    indentation,
                    &mut current_class,
                    &mut current_subclass,
                ),
            };
            match result {
                Ok(()) => {
                    let ghost st2 = pack_state(
                        parsing_mode,
                        self.vendors@,
                        self.classes@,
                        current_vendor,
                        current_device,
                        current_class,
                        current_subclass,
                    );
                    proof {
                        let sres = step_line(st0, lseq[i as int]);
                        assert(sres is Ok);
                        assert(sres.unwrap() =~= st2);
                        assert(sres == Ok::<ParseState, PciError>(st2));
                    }
                    i = i + 1;
                },
                Err(e) => {
                    proof {
                        assert(step_line(st0, lseq[i as int]) == Err::<ParseState, PciError>(e));
                        assert(run_lines_from(st0, lseq, i as int) == Err::<
                            ParseState,
                            PciError,
                        >(e));
                    }
                    self.vendors.clear();
                    self.classes.clear();
                    return Err(e);
                },
            }
        }
        let ghost st_end = pack_state(
            parsing_mode,
            self.vendors@,
            self.classes@,
            current_vendor,
            current_device,
            current_class,
            current_subclass,
        );
        proof {
            assert(run_lines_from(init_state(), lseq, 0) == Ok::<ParseState, PciError>(st_end));
        }
        let _ = self.finalize_vendor_device(&mut current_vendor, &mut current_device);
        let _ = self.finalize_class_subclass(&mut current_class, &mut current_subclass);
        proof {
            let st_fin = state_fin_cs(state_fin_vd(st_end));
            assert(self.spec_vendors() == st_fin.vendors);
            assert(self.spec_classes() == st_fin.classes);
        }
        Ok(())
    }

    /// Render the fixed header of a generated database source file.
    pub fn generate_code(&self) -> (r: String)
        ensures
            r@ == generated_header(),
    {
        let mut code = String::new();
        code.append("// Generated PCI vendor and device data\n");
        code.append("use crate::vendors::Vendor;\n");
        code.append("use crate::devices::{Device, Subsystem};\n");
        code.append("use crate::classes::{DeviceClass, SubClass, ProgInterface};\n");
        code.append("use crate::types::*;\n\n");
        proof {
            assert(code@ =~= generated_header());
        }
        code
    }
}

/// The header text [`PciIdsParser::generate_code`] renders.
pub open spec fn generated_header() -> Seq<char> {
    "// Generated PCI vendor and device data\n"@
        + "use crate::vendors::Vendor;\n"@
        + "use crate::devices::{Device, Subsystem};\n"@
        + "use crate::classes::{DeviceClass, SubClass, ProgInterface};\n"@
        + "use crate::types::*;\n\n"@
}

impl Default for PciIdsParser {
    /// An empty parser, as [`PciIdsParser::new`] builds it.
    fn default() -> (r: Self)
        ensures
            r.spec_vendors().len() == 0,
            r.spec_classes().len() == 0,
    {
        PciIdsParser::new()
    }
}

} // verus!
