//! Type-safe wrappers for the numeric identifiers.
//!
//! Each identifier kind gets a distinct nominal type around its raw
//! fixed-width integer, so identifiers of different kinds can never be
//! compared against one another by construction.

use vstd::prelude::*;
use crate::hex::hex4_seq;
use crate::hex::hex_u16_string;

verus! {

/// A fixed-capacity string of an outside crate; carried opaquely, its
/// characters are named by [`fixed_chars`].
#[verifier::external_type_specification]
#[verifier::external_body]
pub struct ExHeaplessString<const N: usize>(heapless::String<N>);

/// The characters a fixed-capacity hexadecimal string holds.
pub uninterp spec fn fixed_chars(s: heapless::String<4>) -> Seq<char>;

/// Relies on heapless::String::push_str, which appends the given bytes
/// unchanged to a fresh empty string when they fit within its capacity.
#[verifier::external_body]
fn to_fixed_string4(s: &str) -> (r: heapless::String<4>)
    requires
        s@.len() <= 4,
        vstd::string::is_ascii(s),
    ensures
        fixed_chars(r) == s@,
{
    let mut r: heapless::String<4> = heapless::String::new();
    let _ = r.push_str(s);
    r
}

/// A type-safe wrapper for vendor IDs.
#[derive(Debug, Clone, Copy, PartialEq, Eq, PartialOrd, Ord, Hash, Structural)]
pub struct VendorId(u16);

impl VendorId {
    /// The raw numeric value, for specifications.
    pub closed spec fn spec_value(self) -> u16 {
        self.0
    }

    /// Create a new vendor ID.
    pub fn new(id: u16) -> (r: Self)
        ensures
            r.spec_value() == id,
    {
        VendorId(id)
    }

    /// Get the raw vendor ID value.
    #[verifier::when_used_as_spec(spec_value)]
    pub fn value(self) -> (r: u16)
        ensures
            r == self.spec_value(),
    {
        self.0
    }

    /// Convert to a 4-character lowercase hexadecimal string.
    pub fn to_hex_string(self) -> (r: heapless::String<4>)
        ensures
            fixed_chars(r) == hex4_seq(self.spec_value()),
    {
        let s = hex_u16_string(self.0);
        to_fixed_string4(s.as_str())
    }

    /// Two vendor IDs with the same raw value are the same ID.
    pub proof fn lemma_value_determines(a: VendorId, b: VendorId)
        ensures
            a.spec_value() == b.spec_value() ==> a == b,
    {
    }
}

impl From<u16> for VendorId {
    fn from(id: u16) -> Self {
        VendorId(id)
    }
}

impl vstd::std_specs::convert::FromSpecImpl<u16> for VendorId {
    closed spec fn obeys_from_spec() -> bool {
        true
    }

    closed spec fn from_spec(v: u16) -> Self {
        VendorId(v)
    }
}

impl From<VendorId> for u16 {
    fn from(id: VendorId) -> Self {
        id.value()
    }
}

impl vstd::std_specs::convert::FromSpecImpl<VendorId> for u16 {
    closed spec fn obeys_from_spec() -> bool {
        true
    }

    closed spec fn from_spec(v: VendorId) -> u16 {
        v.spec_value()
    }
}

/// A type-safe wrapper for device IDs.
#[derive(Debug, Clone, Copy, PartialEq, Eq, PartialOrd, Ord, Hash, Structural)]
pub struct DeviceId(u16);

impl DeviceId {
    /// The raw numeric value, for specifications.
    pub closed spec fn spec_value(self) -> u16 {
        self.0
    }

    /// Create a new device ID.
    pub fn new(id: u16) -> (r: Self)
        ensures
            r.spec_value() == id,
    {
        DeviceId(id)
    }

    /// Get the raw device ID value.
    #[verifier::when_used_as_spec(spec_value)]
    pub fn value(self) -> (r: u16)
        ensures
            r == self.spec_value(),
    {
        self.0
    }

    /// Convert to a 4-character lowercase hexadecimal string.
    pub fn to_hex_string(self) -> (r: heapless::String<4>)
        ensures
            fixed_chars(r) == hex4_seq(self.spec_value()),
    {
        let s = hex_u16_string(self.0);
        to_fixed_string4(s.as_str())
    }
}

impl From<u16> for DeviceId {
    fn from(id: u16) -> Self {
        DeviceId(id)
    }
}

impl vstd::std_specs::convert::FromSpecImpl<u16> for DeviceId {
    closed spec fn obeys_from_spec() -> bool {
        true
    }

    closed spec fn from_spec(v: u16) -> Self {
        DeviceId(v)
    }
}

impl From<DeviceId> for u16 {
    fn from(id: DeviceId) -> Self {
        id.value()
    }
}

impl vstd::std_specs::convert::FromSpecImpl<DeviceId> for u16 {
    closed spec fn obeys_from_spec() -> bool {
        true
    }

    closed spec fn from_spec(v: DeviceId) -> u16 {
        v.spec_value()
    }
}

/// A type-safe wrapper for subvendor IDs.
#[derive(Debug, Clone, Copy, PartialEq, Eq, PartialOrd, Ord, Hash, Structural)]
pub struct SubvendorId(u16);

impl SubvendorId {
    /// The raw numeric value, for specifications.
    pub closed spec fn spec_value(self) -> u16 {
        self.0
    }

    /// Create a new subvendor ID.
    pub fn new(id: u16) -> (r: Self)
        ensures
            r.spec_value() == id,
    {
        SubvendorId(id)
    }

    /// Get the raw subvendor ID value.
    #[verifier::when_used_as_spec(spec_value)]
    pub fn value(self) -> (r: u16)
        ensures
            r == self.spec_value(),
    {
        self.0
    }
}

impl From<u16> for SubvendorId {
    fn from(id: u16) -> Self {
        SubvendorId(id)
    }
}

impl vstd::std_specs::convert::FromSpecImpl<u16> for SubvendorId {
    closed spec fn obeys_from_spec() -> bool {
        true
    }

    closed spec fn from_spec(v: u16) -> Self {
        SubvendorId(v)
    }
}

impl From<SubvendorId> for u16 {
    fn from(id: SubvendorId) -> Self {
        id.value()
    }
}

impl vstd::std_specs::convert::FromSpecImpl<SubvendorId> for u16 {
    closed spec fn obeys_from_spec() -> bool {
        true
    }

    closed spec fn from_spec(v: SubvendorId) -> u16 {
        v.spec_value()
    }
}

/// A type-safe wrapper for subdevice IDs.
#[derive(Debug, Clone, Copy, PartialEq, Eq, PartialOrd, Ord, Hash, Structural)]
pub struct SubdeviceId(u16);

impl SubdeviceId {
    /// The raw numeric value, for specifications.
    pub closed spec fn spec_value(self) -> u16 {
        self.0
    }

    /// Create a new subdevice ID.
    pub fn new(id: u16) -> (r: Self)
        ensures
            r.spec_value() == id,
    {
        SubdeviceId(id)
    }

    /// Get the raw subdevice ID value.
    #[verifier::when_used_as_spec(spec_value)]
    pub fn value(self) -> (r: u16)
        ensures
            r == self.spec_value(),
    {
        self.0
    }
}

impl From<u16> for SubdeviceId {
    fn from(id: u16) -> Self {
        SubdeviceId(id)
    }
}

impl vstd::std_specs::convert::FromSpecImpl<u16> for SubdeviceId {
    closed spec fn obeys_from_spec() -> bool {
        true
    }

    closed spec fn from_spec(v: u16) -> Self {
        SubdeviceId(v)
    }
}

impl From<SubdeviceId> for u16 {
    fn from(id: SubdeviceId) -> Self {
        id.value()
    }
}

impl vstd::std_specs::convert::FromSpecImpl<SubdeviceId> for u16 {
    closed spec fn obeys_from_spec() -> bool {
        true
    }

    closed spec fn from_spec(v: SubdeviceId) -> u16 {
        v.spec_value()
    }
}

/// A type-safe wrapper for device class IDs.
#[derive(Debug, Clone, Copy, PartialEq, Eq, PartialOrd, Ord, Hash, Structural)]
pub struct DeviceClassId(u8);

impl DeviceClassId {
    /// The raw numeric value, for specifications.
    pub closed spec fn spec_value(self) -> u8 {
        self.0
    }

    /// Create a new device class ID.
    pub fn new(id: u8) -> (r: Self)
        ensures
            r.spec_value() == id,
    {
        DeviceClassId(id)
    }

    /// Get the raw device class ID value.
    #[verifier::when_used_as_spec(spec_value)]
    pub fn value(self) -> (r: u8)
        ensures
            r == self.spec_value(),
    {
        self.0
    }

    /// Two device class IDs with the same raw value are the same ID.
    pub proof fn lemma_value_determines(a: DeviceClassId, b: DeviceClassId)
        ensures
            a.spec_value() == b.spec_value() ==> a == b,
    {
    }
}

impl From<u8> for DeviceClassId {
    fn from(id: u8) -> Self {
        DeviceClassId(id)
    }
}

impl vstd::std_specs::convert::FromSpecImpl<u8> for DeviceClassId {
    closed spec fn obeys_from_spec() -> bool {
        true
    }

    closed spec fn from_spec(v: u8) -> Self {
        DeviceClassId(v)
    }
}

impl From<DeviceClassId> for u8 {
    fn from(id: DeviceClassId) -> Self {
        id.value()
    }
}

impl vstd::std_specs::convert::FromSpecImpl<DeviceClassId> for u8 {
    closed spec fn obeys_from_spec() -> bool {
        true
    }

    closed spec fn from_spec(v: DeviceClassId) -> u8 {
        v.spec_value()
    }
}

/// A type-safe wrapper for subclass IDs.
#[derive(Debug, Clone, Copy, PartialEq, Eq, PartialOrd, Ord, Hash, Structural)]
pub struct SubClassId(u8);

impl SubClassId {
    /// The raw numeric value, for specifications.
    pub closed spec fn spec_value(self) -> u8 {
        self.0
    }

    /// Create a new subclass ID.
    pub fn new(id: u8) -> (r: Self)
        ensures
            r.spec_value() == id,
    {
        SubClassId(id)
    }

    /// Get the raw subclass ID value.
    #[verifier::when_used_as_spec(spec_value)]
    pub fn value(self) -> (r: u8)
        ensures
            r == self.spec_value(),
    {
        self.0
    }
}

impl From<u8> for SubClassId {
    fn from(id: u8) -> Self {
        SubClassId(id)
    }
}

impl vstd::std_specs::convert::FromSpecImpl<u8> for SubClassId {
    closed spec fn obeys_from_spec() -> bool {
        true
    }

    closed spec fn from_spec(v: u8) -> Self {
        SubClassId(v)
    }
}

impl From<SubClassId> for u8 {
    fn from(id: SubClassId) -> Self {
        id.value()
    }
}

impl vstd::std_specs::convert::FromSpecImpl<SubClassId> for u8 {
    closed spec fn obeys_from_spec() -> bool {
        true
    }

    closed spec fn from_spec(v: SubClassId) -> u8 {
        v.spec_value()
    }
}

/// A type-safe wrapper for programming interface IDs.
#[derive(Debug, Clone, Copy, PartialEq, Eq, PartialOrd, Ord, Hash, Structural)]
pub struct ProgInterfaceId(u8);

impl ProgInterfaceId {
    /// The raw numeric value, for specifications.
    pub closed spec fn spec_value(self) -> u8 {
        self.0
    }

    /// Create a new programming interface ID.
    pub fn new(id: u8) -> (r: Self)
        ensures
            r.spec_value() == id,
    {
        ProgInterfaceId(id)
    }

    /// Get the raw programming interface ID value.
    #[verifier::when_used_as_spec(spec_value)]
    pub fn value(self) -> (r: u8)
        ensures
            r == self.spec_value(),
    {
        self.0
    }
}

impl From<u8> for ProgInterfaceId {
    fn from(id: u8) -> Self {
        ProgInterfaceId(id)
    }
}

impl vstd::std_specs::convert::FromSpecImpl<u8> for ProgInterfaceId {
    closed spec fn obeys_from_spec() -> bool {
        true
    }

    closed spec fn from_spec(v: u8) -> Self {
        ProgInterfaceId(v)
    }
}

impl From<ProgInterfaceId> for u8 {
    fn from(id: ProgInterfaceId) -> Self {
        id.value()
    }
}

impl vstd::std_specs::convert::FromSpecImpl<ProgInterfaceId> for u8 {
    closed spec fn obeys_from_spec() -> bool {
        true
    }

    closed spec fn from_spec(v: ProgInterfaceId) -> u8 {
        v.spec_value()
    }
}

} // verus!
