//! Error types for database parsing and querying.

use vstd::prelude::*;

verus! {

/// Errors that can occur while parsing the identifier database or
/// resolving entries in it.
#[derive(Debug, Clone, Copy, PartialEq, Eq, Structural)]
pub enum PciError {
    /// A line does not match the shape its decoder expects.
    InvalidFormat,
    /// A numeric field holds a non-hexadecimal character or overflows its width.
    InvalidHexValue,
    /// A line is indented deeper than the format allows.
    InvalidIndentation,
    /// The input ended where more was expected.
    UnexpectedEndOfInput,
    /// No vendor carries the requested identifier.
    VendorNotFound,
    /// No device carries the requested identifier.
    DeviceNotFound,
    /// No device class carries the requested identifier.
    ClassNotFound,
    /// No subclass carries the requested identifier.
    SubclassNotFound,
    /// No programming interface carries the requested identifier.
    ProgInterfaceNotFound,
}

impl PciError {
    /// A short human-readable description of the error.
    pub fn message(&self) -> (r: String)
        ensures
            *self == PciError::InvalidFormat ==> r@ == "Invalid format in PCI IDs file"@,
            *self == PciError::InvalidHexValue ==> r@ == "Invalid hexadecimal value"@,
            *self == PciError::InvalidIndentation ==> r@ == "Invalid indentation level"@,
            *self == PciError::UnexpectedEndOfInput ==> r@ == "Unexpected end of input"@,
            *self == PciError::VendorNotFound ==> r@ == "Vendor ID not found"@,
            *self == PciError::DeviceNotFound ==> r@ == "Device ID not found"@,
            *self == PciError::ClassNotFound ==> r@ == "Device class not found"@,
            *self == PciError::SubclassNotFound ==> r@ == "Subclass not found"@,
            *self == PciError::ProgInterfaceNotFound ==> r@ == "Programming interface not found"@,
    {
        match self {
            PciError::InvalidFormat => String::from_str("Invalid format in PCI IDs file"),
            PciError::InvalidHexValue => String::from_str("Invalid hexadecimal value"),
            PciError::InvalidIndentation => String::from_str("Invalid indentation level"),
            PciError::UnexpectedEndOfInput => String::from_str("Unexpected end of input"),
            PciError::VendorNotFound => String::from_str("Vendor ID not found"),
            PciError::DeviceNotFound => String::from_str("Device ID not found"),
            PciError::ClassNotFound => String::from_str("Device class not found"),
            PciError::SubclassNotFound => String::from_str("Subclass not found"),
            PciError::ProgInterfaceNotFound => String::from_str("Programming interface not found"),
        }
    }
}

/// Result type for database parsing and querying.
pub type PciResult<T> = Result<T, PciError>;

} // verus!
