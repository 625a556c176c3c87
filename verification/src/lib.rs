//! Identification of hardware bus devices by numeric identifier.
//!
//! The crate parses the line-oriented identifier-database text format into
//! nested vendor and class trees, and answers point lookups and composite
//! queries over the finalized, sorted database.

pub mod classes;
pub mod database;
pub mod devices;
pub mod error;
pub mod hex;
pub mod parser;
pub mod query;
pub mod text;
pub mod types;
pub mod vendors;

pub use database::PciDatabase;
pub use error::PciError;
pub use error::PciResult;
pub use types::DeviceClassId;
pub use types::DeviceId;
pub use types::ProgInterfaceId;
pub use types::SubClassId;
pub use types::SubdeviceId;
pub use types::SubvendorId;
pub use types::VendorId;
pub use vendors::Vendor;
pub use devices::Device;
pub use devices::Subsystem;
pub use classes::DeviceClass;
pub use classes::ProgInterface;
pub use classes::SubClass;
pub use query::ClassMatch;
pub use query::DeviceMatch;
pub use query::QueryBuilder;
