//! A codec core for Type-Length-Value (TLV) encoded network packets in the
//! style of Named Data Networking: variable-width integers (`VarNum`), the
//! critical-type rule, encode/decode traits with their generic container
//! instantiations, and a scan-ahead locator for records of a wanted type.

pub mod buffer;
pub mod codec;
pub mod containers;
pub mod error;
pub mod nonneg;
pub mod octets;
pub mod scan;
pub mod tlv;
pub mod varnum;

pub use codec::TlvDecode;
pub use codec::TlvEncode;
pub use error::TlvError;
pub use nonneg::NonNegativeInteger;
pub use scan::find_tlv;
pub use tlv::parse_record_header;
pub use tlv::tlv_critical;
pub use tlv::tlv_typ_critical;
pub use tlv::Tlv;
pub use varnum::VarNum;
