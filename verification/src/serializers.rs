//! Serialization: turning typed values back into plain data under a
//! mode and filter settings, with warnings collected per call.

pub mod extra;
pub mod fields;
pub mod shared;
pub mod typed_dict;
