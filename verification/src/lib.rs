//! Client-side codec for generic netlink: the attribute format, typed
//! attributes, the family-resolution messages of the control family and the
//! framing of requests to a resolved family.

pub mod attribute;
pub mod controller;
pub mod endian;
pub mod error;
pub mod genl;
pub mod record;
pub mod typed;
pub mod nl80211;
pub mod streetpass;
