//! Pilot intelligence: resolving pilot names to identities, reading profile and activity
//! responses, caching them for their time to live, classifying each pilot's threat and
//! capabilities, and ordering the records of a lookup by threat.

pub mod cache;
pub mod esi;
pub mod intel;
pub mod json;
pub mod lookup;
pub mod model;
pub mod text;
pub mod version;
pub mod zkill;
