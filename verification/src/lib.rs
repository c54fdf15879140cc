//! Backend library for a desktop shell: a greeting formatter and a
//! GPU-enumeration pipeline that turns the JSON output of a platform
//! query command into a list of typed GPU descriptors.

pub mod gpu;
pub mod greeting;
pub mod json;
pub mod text;
