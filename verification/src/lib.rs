//! Display configuration logic of a multi-monitor manager: monitor identity
//! keys, per-user display profiles, topology transformations and the
//! planning of display operations, each stated and proved with Verus.

pub mod text;
pub mod types;
pub mod profiles;
pub mod laws;
pub mod operation_laws;
pub mod topology;
pub mod enumeration;
pub mod settings;
pub mod session;
pub mod backend;
