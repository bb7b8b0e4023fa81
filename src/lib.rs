//! Local shadow-password account model: parsing of credential store lines,
//! password-state classification, status reporting, environment sanitization
//! and the decisions of a privileged change of filesystem root.

pub mod anchor;
pub mod environ;
pub mod error;
pub mod invocation;
pub mod shadow;
pub mod status;
pub mod text;
