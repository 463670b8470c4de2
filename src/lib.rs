//! Command bridge of the Basalt desktop shell: a registry of named commands,
//! the dispatcher that serves invocations from the UI layer, the version
//! resolver and the decisions taken once at startup.

pub mod error;
pub mod registry;
pub mod version;
pub mod dispatch;
pub mod bootstrap;
