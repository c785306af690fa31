//! Composite dispatch and lazy materialization for CLDR-backed data providers.
//!
//! A [`CldrJsonDataProvider`] owns one [`LazyCldrProvider`] cell per data
//! domain. Every resource key belongs to at most one domain; a request is
//! routed to the domain that owns its key, that domain's provider is built on
//! first use and kept (or its build failure is kept), and the answer of the
//! owning provider is handed back unchanged.

pub mod key;
pub mod request;
pub mod error;
pub mod cell;
pub mod catalog;
pub mod registry;
pub mod laws;

pub use catalog::{get_all_cldr_keys, CldrDomain};
pub use cell::{CellState, CellView, LazyCldrProvider, Step};
pub use error::DataError;
pub use key::{ResourceCategory, ResourceKey};
pub use registry::{CldrJsonDataProvider, KeyConflict, RegistryView, Route};
pub use request::{DataRequest, ResourceOptions};
