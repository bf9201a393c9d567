//! Launch-context parsing and the startup policy for remote notices of the
//! herdr file viewer, with their contracts.

pub mod context;
pub mod host;
pub mod text;
pub mod update;
