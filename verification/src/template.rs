//! Template headers, scope resolution, configuration slicing and template
//! quality checks.

pub mod header;
pub mod scope;
pub mod filters;
pub mod slice;
pub mod driven_slicing;
pub mod validation;
pub mod quality;
pub mod testing;
pub mod loader;
