//! A hierarchical value-resolution and rendering engine for deployment
//! templates: named variable scopes compose by layered merging, resource
//! sets inherit and override values along their nesting path, and every
//! template file of a resource set is rendered against the effective scope.

pub mod values;
pub mod errors;
pub mod types;
pub mod context;
pub mod jsonval;
pub mod templater;
