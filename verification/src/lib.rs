//! Mosaic: a platform for community-authored visual methods (Facets) that turn media into
//! text art, and the verified core that admits, validates and composes them.

pub mod vm;
pub mod feature;
pub mod profile;
pub mod text;
pub mod wasm;
pub mod digest;
pub mod api_error;
pub mod auth;
pub mod atlas;
pub mod ascii;
pub mod spectral;
pub mod registry;
pub mod server;
pub mod runtime;
pub mod certify;
pub mod compose;
pub mod manifest;
pub mod dsl;
