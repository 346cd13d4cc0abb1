//! A bridge between statically typed native code and a dynamically typed
//! host runtime: value conversion, argument binding, error translation,
//! opaque native handles, and a module registry.

pub mod bind;
pub mod convert;
pub mod error;
pub mod handle;
pub mod registry;
pub mod signature;
pub mod value;
