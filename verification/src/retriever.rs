//! Retrievers turn what a package registry answered into the record of one
//! dependency.

pub mod npm;

pub use npm::Npm;
