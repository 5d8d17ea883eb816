//! License compliance audit of the dependencies that a lockfile declares.

pub mod check;
pub mod collector;
pub mod dependency;
pub mod json;
pub mod policy;
pub mod retriever;
pub mod text;
