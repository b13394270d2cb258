//! Component-identity and storage-binding core of an entity-component engine.
//!
//! Every distinct kind of component data, whether known at build time or
//! registered dynamically at run time, gets a single stable, comparable,
//! hashable identity, and every component type is bound at compile time to
//! the storage implementation that holds its instances.

pub mod component;
pub mod display;
pub mod storage;
