//! A dependency-injection runtime: a registry that binds abstract interfaces
//! to concrete providers and resolves object graphs on demand, with
//! configurable lifetime scopes (transient, singleton, factory) and cycle
//! detection.
//!
//! Interfaces and implementations are identified by explicit type-identity
//! strings, so the container works without language-level generic dispatch:
//! a binding maps an [`key::InterfaceKey`] (type identity plus optional
//! binding name) to a [`provider::Provider`].  Resolved instances live in a
//! slot store owned by the container; shared ownership of a singleton is
//! expressed as two pointers carrying the same slot, so aliasing is a
//! provable fact rather than a runtime accident.  What resolution does —
//! every error, every pointer, every instance created — is pinned down by
//! [`resolver::resolve_spec`], and the guarantees that follow are proved in
//! [`laws`].
//!
//! The blocking front-end is [`di_container::blocking::DIContainer`]; the
//! thread-safe front-end is
//! [`di_container::asynchronous::AsyncDIContainer`], which additionally
//! demands that every cast relationship it uses was declared thread-safe.

pub mod binding_storage;
pub mod castable_factory;
pub mod caster;
pub mod dependency_history;
pub mod di_container;
pub mod errors;
pub mod injectable;
pub mod key;
pub mod laws;
pub mod provider;
pub mod ptr;
pub mod resolver;
