//! A generic set container whose storage belongs to a per-element-type backend.
//!
//! The container, [`QSet`], never looks inside the handle it owns: every
//! operation goes through the capability contract [`QSetElement`], which an
//! element type implements once. The contract is stated over the sequence of
//! elements in iteration order, and the container is verified against it for
//! every implementation.
//!
//! - [`qset`]: the contract, the container, its iterator and bulk insertion.
//! - [`local`]: a backend in the host's own memory, verified against the
//!   contract.
//! - [`builtin`]: the element types registered with that backend.
//! - [`laws`]: what follows for every set, whatever the backend.
//! - [`qvariant`] and [`qtlogging`]: two small value types that go with the
//!   container.

pub mod builtin;
pub mod laws;
pub mod local;
pub mod qset;
pub mod qtlogging;
pub mod qvariant;

pub use local::{LocalElement, LocalHandle};
pub use qset::{element_views, elements, Iter, QSet, QSetElement, QSetItem, TrivialElement};
pub use qtlogging::QMessageLogContext;
pub use qvariant::{QVariant, QVector3D};
