//! Dynamic operation invocation over a reflective object model.
//!
//! Callers collect named arguments in a [`VOption`] list; [`call`] resolves an
//! operation by name in a [`Runtime`], marshals every input onto a fresh
//! operation node, builds it, and marshals every output back into the list.
//!
//! The [`Runtime`] is the object model operations run against: a registry of
//! operation classes with typed, named arguments, a table of
//! reference-counted resources addressed by handle, and an explicit
//! diagnostic channel in place of a process-wide error buffer. Building an
//! operation validates its required inputs and allocates its resource
//! outputs under the node; each output destination that collects one takes
//! its own reference, and releasing the node drops the node's. What an
//! operation computes beyond that is not modelled.
//!
//! Every dispatch is specified exactly by [`dispatch::invoke`]; the laws
//! relating pushes, pulls and dispatches are proved in [`laws`].
use vstd::prelude::*;

pub mod dispatch;
pub mod filename;
pub mod image;
pub mod laws;
pub mod lookup;
pub mod marshal;
pub mod options;
pub mod resource;
pub mod runtime;
mod setter;
pub mod value;

pub use dispatch::{call, call_option_string};
pub use image::{Error, VipsImage};
pub use resource::{VipsBlob, VipsInterpolate, VipsSource, VipsTarget};
pub use runtime::{ArgKind, ArgSpec, Diagnostic, ErrorCode, OpClass, Role, Runtime};
pub use value::{Double, Output, Pair, ResourceKind, Setter, VOption, VipsValue};
