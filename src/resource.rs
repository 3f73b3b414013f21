//! Handles to reference-counted resources other than images.
use vstd::prelude::*;

verus! {

/// A byte-buffer blob, by its handle in a [`crate::Runtime`]; `0` is null.
#[derive(Clone, Copy, PartialEq, Eq, Structural, Debug)]
pub struct VipsBlob {
    pub ctx: u64,
}

/// A byte source to load from, by its handle (`0` is null), with the leading
/// bytes a loader sniffs to tell whether it can read the source.
#[derive(Debug)]
pub struct VipsSource {
    pub ctx: u64,
    pub sniff: Vec<u8>,
}

/// A byte target to save to, by its handle; `0` is null.
#[derive(Clone, Copy, PartialEq, Eq, Structural, Debug)]
pub struct VipsTarget {
    pub ctx: u64,
}

/// An interpolation method, by its handle; `0` is null.
#[derive(Clone, Copy, PartialEq, Eq, Structural, Debug)]
pub struct VipsInterpolate {
    pub ctx: u64,
}

} // verus!
