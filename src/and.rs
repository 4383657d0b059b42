//! Intersection of two distance fields.
use vstd::prelude::*;

use crate::sdf::SdfShape;

verus! {

/// The region inside both `a` and `b`. Its material is always `a`'s,
/// whichever surface is nearer.
#[derive(Debug)]
pub struct And {
    pub a: Box<SdfShape>,
    pub b: Box<SdfShape>,
}

} // verus!
