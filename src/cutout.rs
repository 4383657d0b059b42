//! One distance field with another's volume taken away.
use vstd::prelude::*;

use crate::sdf::SdfShape;

verus! {

/// The region inside `object` and outside `cutout`, with `object`'s material.
#[derive(Debug)]
pub struct Cutout {
    pub object: Box<SdfShape>,
    pub cutout: Box<SdfShape>,
}

} // verus!
