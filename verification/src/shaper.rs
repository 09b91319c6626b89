//! The shaper's handle type.

use vstd::prelude::*;

verus! {

/// The stateless text shaper; its entry points shape runs against
/// faces at floating-point sizes outside this library.
#[derive(Debug)]
pub struct Shaper;

} // verus!
