use vstd::prelude::*;

verus! {

/// Handle for the uniform random source used by the renderer.
///
/// The source itself draws floating-point values and lives with the
/// numeric code outside the verified library; this type only names it.
pub struct RandValue;

} // verus!
