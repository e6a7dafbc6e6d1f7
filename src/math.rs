use vstd::prelude::*;

verus! {

/// The 4x4 matrix type of `bevy_math` (glam's `Mat4`). The library never
/// reads its entries: it carries a world transform from extraction to the
/// GPU uniform unchanged.
#[verifier::external_type_specification]
#[verifier::external_body]
pub struct ExMat4(bevy_math::Mat4);

} // verus!
