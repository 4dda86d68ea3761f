use vstd::prelude::*;

verus! {

/// Which texture a mesh is painted with.
#[derive(Clone, Copy, Debug, PartialEq, Eq, Structural)]
pub enum TextureId {
    /// The egui font texture.
    Egui,
    /// A texture of the user, by the id that the painter handed out.
    User(u64),
}

} // verus!
