use vstd::prelude::*;

verus! {

/// `specs::Entity`, the name of a thing in a `specs` world. Nothing is
/// claimed of it; it is only kept and handed on.
#[verifier::external_type_specification]
#[verifier::external_body]
pub struct ExEntity(specs::Entity);

/// Says of a thing in the world that it collides with the ground of a
/// globe, and of which globe.
pub struct Collision {
    pub globe_entity: Option<specs::Entity>,
}

impl Collision {
    /// The record that a thing collides with the ground of the globe
    /// `globe_entity`.
    pub fn new(globe_entity: Option<specs::Entity>) -> (collision: Collision)
        ensures
            collision.globe_entity == globe_entity,
    {
        Collision { globe_entity: globe_entity }
    }
}

} // verus!
