//! The scene: an ordered collection of primitives that rays are traced
//! against.
use vstd::prelude::*;

verus! {

/// The primitives of a scene, in the order they were added. The list owns
/// them for the scene's lifetime.
#[verifier::reject_recursive_types(H)]
pub struct HittableList<H> {
    pub objects: Vec<H>,
}

impl<H> HittableList<H> {
    /// An empty scene.
    pub fn new() -> (r: HittableList<H>)
        ensures
            r.objects@ == Seq::<H>::empty(),
    {
        HittableList { objects: Vec::new() }
    }

    /// Adds a primitive after those already in the scene.
    pub fn add(&mut self, object: H)
        ensures
            final(self).objects@ == old(self).objects@.push(object),
    {
        self.objects.push(object);
    }
}

} // verus!
