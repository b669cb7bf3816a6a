use vstd::prelude::*;

use crate::common::{fits_i32, Vec2};

verus! {

/// The camera over the map: the world position shown at the top left corner
/// of the canvas.
#[derive(Clone, Copy, Debug)]
pub struct View {
    offset: Vec2<i32>,
}

impl View {
    /// The world position at the top left corner.
    pub closed spec fn spec_world_min(self) -> Vec2<i32> {
        self.offset
    }

    /// The view with its top left corner at the origin.
    pub closed spec fn new_view() -> View {
        View { offset: Vec2 { x: 0, y: 0 } }
    }

    /// A view with its top left corner at the origin.
    pub fn new() -> (r: View)
        ensures
            r == View::new_view(),
            r.spec_world_min() == (Vec2::<i32> { x: 0, y: 0 }),
    {
        View { offset: Vec2 { x: 0, y: 0 } }
    }

    /// Moves the view by `by`.
    pub fn move_view(&mut self, by: Vec2<i32>)
        requires
            fits_i32(old(self).spec_world_min().x + by.x),
            fits_i32(old(self).spec_world_min().y + by.y),
        ensures
            final(self).spec_world_min().x == old(self).spec_world_min().x + by.x,
            final(self).spec_world_min().y == old(self).spec_world_min().y + by.y,
    {
        self.offset.add_assign(by);
    }

    /// The world position at the top left corner.
    pub fn world_min(self) -> (r: Vec2<i32>)
        ensures
            r == self.spec_world_min(),
    {
        self.offset
    }
}

} // verus!
