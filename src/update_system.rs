//! What each frame pushes to the engine besides advancing it.

use vstd::prelude::*;

verus! {

/// Position for this frame's listener update, given the positions of the
/// listener-bearing entities in the scene: the position of the only one, or
/// `None` (no update this frame) when there are none or several. The update
/// is sent with zero velocity.
pub fn update_camera_position<P: Copy>(listeners: &Vec<P>) -> (r: Option<P>)
    ensures
        r == (if listeners@.len() == 1 { Some(listeners@[0]) } else { None::<P> }),
{
    if listeners.len() == 1 {
        Some(listeners[0])
    } else {
        None
    }
}

} // verus!
