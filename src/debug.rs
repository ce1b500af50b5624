use vstd::prelude::*;

verus! {

/// Which debug overlays are shown: the physics shapes and the frame diagnostics.
#[derive(PartialEq, Eq, Structural, Clone, Copy, Debug)]
pub struct DebugState {
    pub physics_overlay: bool,
    pub diagnostics: bool,
}

impl DebugState {
    /// Both overlays hidden.
    pub fn set_defaults() -> (r: DebugState)
        ensures
            !r.physics_overlay,
            !r.diagnostics,
    {
        DebugState { physics_overlay: false, diagnostics: false }
    }

    /// The physics overlay flips on a press of its key.
    pub fn toggle_rapier_debug(&mut self, pressed: bool)
        ensures
            final(self).physics_overlay == (old(self).physics_overlay != pressed),
            final(self).diagnostics == old(self).diagnostics,
    {
        if pressed {
            self.physics_overlay = !self.physics_overlay;
        }
    }

    /// The diagnostics flip on a press of their key while the modifier is held.
    pub fn toggle_fps(&mut self, modifier_held: bool, pressed: bool)
        ensures
            final(self).diagnostics == (old(self).diagnostics != (modifier_held && pressed)),
            final(self).physics_overlay == old(self).physics_overlay,
    {
        if modifier_held && pressed {
            if self.diagnostics {
                self.diagnostics = false;
            } else {
                self.diagnostics = true;
            }
        }
    }
}

} // verus!
