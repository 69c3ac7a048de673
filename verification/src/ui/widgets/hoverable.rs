//! Hover tracking for a container that reports when the pointer enters or
//! leaves it or anything inside it.

use vstd::prelude::*;

verus! {

/// Reported when the container starts or stops being hovered.
#[derive(Debug, Clone, Copy, PartialEq, Eq, Structural)]
pub struct HoverAction {
    pub hovered: bool,
}

/// What the toolkit tells the container about the pointer.
#[derive(Debug, Clone, Copy, PartialEq, Eq, Structural)]
pub enum HoverUpdate {
    /// The pointer entered or left the container itself.
    HoveredChanged(bool),
    /// The pointer entered or left something inside the container.
    ChildHoveredChanged(bool),
    /// Anything else.
    Other,
}

/// The hover state of the container: it counts as hovered while the pointer
/// is over it or over anything inside it.
#[derive(Debug, Clone, Copy, PartialEq, Eq, Structural)]
pub struct Hoverable {
    pub self_hovered: bool,
    pub child_hovered: bool,
    pub effective_hovered: bool,
}

impl Hoverable {
    /// The state that was last reported agrees with where the pointer is.
    pub open spec fn settled(self) -> bool {
        self.effective_hovered == (self.self_hovered || self.child_hovered)
    }

    /// The state after the toolkit's notice `event`.
    pub open spec fn after(self, event: HoverUpdate) -> Hoverable {
        let self_hovered = match event {
            HoverUpdate::HoveredChanged(hovered) => hovered,
            _ => self.self_hovered,
        };
        let child_hovered = match event {
            HoverUpdate::ChildHoveredChanged(hovered) => hovered,
            _ => self.child_hovered,
        };
        Hoverable {
            self_hovered,
            child_hovered,
            effective_hovered: if event is Other {
                self.effective_hovered
            } else {
                self_hovered || child_hovered
            },
        }
    }

    /// A container that nothing hovers.
    pub fn new_empty() -> (state: Hoverable)
        ensures
            state == (Hoverable { self_hovered: false, child_hovered: false, effective_hovered: false }),
            state.settled(),
    {
        Hoverable { self_hovered: false, child_hovered: false, effective_hovered: false }
    }

    /// Brings the reported state in line with where the pointer is, and
    /// returns the action to report where that changed it.
    pub fn update_hover_state(&mut self) -> (action: Option<HoverAction>)
        ensures
            final(self).self_hovered == old(self).self_hovered,
            final(self).child_hovered == old(self).child_hovered,
            final(self).settled(),
            action == if old(self).settled() {
                None
            } else {
                Some(HoverAction { hovered: final(self).effective_hovered })
            },
    {
        let hovered = self.self_hovered || self.child_hovered;
        if hovered != self.effective_hovered {
            self.effective_hovered = hovered;
            Some(HoverAction { hovered })
        } else {
            None
        }
    }

    /// Takes in the toolkit's notice `event`, and returns the action to
    /// report where the container started or stopped being hovered.
    pub fn update(&mut self, event: HoverUpdate) -> (action: Option<HoverAction>)
        ensures
            *final(self) == old(self).after(event),
            action == if event is Other || old(self).after(event).effective_hovered == old(
                self,
            ).effective_hovered {
                None
            } else {
                Some(HoverAction { hovered: final(self).effective_hovered })
            },
    {
        match event {
            HoverUpdate::HoveredChanged(hovered) => {
                self.self_hovered = hovered;
                self.update_hover_state()
            },
            HoverUpdate::ChildHoveredChanged(hovered) => {
                self.child_hovered = hovered;
                self.update_hover_state()
            },
            HoverUpdate::Other => None,
        }
    }
}

} // verus!
