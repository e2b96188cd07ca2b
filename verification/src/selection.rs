//! Which units the player has selected.
use vstd::prelude::*;

verus! {

/// The selected units, by their entity bits, in the order they were selected.
#[derive(Clone, Debug, Default)]
pub struct SelectionState {
    pub selected_entities: Vec<u64>,
}

impl SelectionState {
    /// Nothing selected.
    pub fn new() -> (s: Self)
        ensures
            s.selected_entities@.len() == 0,
    {
        SelectionState { selected_entities: Vec::new() }
    }

    /// A click on a unit selects it; without `extend` (shift held) every other
    /// unit is deselected first.
    pub fn click_unit(&mut self, entity: u64, extend: bool)
        ensures
            extend ==> final(self).selected_entities@ == old(self).selected_entities@.push(entity),
            !extend ==> final(self).selected_entities@ == seq![entity],
    {
        if !extend {
            self.selected_entities.clear();
        }
        self.selected_entities.push(entity);
        proof {
            if !extend {
                assert(self.selected_entities@ =~= seq![entity]);
            }
        }
    }
}

} // verus!
