//! Open/close state for the modal, hover-card, dropdown and side-panel
//! widgets: one boolean each, toggled or set by their triggers.

use vstd::prelude::*;

verus! {

/// A modal dialog's visibility.
#[derive(Clone, Copy, PartialEq, Eq, Structural, Debug)]
pub struct ModalState {
    pub is_active: bool,
}

impl ModalState {
    /// A modal that starts out shown or hidden as asked.
    pub fn new(is_active: bool) -> (r: Self)
        ensures
            r.is_active == is_active,
    {
        ModalState { is_active }
    }

    /// Shows a hidden modal and hides a shown one.
    pub fn toggle(&mut self)
        ensures
            final(self).is_active == !old(self).is_active,
    {
        self.is_active = !self.is_active;
    }

    /// The attribute label of the current state.
    pub fn state_label(&self) -> (r: &'static str)
        ensures
            self.is_active ==> r@ == "active"@,
            !self.is_active ==> r@ == "inactive"@,
    {
        if self.is_active {
            "active"
        } else {
            "inactive"
        }
    }
}

/// A hover card's visibility.
#[derive(Clone, Copy, PartialEq, Eq, Structural, Debug)]
pub struct HoverState {
    pub is_active: bool,
}

impl HoverState {
    /// A hover card starts hidden.
    pub fn new() -> (r: Self)
        ensures
            r.is_active == false,
    {
        HoverState { is_active: false }
    }

    /// Shows a hidden card and hides a shown one.
    pub fn toggle(&mut self)
        ensures
            final(self).is_active == !old(self).is_active,
    {
        self.is_active = !self.is_active;
    }

    /// Shows the card.
    pub fn open(&mut self)
        ensures
            final(self).is_active == true,
    {
        self.is_active = true;
    }

    /// Hides the card.
    pub fn close(&mut self)
        ensures
            final(self).is_active == false,
    {
        self.is_active = false;
    }

    /// The attribute label of the current state.
    pub fn state_label(&self) -> (r: &'static str)
        ensures
            self.is_active ==> r@ == "active"@,
            !self.is_active ==> r@ == "inactive"@,
    {
        if self.is_active {
            "active"
        } else {
            "inactive"
        }
    }
}

/// A dropdown menu's visibility.
#[derive(Clone, Copy, PartialEq, Eq, Structural, Debug)]
pub struct DropdownState {
    pub is_active: bool,
}

impl DropdownState {
    /// A dropdown starts closed.
    pub fn new() -> (r: Self)
        ensures
            r.is_active == false,
    {
        DropdownState { is_active: false }
    }

    /// Opens a closed dropdown and closes an open one.
    pub fn toggle(&mut self)
        ensures
            final(self).is_active == !old(self).is_active,
    {
        self.is_active = !self.is_active;
    }

    /// Closes the dropdown.
    pub fn close(&mut self)
        ensures
            final(self).is_active == false,
    {
        self.is_active = false;
    }

    /// Whether the dropdown is open.
    pub fn get_is_active(&self) -> (r: bool)
        ensures
            r == self.is_active,
    {
        self.is_active
    }

    /// The attribute label of the current state.
    pub fn state_label(&self) -> (r: &'static str)
        ensures
            self.is_active ==> r@ == "active"@,
            !self.is_active ==> r@ == "inactive"@,
    {
        if self.is_active {
            "active"
        } else {
            "inactive"
        }
    }
}

/// A side panel's visibility.
#[derive(Clone, Copy, PartialEq, Eq, Structural, Debug)]
pub struct SidePanelState {
    pub is_active: bool,
}

impl SidePanelState {
    /// A side panel that starts out shown or hidden as asked.
    pub fn new(is_active: bool) -> (r: Self)
        ensures
            r.is_active == is_active,
    {
        SidePanelState { is_active }
    }

    /// Shows a hidden panel and hides a shown one.
    pub fn toggle(&mut self)
        ensures
            final(self).is_active == !old(self).is_active,
    {
        self.is_active = !self.is_active;
    }

    /// Shows the panel.
    pub fn open(&mut self)
        ensures
            final(self).is_active == true,
    {
        self.is_active = true;
    }

    /// Hides the panel.
    pub fn close(&mut self)
        ensures
            final(self).is_active == false,
    {
        self.is_active = false;
    }

    /// The attribute label of the current state.
    pub fn state_label(&self) -> (r: &'static str)
        ensures
            self.is_active ==> r@ == "active"@,
            !self.is_active ==> r@ == "inactive"@,
    {
        if self.is_active {
            "active"
        } else {
            "inactive"
        }
    }
}

} // verus!
