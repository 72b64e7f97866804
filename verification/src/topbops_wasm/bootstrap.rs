use vstd::prelude::*;

verus! {

/// The one thing an accordion does: open or close.
#[derive(Clone, Copy, Debug, PartialEq, Eq, Structural)]
pub enum AccordionMsg {
    Toggle,
}

/// A section that opens and closes; its owner may fix its state instead.
#[derive(Clone, Copy, Debug, PartialEq, Eq, Structural)]
pub struct Accordion {
    pub collapsed: bool,
}

/// Whether a section is shown closed: as its owner says, else as it is.
pub open spec fn shown_collapsed(own: bool, fixed: Option<bool>) -> bool {
    match fixed {
        Some(c) => c,
        None => own,
    }
}

impl Accordion {
    /// A new, closed accordion.
    pub fn new() -> (r: Accordion)
        ensures
            r.collapsed,
    {
        Accordion { collapsed: true }
    }

    /// Opens a closed accordion and closes an open one; it is drawn again.
    pub fn update(&mut self, msg: AccordionMsg) -> (r: bool)
        ensures
            final(self).collapsed == !old(self).collapsed,
            r,
    {
        self.collapsed = !self.collapsed;
        true
    }

    /// The classes of the header button and of the body, given the state that the
    /// owner fixes, if any.
    pub fn classes(&self, fixed: Option<bool>) -> (r: (&'static str, &'static str))
        ensures
            if shown_collapsed(self.collapsed, fixed) {
                r.0@ == "accordion-button collapsed"@ && r.1@ == "accordion-collapse collapse"@
            } else {
                r.0@ == "accordion-button"@ && r.1@ == "accordion-collapse collapse show"@
            },
    {
        let collapsed = match fixed {
            Some(c) => c,
            None => self.collapsed,
        };
        if collapsed {
            ("accordion-button collapsed", "accordion-collapse collapse")
        } else {
            ("accordion-button", "accordion-collapse collapse show")
        }
    }
}

/// The one thing a collapsible body does: show or hide.
#[derive(Clone, Copy, Debug, PartialEq, Eq, Structural)]
pub enum CollapseMsg {
    Toggle,
}

/// A body that shows and hides; its owner may fix its state instead.
#[derive(Clone, Copy, Debug, PartialEq, Eq, Structural)]
pub struct Collapse {
    pub collapsed: bool,
}

impl Collapse {
    /// A new body, in the state that its owner starts it in, hidden if not said.
    pub fn new(initial_collapsed: Option<bool>) -> (r: Collapse)
        ensures
            r.collapsed == shown_collapsed(true, initial_collapsed),
    {
        Collapse {
            collapsed: match initial_collapsed {
                Some(c) => c,
                None => true,
            },
        }
    }

    /// Shows a hidden body and hides a shown one; it is drawn again.
    pub fn update(&mut self, msg: CollapseMsg) -> (r: bool)
        ensures
            final(self).collapsed == !old(self).collapsed,
            r,
    {
        self.collapsed = !self.collapsed;
        true
    }

    /// The class of the body, given the state that the owner fixes, if any.
    pub fn body_class(&self, fixed: Option<bool>) -> (r: &'static str)
        ensures
            r@ == if shown_collapsed(self.collapsed, fixed) { "collapse"@ } else { "collapse show"@ },
    {
        let collapsed = match fixed {
            Some(c) => c,
            None => self.collapsed,
        };
        if collapsed {
            "collapse"
        } else {
            "collapse show"
        }
    }
}

} // verus!
