use vstd::prelude::*;

verus! {

/// The one thing an accordion does: open or close.
#[derive(Clone, Copy, Debug, PartialEq, Eq, Structural)]
pub enum AccordionMsg {
    Toggle,
}

/// A section that opens and closes; closed unless its owner says otherwise.
#[derive(Clone, Copy, Debug, PartialEq, Eq, Structural)]
pub struct Accordion {
    pub collapsed: bool,
}

impl Accordion {
    /// A new accordion: as its owner asks, closed if the owner does not say.
    pub fn new(collapsed: Option<bool>) -> (r: Accordion)
        ensures
            r.collapsed == match collapsed {
                Some(c) => c,
                None => true,
            },
    {
        Accordion {
            collapsed: match collapsed {
                Some(c) => c,
                None => true,
            },
        }
    }

    /// Opens a closed accordion and closes an open one; it is drawn again.
    pub fn update(&mut self, msg: AccordionMsg) -> (r: bool)
        ensures
            final(self).collapsed == !old(self).collapsed,
            r,
    {
        self.collapsed = !self.collapsed;
        true
    }

    /// Takes the state that the owner now asks for, if it asks; it is drawn again.
    pub fn changed(&mut self, collapsed: Option<bool>) -> (r: bool)
        ensures
            final(self).collapsed == match collapsed {
                Some(c) => c,
                None => old(self).collapsed,
            },
            r,
    {
        if let Some(c) = collapsed {
            self.collapsed = c;
        }
        true
    }

    /// The classes of the header button and of the body.
    pub fn classes(&self) -> (r: (&'static str, &'static str))
        ensures
            if self.collapsed {
                r.0@ == "accordion-button collapsed"@ && r.1@ == "accordion-collapse collapse"@
            } else {
                r.0@ == "accordion-button"@ && r.1@ == "accordion-collapse collapse show"@
            },
    {
        if self.collapsed {
            ("accordion-button collapsed", "accordion-collapse collapse")
        } else {
            ("accordion-button", "accordion-collapse collapse show")
        }
    }
}

/// A dismissible message: a success or an error.
#[derive(Clone, Copy, Debug, PartialEq, Eq, Structural)]
pub struct Alert;

impl Alert {
    /// The class of the message box and the text it shows.
    pub fn view(result: &Result<String, String>) -> (r: (&'static str, &String))
        ensures
            match result {
                Ok(m) => r.0@ == "alert alert-success alert-dismissible"@ && r.1 == m,
                Err(m) => r.0@ == "alert alert-danger alert-dismissible"@ && r.1 == m,
            },
    {
        match result {
            Ok(msg) => ("alert alert-success alert-dismissible", msg),
            Err(msg) => ("alert alert-danger alert-dismissible", msg),
        }
    }
}

/// A body that shows or hides as its owner says.
#[derive(Clone, Copy, Debug, PartialEq, Eq, Structural)]
pub struct Collapse;

impl Collapse {
    /// The class of the body.
    pub fn body_class(collapsed: bool) -> (r: &'static str)
        ensures
            r@ == if collapsed { "collapse"@ } else { "collapse show"@ },
    {
        if collapsed {
            "collapse"
        } else {
            "collapse show"
        }
    }
}

/// A dialog over the page, closed by its button or a click beside it.
#[derive(Clone, Copy, Debug, PartialEq, Eq, Structural)]
pub struct Modal;

} // verus!
