use vstd::prelude::*;

verus! {

/// Which of two items the narrow view of a comparison shows.
#[derive(Clone, Copy, Debug, PartialEq, Eq, Structural)]
pub enum IframeCompareMsg {
    Left,
    Right,
}

/// Two items side by side; on a narrow screen one at a time, by tab.
#[derive(Clone, Copy, Debug, PartialEq, Eq, Structural)]
pub struct IframeCompare {
    pub flag: IframeCompareMsg,
}

impl IframeCompare {
    /// A new comparison, showing the left item.
    pub fn new() -> (r: IframeCompare)
        ensures
            r.flag == IframeCompareMsg::Left,
    {
        IframeCompare { flag: IframeCompareMsg::Left }
    }

    /// Shows the chosen item; the comparison is drawn again.
    pub fn update(&mut self, msg: IframeCompareMsg) -> (r: bool)
        ensures
            final(self).flag == msg,
            r,
    {
        self.flag = msg;
        true
    }

    /// The classes of the left and right tabs, and whether the player shows the
    /// right item.
    pub fn tabs(&self) -> (r: (&'static str, &'static str, bool))
        ensures
            match self.flag {
                IframeCompareMsg::Left => r.0@ == "nav-link active"@ && r.1@ == "nav-link"@ && !r.2,
                IframeCompareMsg::Right => r.0@ == "nav-link"@ && r.1@ == "nav-link active"@ && r.2,
            },
    {
        match self.flag {
            IframeCompareMsg::Left => ("nav-link active", "nav-link", false),
            IframeCompareMsg::Right => ("nav-link", "nav-link active", true),
        }
    }
}

} // verus!
