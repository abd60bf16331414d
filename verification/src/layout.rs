use vstd::prelude::*;

verus! {

/// How many pages are shown side by side.
#[derive(Clone, Copy, PartialEq, Eq, Structural, Debug)]
pub enum PageLayout {
    Single,
    Dual,
    Triple,
}

impl PageLayout {
    /// The number of pages this layout puts next to one another.
    pub open spec fn across(self) -> nat {
        match self {
            PageLayout::Single => 1,
            PageLayout::Dual => 2,
            PageLayout::Triple => 3,
        }
    }

    pub fn pages_across(self) -> (n: usize)
        ensures
            n == self.across(),
    {
        match self {
            PageLayout::Single => 1,
            PageLayout::Dual => 2,
            PageLayout::Triple => 3,
        }
    }

    /// The layout that follows this one: single, dual, triple, and round again.
    pub open spec fn next(self) -> PageLayout {
        match self {
            PageLayout::Single => PageLayout::Dual,
            PageLayout::Dual => PageLayout::Triple,
            PageLayout::Triple => PageLayout::Single,
        }
    }

    pub fn cycle(self) -> (r: PageLayout)
        ensures
            r == self.next(),
    {
        match self {
            PageLayout::Single => PageLayout::Dual,
            PageLayout::Dual => PageLayout::Triple,
            PageLayout::Triple => PageLayout::Single,
        }
    }
}

} // verus!
