//! The help window: a book of pages that is leafed through in order.

use vstd::prelude::*;

verus! {

/// What the player can ask of the help window.
#[derive(Clone, Copy, Debug, PartialEq, Eq, Structural)]
pub enum Action {
    NextPage,
    PrevPage,
    LineUp,
    LineDown,
    Close,
}

/// The pages of the help, in the order of the book.
#[derive(Copy, Clone, Debug, PartialEq, Eq, Structural)]
pub enum Page {
    DoseResponse,
    NumpadControls,
    ArrowControls,
    ViKeys,
    HowToPlay,
    Legend,
    Credits,
    About,
}

impl Page {
    /// The number of this page, counting from zero.
    pub open spec fn number(self) -> int {
        match self {
            Page::DoseResponse => 0,
            Page::NumpadControls => 1,
            Page::ArrowControls => 2,
            Page::ViKeys => 3,
            Page::HowToPlay => 4,
            Page::Legend => 5,
            Page::Credits => 6,
            Page::About => 7,
        }
    }

    /// The page with the given number, if there is one.
    pub open spec fn numbered(n: int) -> Option<Page> {
        if n == 0 {
            Some(Page::DoseResponse)
        } else if n == 1 {
            Some(Page::NumpadControls)
        } else if n == 2 {
            Some(Page::ArrowControls)
        } else if n == 3 {
            Some(Page::ViKeys)
        } else if n == 4 {
            Some(Page::HowToPlay)
        } else if n == 5 {
            Some(Page::Legend)
        } else if n == 6 {
            Some(Page::Credits)
        } else if n == 7 {
            Some(Page::About)
        } else {
            None
        }
    }

    /// The heading of this page.
    pub open spec fn spec_title(self) -> Seq<char> {
        match self {
            Page::DoseResponse => "Dose Response"@,
            Page::NumpadControls => "Controls: numpad"@,
            Page::ArrowControls => "Controls: arrow keys"@,
            Page::ViKeys => "Controls: Vi keys"@,
            Page::HowToPlay => "How to play"@,
            Page::Legend => "Legend"@,
            Page::Credits => "Credits"@,
            Page::About => "About Dose Response"@,
        }
    }

    /// The page before this one; the first page has none.
    pub fn prev(self) -> (page: Option<Page>)
        ensures
            page == Page::numbered(self.number() - 1),
    {
        match self {
            Page::DoseResponse => None,
            Page::NumpadControls => Some(Page::DoseResponse),
            Page::ArrowControls => Some(Page::NumpadControls),
            Page::ViKeys => Some(Page::ArrowControls),
            Page::HowToPlay => Some(Page::ViKeys),
            Page::Legend => Some(Page::HowToPlay),
            Page::Credits => Some(Page::Legend),
            Page::About => Some(Page::Credits),
        }
    }

    /// The page after this one; the last page has none.
    pub fn next(self) -> (page: Option<Page>)
        ensures
            page == Page::numbered(self.number() + 1),
    {
        match self {
            Page::DoseResponse => Some(Page::NumpadControls),
            Page::NumpadControls => Some(Page::ArrowControls),
            Page::ArrowControls => Some(Page::ViKeys),
            Page::ViKeys => Some(Page::HowToPlay),
            Page::HowToPlay => Some(Page::Legend),
            Page::Legend => Some(Page::Credits),
            Page::Credits => Some(Page::About),
            Page::About => None,
        }
    }

    /// The heading of this page.
    pub fn title(self) -> (s: &'static str)
        ensures
            s@ == self.spec_title(),
    {
        match self {
            Page::DoseResponse => "Dose Response",
            Page::NumpadControls => "Controls: numpad",
            Page::ArrowControls => "Controls: arrow keys",
            Page::ViKeys => "Controls: Vi keys",
            Page::HowToPlay => "How to play",
            Page::Legend => "Legend",
            Page::Credits => "Credits",
            Page::About => "About Dose Response",
        }
    }
}

/// Leafing forward and then back, or back and then forward, ends on the
/// page it started from.
pub proof fn lemma_leafing_there_and_back(page: Page)
    ensures
        Page::numbered(page.number()) == Some(page),
        Page::numbered(page.number() + 1) matches Some(after) ==> Page::numbered(after.number() - 1)
            == Some(page),
        Page::numbered(page.number() - 1) matches Some(before) ==> Page::numbered(
            before.number() + 1,
        ) == Some(page),
{
}

} // verus!
