use vstd::prelude::*;

verus! {

/// The search toolbar's mode: plain text or regular expression.
#[derive(Copy, Clone, Debug, PartialEq, Eq, Structural)]
pub enum SearchMode {
    Text,
    Regex,
}

/// The side of the toolbar on which a mode's button sits.
#[derive(Copy, Clone, Debug, PartialEq, Eq, Structural)]
pub enum Side {
    Left,
    Right,
}

impl Default for SearchMode {
    fn default() -> (r: SearchMode)
        ensures
            r == SearchMode::Text,
    {
        SearchMode::Text
    }
}

impl SearchMode {
    pub fn label(&self) -> (r: &'static str)
        ensures
            r@ == (match *self {
                SearchMode::Text => "Text"@,
                SearchMode::Regex => "Regex"@,
            }),
    {
        match self {
            SearchMode::Text => "Text",
            SearchMode::Regex => "Regex",
        }
    }

    pub fn region_id(&self) -> (r: usize)
        ensures
            r == (match *self {
                SearchMode::Text => 3usize,
                SearchMode::Regex => 5usize,
            }),
    {
        match self {
            SearchMode::Text => 3,
            SearchMode::Regex => 5,
        }
    }

    pub fn tooltip_text(&self) -> (r: &'static str)
        ensures
            r@ == (match *self {
                SearchMode::Text => "Activate Text Search"@,
                SearchMode::Regex => "Activate Regex Search"@,
            }),
    {
        match self {
            SearchMode::Text => "Activate Text Search",
            SearchMode::Regex => "Activate Regex Search",
        }
    }

    /// Every mode's button draws a right border.
    pub fn border_right(&self) -> (r: bool)
        ensures
            r,
    {
        match self {
            SearchMode::Regex => true,
            SearchMode::Text => true,
        }
    }

    /// Only the leftmost button, text mode's, draws a left border.
    pub fn border_left(&self) -> (r: bool)
        ensures
            r == (*self == SearchMode::Text),
    {
        match self {
            SearchMode::Text => true,
            _ => false,
        }
    }

    pub fn button_side(&self) -> (r: Option<Side>)
        ensures
            r == (match *self {
                SearchMode::Text => Some(Side::Left),
                SearchMode::Regex => Some(Side::Right),
            }),
    {
        match self {
            SearchMode::Text => Some(Side::Left),
            SearchMode::Regex => Some(Side::Right),
        }
    }
}

/// The mode that a toggle switches to: the other one.
pub fn next_mode(mode: &SearchMode) -> (r: SearchMode)
    ensures
        r != *mode,
        r == (match *mode {
            SearchMode::Text => SearchMode::Regex,
            SearchMode::Regex => SearchMode::Text,
        }),
{
    match mode {
        SearchMode::Text => SearchMode::Regex,
        SearchMode::Regex => SearchMode::Text,
    }
}

} // verus!
