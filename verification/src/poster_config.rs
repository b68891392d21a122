use vstd::prelude::*;

use crate::resolution::Resolution;

verus! {

/// The layout of a poster.
#[derive(Debug, Clone, Copy, PartialEq, Eq, Structural)]
pub enum Style {
    Card,
    Split,
    Collage,
    Blur,
}

impl Default for Style {
    fn default() -> (s: Self)
        ensures
            s == Style::Collage,
    {
        Style::Collage
    }
}

/// The order in which a library's items are fetched.
#[derive(Debug, Clone, Copy, PartialEq, Eq, Structural)]
pub enum Sort {
    Random,
    DateCreated,
    DateLastContentAdded,
}

impl Default for Sort {
    fn default() -> (s: Self)
        ensures
            s == Sort::DateLastContentAdded,
    {
        Sort::DateLastContentAdded
    }
}

/// One library that a poster task renders, with its titles and options.
#[derive(Debug, Clone)]
pub struct LibraryConfig {
    pub name: String,
    pub title: String,
    pub subtitle: String,
    pub style: Option<Style>,
    pub resolution: Option<Resolution>,
    pub sort: Sort,
}

} // verus!
