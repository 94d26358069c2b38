//! Navigation of list views.
use vstd::prelude::*;

verus! {

/// Navigation helpers for list-based views: delegates move their own selection, and
/// the view then scrolls to the selected entry, given as a flat index or as a section
/// and row.
pub struct NavigationController;

} // verus!
