//! Tabbed navigation over a fixed set of views, and the region layout that a
//! terminal front end draws for the selected view.

pub mod compose;
pub mod nav;
pub mod region;
