//! A relative-time formatter ("about 2 hours ago") and the search toolbar's
//! two-state mode selector.

pub mod format_distance;
pub mod mode;
