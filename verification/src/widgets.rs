//! Building blocks for user interfaces.

pub mod dyn_layout;
pub mod highlight_paragraph;
pub mod ref_or_dyn;
pub mod text_box;
