use vstd::prelude::*;

pub mod ai_view;
pub mod base_delegate;
pub mod clipboard_view;
pub mod color;
pub mod config;
pub mod dynamic_items;
pub mod emoji_delegate;
pub mod file_type;
pub mod icon;
pub mod icons;
pub mod item_filter;
pub mod item_list;
pub mod item_delegate;
pub mod items;
pub mod launcher;
pub mod navigation;
pub mod section_manager;
pub mod search;
pub mod test_utils;
pub mod text;
pub mod theme_color;
pub mod theme_delegate;

verus! {

} // verus!
