use vstd::prelude::*;

pub mod text;
pub mod inline_file;
pub mod projection;
pub mod links;
pub mod icons;
pub mod surface;
pub mod panel;
pub mod editor;
pub mod file_ops;
pub mod views;
pub mod whats_new;
pub mod review;
pub mod review_lines;
pub mod review_source;
pub mod review_panel;
pub mod navigation;
pub mod settings;
pub mod archive;
pub mod keybindings;
pub mod providers;
pub mod working_tree;
pub mod daemon;

verus! {

} // verus!
