//! Layout, hit-testing and text-shaping logic of a terminal journaling app,
//! verified with Verus. Everything here works on plain values (cell
//! coordinates, hint lists, entry metadata); drawing and terminal I/O live
//! around the library.
use vstd::prelude::*;

pub mod text;
pub mod wrap;
pub mod surface;
pub mod runtime;
pub mod toasts;
pub mod cards;
pub mod notices;
pub mod dates;
pub mod mood;
pub mod tabs;
pub mod markdown;
pub mod unlock;
pub mod layout;
pub mod frames;
pub mod geometry;
pub mod chrome;
pub mod scroll;
pub mod hit_test;
pub mod hints;
pub mod footer;
pub mod dialog_hints;
pub mod insights;
pub mod menus;
pub mod tables;
pub mod reflow;
pub mod stats;
pub mod split;
pub mod dialogs;
pub mod md_table;
pub mod reader;
pub mod entry_list;
pub mod body;
pub mod md_text;
pub mod md_rows;
pub mod md_emit;
pub mod dialog_rows;
pub mod signed_columns;
pub mod run_loop;
pub mod hover;

verus! {

} // verus!
