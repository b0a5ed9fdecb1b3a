//! A two-list task manager: an immediate-mode layout stack, an in-place text
//! editing widget, ordered task lists with transfer between them, the flat-file
//! codec, and the per-frame controller that ties them together.

mod codec;
pub mod ctrlc;
mod geometry;
mod layout;
mod list;
mod tasks;
mod text;
mod text_edit;

pub use codec::{
    done_prefix, format_items, is_prefix, join_lines, lemma_save_then_load, parse_item, parse_items, parse_line,
    parse_lines, parse_text, prefixed, scan_lines, serialize, split_lines, storable, strip_cr, todo_prefix, ParseError,
};
pub use geometry::{fits_i32, Vec2};
pub use layout::{
    balanced_frame, depth_after, lemma_balanced_frame_is_legal, lemma_unbalanced_frame_is_refused, op_ok, ops_depth,
    ops_ok, repeat_op, GlyphRun, Layout, LayoutKind, Style, Ui, UiError, UiOp,
};
pub use list::{
    lemma_drag_round_trip, lemma_navigation_stays_in_range, lemma_titles_commute, lemma_transfer_round_trip, navigate,
    swapped, titles, views, ListModel, ListView, NavStep, Status,
};
pub use tasks::{
    column_runs, frame_runs, heading, key_step, list_command, mark, normal_step, renderable, row_runs, rows_runs, Run,
    TaskManager, TasksView,
};
pub use text_edit::{
    all_printable, apply_keys, backspaces, edit_step, is_printable, lemma_type_then_erase, typed_chars, EditView, Key,
    TextEditState,
};
