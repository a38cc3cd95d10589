//! The logic of the PC-98 widgets: what each one decides, independent of
//! how egui paints it.

pub mod check;
pub mod dialog;
pub mod fkey;
pub mod icon;
pub mod list;
pub mod message_box;
pub mod segment;
pub mod spinner;
pub mod tabs;
pub mod toggle;

pub use icon::{DotIcon, ICON_GRID, icon_cells};
pub use list::{Align, Column, ColumnSpan, ColumnWidth, ListKeys, ListState, column_layout};
