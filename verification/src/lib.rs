//! A PC-98 text-mode look for egui: the colour palette, the layout rules the
//! widgets follow (priority-based column dropping, whole-cell column
//! placement), the keyboard model of the list view, and the dot-grid shapes
//! of the icons and the spinner.

pub mod layout;
pub mod palette;
pub mod style;
pub mod text;
pub mod widgets;

pub use layout::fit_by_priority;
pub use palette::Palette;
pub use widgets::{Column, ColumnWidth, ListState};
