//! Directory-tree rendering: the decisions behind each printed line of a
//! tree listing (which entries are shown, which connector each gets, how the
//! indentation grows, how each name is styled), kept apart from the reading
//! of directories and the printing of lines.
pub mod entry;
pub mod layer;
pub mod options;
pub mod style_color;
pub mod laws;
