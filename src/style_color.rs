use crate::entry::Style;
use colored::Color;
use vstd::prelude::*;

verus! {

/// The terminal colors of the `colored` crate, declared so that the choice of
/// a color for each style can be stated and checked.
#[verifier::external_type_specification]
pub struct ExColor(colored::Color);

/// The foreground color for each style: plain names white, executables
/// green, directories blue, symbolic links cyan.
pub open spec fn color_spec(style: Style) -> Color {
    match style {
        Style::Plain => Color::White,
        Style::Executable => Color::Green,
        Style::Directory => Color::Blue,
        Style::Link => Color::Cyan,
    }
}

/// Chooses the terminal color in which a name of the given style is shown.
pub fn color_of(style: Style) -> (r: Color)
    ensures
        r == color_spec(style),
{
    match style {
        Style::Plain => Color::White,
        Style::Executable => Color::Green,
        Style::Directory => Color::Blue,
        Style::Link => Color::Cyan,
    }
}

} // verus!
