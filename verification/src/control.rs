//! The vocabulary shared by every control surface: buttons on a grid, their
//! display states, faders, and the input events they produce.
use vstd::prelude::*;
use crate::utils::{decimal_digits, push_decimal, string_from_chars};

verus! {

/// Whether a note (or button) is held down.
#[derive(Debug, Clone, Copy, PartialEq, Eq, Hash, Structural)]
pub enum NoteState {
    On,
    Off,
}

/// An input from a control surface. `F` is the type of a fader position; the
/// library only routes fader events and never looks inside the position.
#[derive(Clone, Debug, PartialEq, Eq, Structural)]
pub enum InputEvent<F> {
    ButtonPressed(ButtonGridLocation, ButtonCoordinate),
    ButtonReleased(ButtonGridLocation, ButtonCoordinate),
    FaderUpdated(FaderId, F),
}

/// The position of a button within its grid.
#[derive(Debug, Clone, Copy, PartialEq, Eq, Hash, PartialOrd, Ord, Structural)]
pub struct ButtonCoordinate {
    pub row_idx: usize,
    pub column_idx: usize,
}

impl ButtonCoordinate {
    pub fn new(column_idx: usize, row_idx: usize) -> (c: ButtonCoordinate)
        ensures
            c.column_idx == column_idx,
            c.row_idx == row_idx,
    {
        ButtonCoordinate { column_idx, row_idx }
    }

    /// The coordinate as text: `(column, row)`, both in decimal.
    pub fn to_string(&self) -> (s: String)
        ensures
            s@ == coordinate_text(self.column_idx as nat, self.row_idx as nat),
    {
        let mut chars: Vec<char> = Vec::new();
        chars.push('(');
        push_decimal(&mut chars, self.column_idx);
        chars.push(',');
        chars.push(' ');
        push_decimal(&mut chars, self.row_idx);
        chars.push(')');
        proof {
            assert(chars@ =~= coordinate_text(self.column_idx as nat, self.row_idx as nat));
        }
        string_from_chars(&chars)
    }
}

/// How a coordinate is written: an opening parenthesis, the column in decimal,
/// a comma and a space, the row in decimal, and a closing parenthesis.
pub open spec fn coordinate_text(column: nat, row: nat) -> Seq<char> {
    seq!['('] + decimal_digits(column) + seq![',', ' '] + decimal_digits(row) + seq![')']
}

/// Which of the surface's grids a button belongs to.
#[derive(Debug, Clone, Copy, PartialEq, Eq, Hash, Structural)]
pub enum ButtonGridLocation {
    Main,
    MetaRight,
    MetaBottom,
}

impl ButtonGridLocation {
    /// The name of the grid in the web interface's stylesheet.
    pub fn css_name(&self) -> (s: &'static str)
        ensures
            *self == ButtonGridLocation::Main ==> s@ == "main"@,
            *self == ButtonGridLocation::MetaRight ==> s@ == "meta-right"@,
            *self == ButtonGridLocation::MetaBottom ==> s@ == "meta-bottom"@,
    {
        match self {
            ButtonGridLocation::Main => "main",
            ButtonGridLocation::MetaRight => "meta-right",
            ButtonGridLocation::MetaBottom => "meta-bottom",
        }
    }
}

/// How a button is lit.
#[derive(Debug, Clone, Copy, PartialEq, Eq, Structural)]
pub enum ButtonState {
    Active,
    Inactive,
    Deactivated,
    Unused,
}

impl ButtonState {
    /// The class of the button in the web interface's stylesheet.
    pub fn css_class(&self) -> (s: &'static str)
        ensures
            *self == ButtonState::Active ==> s@ == "button--active"@,
            *self == ButtonState::Inactive ==> s@ == "button--inactive"@,
            *self == ButtonState::Deactivated ==> s@ == "button--deactivated"@,
            *self == ButtonState::Unused ==> s@ == "button--unused"@,
    {
        match self {
            ButtonState::Active => "button--active",
            ButtonState::Inactive => "button--inactive",
            ButtonState::Deactivated => "button--deactivated",
            ButtonState::Unused => "button--unused",
        }
    }
}

impl Default for ButtonState {
    fn default() -> (s: ButtonState)
        ensures
            s == ButtonState::Unused,
    {
        ButtonState::Unused
    }
}

/// Identifies a fader on a control surface.
#[derive(Debug, Clone, Copy, PartialEq, Eq, Hash, PartialOrd, Ord, Structural)]
pub struct FaderId(pub usize);

impl FaderId {
    pub fn new(x: usize) -> (f: FaderId)
        ensures
            f.0 == x,
    {
        FaderId(x)
    }
}

} // verus!
