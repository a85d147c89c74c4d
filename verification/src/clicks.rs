use vstd::prelude::*;
use crate::cell::Color;
use crate::colorpicker::TextFocus;
use crate::tools::Tool;

verus! {

/// What one click on a registered screen region asks for.
#[derive(Clone, Copy, Debug, PartialEq, Eq, Structural)]
pub enum ClickAction {
    Draw,
    Prev(Increment),
    Next(Increment),
    Assign(SetValue),
    Layer(LayerAction),
    Rename(PopupBoxAction),
    Export(PopupBoxAction),
    Save(PopupBoxAction),
    Exit(PopupBoxAction),
    PickColor(PickAction),
}

/// Which stepper a previous/next click turns.
#[derive(Clone, Copy, Debug, PartialEq, Eq, Structural)]
pub enum Increment {
    CharPicker,
    BrushSize,
}

/// A value a click writes into the brush.
#[derive(Clone, Copy, Debug, PartialEq, Eq, Structural)]
pub enum SetValue {
    Tool(Tool),
    Color(Color),
    Reset(ResetValue),
    Char(char),
}

/// Which brush color a reset click clears.
#[derive(Clone, Copy, Debug, PartialEq, Eq, Structural)]
pub enum ResetValue {
    FG,
    BG,
}

/// A layer-management command bound to a click.
#[derive(Clone, Copy, Debug, PartialEq, Eq, Structural)]
pub enum LayerAction {
    Add,
    Remove,
    Rename,
    Select(u8),
    MoveUp,
    MoveDown,
    ToggleVis(u8),
}

/// The three ways out of a confirmation popup.
#[derive(Clone, Copy, Debug, PartialEq, Eq, Structural)]
pub enum PopupBoxAction {
    Accept,
    Nothing,
    Deny,
}

/// A click inside the color picker popup.
#[derive(Clone, Copy, Debug, PartialEq, Eq, Structural)]
pub enum PickAction {
    AcceptFG,
    AcceptBG,
    ReplacePColor(Color, usize),
    Plus(TextFocus),
    Minus(TextFocus),
    ChangeFocus(TextFocus),
    Update(TextFocus, u8),
    New,
    Exit,
    Nothing,
}

} // verus!
