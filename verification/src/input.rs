use vstd::prelude::*;
use vstd::string::*;

use crate::text::same_text;

verus! {

/// Keyboard modifiers held while the mouse wheel turns.
#[derive(Clone, Copy, Debug, Default, PartialEq, Eq, Structural)]
pub struct Modifiers {
    pub alt: bool,
    pub control: bool,
    pub shift: bool,
}

/// What the canvas remembers between events.
#[derive(Clone, Copy, Debug, Default, PartialEq, Eq, Structural)]
pub struct InteractionState {
    pub last_modifiers: Modifiers,
}

/// What a wheel turn over the canvas does.
#[derive(Clone, Copy, Debug, PartialEq, Eq, Structural)]
pub enum ScrollAction {
    /// Zoom about the cursor.
    Zoom,
    /// Pan sideways by the wheel's vertical amount.
    PanHorizontal,
    /// Pan up or down by the wheel's vertical amount.
    PanVertical,
}

/// Alt zooms; Control or Shift pans sideways; otherwise the wheel pans up and
/// down.
pub fn scroll_action(modifiers: Modifiers) -> (a: ScrollAction)
    ensures
        a == (if modifiers.alt {
            ScrollAction::Zoom
        } else if modifiers.control || modifiers.shift {
            ScrollAction::PanHorizontal
        } else {
            ScrollAction::PanVertical
        }),
{
    if modifiers.alt {
        ScrollAction::Zoom
    } else if modifiers.control {
        ScrollAction::PanHorizontal
    } else if modifiers.shift {
        ScrollAction::PanHorizontal
    } else {
        ScrollAction::PanVertical
    }
}

/// The mouse cursor shown over the canvas.
#[derive(Clone, Copy, Debug, PartialEq, Eq, Structural)]
pub enum CursorStyle {
    Grabbing,
    Pointer,
    Default,
    Crosshair,
}

/// A grabbing hand while panning; with the select tool a pointer inside the
/// canvas and the default cursor outside; with any other tool a crosshair.
pub fn cursor_style(is_panning: bool, active_tool: &str, cursor_inside: bool) -> (c: CursorStyle)
    ensures
        c == (if is_panning {
            CursorStyle::Grabbing
        } else if active_tool@ == "select"@ {
            if cursor_inside {
                CursorStyle::Pointer
            } else {
                CursorStyle::Default
            }
        } else {
            CursorStyle::Crosshair
        }),
{
    if is_panning {
        return CursorStyle::Grabbing;
    }
    if same_text(active_tool, "select") {
        if cursor_inside {
            CursorStyle::Pointer
        } else {
            CursorStyle::Default
        }
    } else {
        CursorStyle::Crosshair
    }
}

/// Messages of the layers panel.
#[derive(Clone, Debug)]
pub enum LayersMessage {
    LayerSelected(String),
    LayerDoubleClicked(String),
    LayerNameChanged(String, String),
    LayerNameSubmitted,
    LayerVisibilityToggled(String),
}

/// Messages of the menu bar.
#[derive(Clone, Copy, Debug, PartialEq, Eq, Structural)]
pub enum MenuBarMessage {
    NewProject,
    OpenProject,
    SaveProject,
    Export,
    Undo,
    Redo,
}

/// Messages of the status bar.
#[derive(Clone, Copy, Debug, PartialEq, Eq, Structural)]
pub enum StatusBarMessage {
    ZoomIn,
    ZoomOut,
    ZoomReset,
}

/// Messages of the toolbar.
#[derive(Clone, Debug)]
pub enum ToolbarMessage {
    ToolSelected(String),
    Undo,
    Redo,
    NewProject,
    OpenProject,
    SaveProject,
    Export,
}

} // verus!
