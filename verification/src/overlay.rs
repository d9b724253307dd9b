//! Overlay settings shared with the shell layer: where the on-screen
//! overlay sits, which mode it shows, and the parser for the position
//! setting's wire form. The window system itself is outside the library.

use crate::text::str_eq;
use vstd::prelude::*;

verus! {

/// Overlay position setting. `Disabled` turns the overlay off (its wire
/// form is the word "None").
#[derive(Debug, Clone, Copy, PartialEq, Eq, Structural)]
pub enum OverlayPosition {
    Disabled,
    Top,
    Bottom,
}

/// Overlay mode/state.
#[derive(Debug, Clone, PartialEq, Eq, Structural)]
pub enum OverlayMode {
    Recording,
    Transcribing,
    Transforming,
    Hidden,
}

impl Default for OverlayPosition {
    /// The overlay defaults to the bottom of the work area.
    fn default() -> (r: OverlayPosition)
        ensures
            r == OverlayPosition::Bottom,
    {
        OverlayPosition::Bottom
    }
}

/// Parses a position setting: exactly "Top", "Bottom" or "None"; any
/// other string is rejected.
pub fn parse_position(position: &str) -> (r: Result<OverlayPosition, String>)
    ensures
        position@ == "Top"@ ==> r == Ok::<OverlayPosition, String>(OverlayPosition::Top),
        position@ == "Bottom"@ ==> r == Ok::<OverlayPosition, String>(OverlayPosition::Bottom),
        position@ == "None"@ ==> r == Ok::<OverlayPosition, String>(OverlayPosition::Disabled),
        position@ != "Top"@ && position@ != "Bottom"@ && position@ != "None"@ ==> r is Err,
{
    proof {
        reveal_strlit("Top");
        reveal_strlit("Bottom");
        reveal_strlit("None");
        assert("Top"@.len() == 3);
        assert("Bottom"@.len() == 6);
        assert("None"@.len() == 4);
        assert("Top"@ != "Bottom"@);
        assert("Top"@ != "None"@);
        assert("Bottom"@ != "None"@);
    }
    if str_eq(position, "Top") {
        Ok(OverlayPosition::Top)
    } else if str_eq(position, "Bottom") {
        Ok(OverlayPosition::Bottom)
    } else if str_eq(position, "None") {
        Ok(OverlayPosition::Disabled)
    } else {
        Err("invalid overlay position".to_owned())
    }
}

} // verus!
