//! The decorative markers and icons of the file list and the panes.
use vstd::prelude::*;

verus! {

/// Markers and icons drawn in front of list entries and titles.
pub struct Symbols;

impl Symbols {
    /// In front of the selected entry of a list.
    pub const FOCUS_MARKER: &'static str = "➤ ";
    /// In front of an entry of the effect palette.
    pub const ITEM_MARKER: &'static str = "◆ ";
    /// In front of a file that is neither audio nor a Soundcourse.
    pub const FILE_ICON: &'static str = "󰈚 ";
    /// In front of a directory.
    pub const DIR_ICON: &'static str = "󰉋 ";
    /// In front of an audio file.
    pub const AUDIO_ICON: &'static str = "󰎆 ";
    /// In front of an `.ini` or `.json` file.
    pub const CONFIG_ICON: &'static str = "󱁻 ";
    /// Before the clock in the title bar.
    pub const NAV_INDICATOR: &'static str = " » ";
}

} // verus!
