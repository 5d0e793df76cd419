use vstd::prelude::*;

verus! {

/// How a room is highlighted in the sidebar, as a set of flag bits.
#[derive(Clone, Copy, Debug, PartialEq, Eq, Structural)]
pub struct HighlightFlags {
    pub bits: u32,
}

pub const HIGHLIGHT_NONE: u32 = 0b00000000;

pub const HIGHLIGHT_HIGHLIGHT: u32 = 0b00000001;

pub const HIGHLIGHT_BOLD: u32 = 0b00000010;

pub const HIGHLIGHT_HIGHLIGHT_BOLD: u32 = 0b00000011;

impl HighlightFlags {
    pub fn none() -> (f: HighlightFlags)
        ensures
            f.bits == HIGHLIGHT_NONE,
    {
        HighlightFlags { bits: HIGHLIGHT_NONE }
    }

    pub fn highlight() -> (f: HighlightFlags)
        ensures
            f.bits == HIGHLIGHT_HIGHLIGHT,
    {
        HighlightFlags { bits: HIGHLIGHT_HIGHLIGHT }
    }

    pub fn bold() -> (f: HighlightFlags)
        ensures
            f.bits == HIGHLIGHT_BOLD,
    {
        HighlightFlags { bits: HIGHLIGHT_BOLD }
    }

    pub fn highlight_bold() -> (f: HighlightFlags)
        ensures
            f.bits == HIGHLIGHT_HIGHLIGHT_BOLD,
    {
        HighlightFlags { bits: HIGHLIGHT_HIGHLIGHT_BOLD }
    }

    /// The flags a room has when nothing is set: none.
    pub fn default_flags() -> (f: HighlightFlags)
        ensures
            f.bits == HIGHLIGHT_NONE,
    {
        HighlightFlags::none()
    }

    /// Whether every flag of `other` is set in these flags.
    pub fn contains(&self, other: HighlightFlags) -> (b: bool)
        ensures
            b == (self.bits & other.bits == other.bits),
    {
        self.bits & other.bits == other.bits
    }
}

} // verus!
