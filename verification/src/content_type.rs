use vstd::prelude::*;

verus! {

/// What the content pane shows.
#[derive(Clone, Copy, Debug, PartialEq, Eq, Structural)]
pub enum ContentType {
    NoSelection,
    Explore,
    Room,
}

impl ContentType {
    /// The content type when nothing is selected.
    pub fn default_type() -> (t: ContentType)
        ensures
            t == ContentType::NoSelection,
    {
        ContentType::NoSelection
    }

    /// The untranslated label of this content type.
    pub fn label_msgid(&self) -> (label: &'static str)
        ensures
            *self == ContentType::NoSelection ==> label@ == "No selection"@,
            *self == ContentType::Explore ==> label@ == "Explore"@,
            *self == ContentType::Room ==> label@ == "Room"@,
    {
        match self {
            ContentType::NoSelection => "No selection",
            ContentType::Explore => "Explore",
            ContentType::Room => "Room",
        }
    }
}

} // verus!
