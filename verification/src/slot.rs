//! The four body views a session holds a photograph and crop metadata for.

use vstd::prelude::*;
use crate::errors::RecordError;
use crate::text::same_text;

verus! {

/// One of the four fixed image slots of a session.
#[derive(Clone, Copy, Debug, PartialEq, Eq, Structural)]
pub enum ImageSlot {
    Anterior,
    Posterior,
    RightLateral,
    LeftLateral,
}

impl ImageSlot {
    /// The name a slot is addressed by.
    pub open spec fn name_text(self) -> Seq<char> {
        match self {
            ImageSlot::Anterior => "anterior"@,
            ImageSlot::Posterior => "posterior"@,
            ImageSlot::RightLateral => "right_lateral"@,
            ImageSlot::LeftLateral => "left_lateral"@,
        }
    }

    /// The slot that `name` addresses, if it is one of the four names.
    pub open spec fn named(name: Seq<char>) -> Option<ImageSlot> {
        if name == "anterior"@ {
            Some(ImageSlot::Anterior)
        } else if name == "posterior"@ {
            Some(ImageSlot::Posterior)
        } else if name == "right_lateral"@ {
            Some(ImageSlot::RightLateral)
        } else if name == "left_lateral"@ {
            Some(ImageSlot::LeftLateral)
        } else {
            None
        }
    }

    /// The name of this slot.
    pub fn name(self) -> (name: &'static str)
        ensures
            name@ == self.name_text(),
    {
        match self {
            ImageSlot::Anterior => "anterior",
            ImageSlot::Posterior => "posterior",
            ImageSlot::RightLateral => "right_lateral",
            ImageSlot::LeftLateral => "left_lateral",
        }
    }

    /// Reads a slot name; any text but the four names is refused.
    pub fn parse(name: &str) -> (result: Result<ImageSlot, RecordError>)
        ensures
            result == match ImageSlot::named(name@) {
                Some(slot) => Ok::<ImageSlot, RecordError>(slot),
                None => Err(RecordError::InvalidSlot),
            },
    {
        if same_text(name, "anterior") {
            Ok(ImageSlot::Anterior)
        } else if same_text(name, "posterior") {
            Ok(ImageSlot::Posterior)
        } else if same_text(name, "right_lateral") {
            Ok(ImageSlot::RightLateral)
        } else if same_text(name, "left_lateral") {
            Ok(ImageSlot::LeftLateral)
        } else {
            Err(RecordError::InvalidSlot)
        }
    }
}

/// Every slot is addressed by its own name, and by no other.
pub proof fn law_slot_names_round_trip(slot: ImageSlot)
    ensures
        ImageSlot::named(slot.name_text()) == Some(slot),
{
    reveal_strlit("anterior");
    reveal_strlit("posterior");
    reveal_strlit("right_lateral");
    reveal_strlit("left_lateral");
    assert("anterior"@.len() == 8);
    assert("posterior"@.len() == 9);
    assert("right_lateral"@.len() == 13);
    assert("left_lateral"@.len() == 12);
}

} // verus!
