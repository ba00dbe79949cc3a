use vstd::prelude::*;

verus! {

/// The fonts that X-Plane can draw text with.
#[derive(Copy, Clone, Debug, Hash, PartialEq, Eq)]
pub enum FontID {
    Basic,
    Proportional,
}

impl FontID {
    /// The X-Plane font identifier of this font.
    pub open spec fn spec_id(self) -> i32 {
        match self {
            FontID::Basic => 0,
            FontID::Proportional => 18,
        }
    }

    /// Returns the X-Plane font identifier of this font.
    pub fn id(self) -> (r: i32)
        ensures
            r == self.spec_id(),
    {
        match self {
            FontID::Basic => 0,
            FontID::Proportional => 18,
        }
    }
}

/// The size of the characters of a font.
#[derive(Copy, Clone, Debug, Default, Hash, PartialEq, Eq)]
pub struct FontDimensions {
    pub char_width: i32,
    pub char_height: i32,
    pub digits_only: bool,
}

impl FontDimensions {
    /// Builds the dimensions from the values that X-Plane reports: the character width
    /// and height, and a flag that is nonzero when the font only has digits.
    pub fn from_raw(width: i32, height: i32, digits_only: i32) -> (r: FontDimensions)
        ensures
            r == (FontDimensions {
                char_width: width,
                char_height: height,
                digits_only: digits_only != 0,
            }),
    {
        FontDimensions { char_width: width, char_height: height, digits_only: digits_only != 0 }
    }
}

} // verus!
