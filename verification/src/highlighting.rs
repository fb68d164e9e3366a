use vstd::prelude::*;

verus! {

/// A character's render-color category. `Plain` is the default for any
/// character that no more specific rule matches.
#[derive(Clone, Copy, Debug, PartialEq, Eq, Structural)]
pub enum Class {
    Plain,
    Number,
}

/// A truecolor value; the color markers that `Row::render` emits carry one.
#[derive(Clone, Copy, Debug, PartialEq, Eq, Structural)]
pub struct Rgb {
    pub r: u8,
    pub g: u8,
    pub b: u8,
}

impl Class {
    /// The foreground color a character of this category is drawn with.
    pub open spec fn spec_color(self) -> Rgb {
        match self {
            Class::Number => Rgb { r: 220, g: 163, b: 163 },
            Class::Plain => Rgb { r: 255, g: 255, b: 255 },
        }
    }

    pub fn color(&self) -> (c: Rgb)
        ensures
            c == self.spec_color(),
    {
        match self {
            Class::Number => Rgb { r: 220, g: 163, b: 163 },
            Class::Plain => Rgb { r: 255, g: 255, b: 255 },
        }
    }
}

} // verus!
