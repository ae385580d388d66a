//! The palette: the four colours a cell can have and the bytes that stand for them.

use crate::world::error::InternalConsistencyError;
use vstd::prelude::*;
use vstd::std_specs::convert::FromSpecImpl;
use vstd::std_specs::convert::TryFromSpecImpl;

verus! {

/// The red, green and blue bytes of one cell.
pub type Rgb = [u8; 3];

/// What a cell of the grid shows.
#[derive(Debug, Eq, PartialEq, Copy, Clone, Structural)]
pub enum Color {
    Background,
    Snake,
    Food,
    Fail,
}

impl Color {
    /// The red, green and blue bytes that stand for this colour, in that order.
    pub open spec fn rgb(self) -> Seq<u8> {
        match self {
            Color::Background => seq![0u8, 0u8, 0u8],
            Color::Snake => seq![0u8, 255u8, 0u8],
            Color::Food => seq![0u8, 0u8, 255u8],
            Color::Fail => seq![255u8, 0u8, 0u8],
        }
    }

    /// The colour that three bytes stand for, if they stand for one.
    pub open spec fn decode(r: u8, g: u8, b: u8) -> Option<Color> {
        if r == 0 && g == 0 && b == 0 {
            Some(Color::Background)
        } else if r == 0 && g == 255 && b == 0 {
            Some(Color::Snake)
        } else if r == 0 && g == 0 && b == 255 {
            Some(Color::Food)
        } else if r == 255 && g == 0 && b == 0 {
            Some(Color::Fail)
        } else {
            None
        }
    }

    /// What encoding this colour gives.
    pub open spec fn to_rgb(self) -> Rgb {
        match self {
            Color::Background => [0u8, 0u8, 0u8],
            Color::Snake => [0u8, 255u8, 0u8],
            Color::Food => [0u8, 0u8, 255u8],
            Color::Fail => [255u8, 0u8, 0u8],
        }
    }

    /// What decoding `rgb` gives: the colour it stands for, or the error that it
    /// stands for none.
    pub open spec fn from_rgb(rgb: Rgb) -> Result<Color, InternalConsistencyError> {
        match Color::decode(rgb[0], rgb[1], rgb[2]) {
            Some(color) => Ok(color),
            None => Err(InternalConsistencyError::UnknownColor),
        }
    }

    /// Decoding is the inverse of encoding: every colour decodes from its own
    /// encoding.
    pub proof fn lemma_from_rgb_of_to_rgb(self)
        ensures
            Color::from_rgb(self.to_rgb()) == Ok::<Color, InternalConsistencyError>(self),
            self.to_rgb()@ == self.rgb(),
            Color::decode(self.rgb()[0], self.rgb()[1], self.rgb()[2]) == Some(self),
    {
    }

    /// Encoding is the inverse of decoding: bytes that decode are the encoding of
    /// the colour they decode to.
    pub proof fn lemma_to_rgb_of_from_rgb(rgb: Rgb)
        requires
            Color::from_rgb(rgb) is Ok,
        ensures
            Color::from_rgb(rgb)->Ok_0.to_rgb() == rgb,
            Color::from_rgb(rgb)->Ok_0.rgb() == rgb@,
    {
        let color = Color::from_rgb(rgb)->Ok_0;
    }
}

impl FromSpecImpl<&Color> for Rgb {
    open spec fn obeys_from_spec() -> bool {
        true
    }

    open spec fn from_spec(color: &Color) -> Rgb {
        color.to_rgb()
    }
}

impl From<&Color> for Rgb {
    /// Encodes a colour. Every colour has an encoding.
    fn from(color: &Color) -> (rgb: Rgb) {
        match color {
            Color::Background => [0; 3],
            Color::Snake => [0, 255, 0],
            Color::Food => [0, 0, 255],
            Color::Fail => [255, 0, 0],
        }
    }
}

impl TryFromSpecImpl<&Rgb> for Color {
    open spec fn obeys_try_from_spec() -> bool {
        true
    }

    open spec fn try_from_spec(rgb: &Rgb) -> Result<Color, InternalConsistencyError> {
        Color::from_rgb(*rgb)
    }
}

impl TryFrom<&Rgb> for Color {
    type Error = InternalConsistencyError;

    /// Decodes three bytes. Only the four encodings decode; any other bytes give
    /// `UnknownColor`.
    fn try_from(rgb: &Rgb) -> (decoded: Result<Color, InternalConsistencyError>) {
        match (rgb[0], rgb[1], rgb[2]) {
            (0, 0, 0) => Ok(Color::Background),
            (0, 255, 0) => Ok(Color::Snake),
            (0, 0, 255) => Ok(Color::Food),
            (255, 0, 0) => Ok(Color::Fail),
            _ => Err(InternalConsistencyError::UnknownColor),
        }
    }
}

} // verus!
