//! Brush and colour codes of a line record.

use crate::error::LinesError;
use vstd::prelude::*;
use vstd::std_specs::convert::TryFromSpecImpl;

verus! {

/// The tool a line was drawn with.
///
/// `EraseAll` and `SelectionBrush` are edit operations that a renderer has to
/// skip; no code of the stream maps to them.
#[derive(Clone, Copy, Debug, PartialEq, Eq, Structural)]
pub enum BrushType {
    BallPoint,
    Marker,
    Fineliner,
    SharpPencil,
    TiltPencil,
    Brush,
    Highlighter,
    Eraser,
    EraseArea,
    EraseAll,
    SelectionBrush,
    Calligraphy,
}

/// The tone a line was drawn in.
#[derive(Clone, Copy, Debug, PartialEq, Eq, Structural)]
pub enum Color {
    Black,
    Grey,
    White,
}

/// The brush that a code of the stream stands for, if any.
pub open spec fn brush_of_code(code: i32) -> Option<BrushType> {
    if code == 6 {
        Some(BrushType::Eraser)
    } else if code == 8 {
        Some(BrushType::EraseArea)
    } else if code == 12 {
        Some(BrushType::Brush)
    } else if code == 13 {
        Some(BrushType::SharpPencil)
    } else if code == 14 {
        Some(BrushType::TiltPencil)
    } else if code == 15 {
        Some(BrushType::BallPoint)
    } else if code == 16 {
        Some(BrushType::Marker)
    } else if code == 17 {
        Some(BrushType::Fineliner)
    } else if code == 18 {
        Some(BrushType::Highlighter)
    } else if code == 21 {
        Some(BrushType::Calligraphy)
    } else {
        None
    }
}

/// The tone that a code of the stream stands for, if any.
pub open spec fn color_of_code(code: i32) -> Option<Color> {
    if code == 0 {
        Some(Color::Black)
    } else if code == 1 {
        Some(Color::Grey)
    } else if code == 2 {
        Some(Color::White)
    } else {
        None
    }
}

impl TryFrom<i32> for BrushType {
    type Error = LinesError;

    /// The brush that `value` stands for; a code outside the table is
    /// refused with `UnknownBrush`.
    fn try_from(value: i32) -> (r: Result<BrushType, LinesError>) {
        match value {
            21 => Ok(BrushType::Calligraphy),
            15 => Ok(BrushType::BallPoint),
            16 => Ok(BrushType::Marker),
            17 => Ok(BrushType::Fineliner),
            13 => Ok(BrushType::SharpPencil),
            14 => Ok(BrushType::TiltPencil),
            12 => Ok(BrushType::Brush),
            18 => Ok(BrushType::Highlighter),
            6 => Ok(BrushType::Eraser),
            8 => Ok(BrushType::EraseArea),
            v => Err(LinesError::UnknownBrush(v)),
        }
    }
}

impl TryFromSpecImpl<i32> for BrushType {
    open spec fn obeys_try_from_spec() -> bool {
        true
    }

    open spec fn try_from_spec(value: i32) -> Result<BrushType, LinesError> {
        match brush_of_code(value) {
            Some(brush) => Ok(brush),
            None => Err(LinesError::UnknownBrush(value)),
        }
    }
}

impl TryFrom<i32> for Color {
    type Error = LinesError;

    /// The tone that `color_i` stands for; a code outside the table is
    /// refused with `UnknownColor`.
    fn try_from(color_i: i32) -> (r: Result<Color, LinesError>) {
        match color_i {
            0 => Ok(Color::Black),
            1 => Ok(Color::Grey),
            2 => Ok(Color::White),
            _ => Err(LinesError::UnknownColor(color_i)),
        }
    }
}

impl TryFromSpecImpl<i32> for Color {
    open spec fn obeys_try_from_spec() -> bool {
        true
    }

    open spec fn try_from_spec(color_i: i32) -> Result<Color, LinesError> {
        match color_of_code(color_i) {
            Some(color) => Ok(color),
            None => Err(LinesError::UnknownColor(color_i)),
        }
    }
}

} // verus!
