//! The stage that sorts detected lines into the roof grid's axes.
use vstd::prelude::*;
use crate::consts::MIN_CLASSIFIED_LINES;
use crate::types::AxisClass;

verus! {

/// The line-classification stage; it keeps no state between frames.
pub struct ClassifyStage;

impl ClassifyStage {
    pub fn new() -> (s: Self) {
        ClassifyStage
    }
}

/// The axis the alignment estimate follows: the vertical cluster when it has
/// enough lines, else the horizontal cluster when it has enough, else none
/// (`Outlier`).
pub fn dominant_axis(vertical_count: u32, horizontal_count: u32) -> (r: AxisClass)
    ensures
        r == (if vertical_count >= MIN_CLASSIFIED_LINES {
            AxisClass::Vertical
        } else if horizontal_count >= MIN_CLASSIFIED_LINES {
            AxisClass::Horizontal
        } else {
            AxisClass::Outlier
        }),
{
    if vertical_count as usize >= MIN_CLASSIFIED_LINES {
        AxisClass::Vertical
    } else if horizontal_count as usize >= MIN_CLASSIFIED_LINES {
        AxisClass::Horizontal
    } else {
        AxisClass::Outlier
    }
}

} // verus!
