//! The drawing commands of a 2D canvas and the command sequence that
//! draws one triangle.

use crate::color::Color;
use crate::geometry::{Point, Triangle};
use vstd::prelude::*;

verus! {

/// One call on a 2D drawing surface.
///
/// Path commands accumulate on the surface's current path until the next
/// `BeginPath`.
#[derive(Clone, Copy, Debug, PartialEq, Eq, Structural)]
pub enum DrawCommand {
    /// Select the colour used by later `Fill` commands.
    SetFillStyle(Color),
    /// Start a new, empty path.
    BeginPath,
    /// Move the current point without drawing.
    MoveTo(Point),
    /// Add a straight segment from the current point.
    LineTo(Point),
    /// Add a segment back to the start of the path.
    ClosePath,
    /// Paint the outline of the path.
    Stroke,
    /// Paint the interior of the path.
    Fill,
}

/// The commands that trace and stroke the outline of `triangle`:
/// from the top corner to the left, to the right, and back to the top.
pub open spec fn outline_spec(triangle: Triangle) -> Seq<DrawCommand> {
    seq![
        DrawCommand::BeginPath,
        DrawCommand::MoveTo(triangle.top),
        DrawCommand::LineTo(triangle.left),
        DrawCommand::LineTo(triangle.right),
        DrawCommand::LineTo(triangle.top),
        DrawCommand::ClosePath,
        DrawCommand::Stroke,
    ]
}

/// The commands that draw `triangle`: its stroked outline, and with a
/// colour also the selection of that colour before and the fill after.
pub open spec fn draw_triangle_spec(triangle: Triangle, color: Option<Color>) -> Seq<DrawCommand> {
    match color {
        Some(c) => seq![DrawCommand::SetFillStyle(c)] + outline_spec(triangle)
            + seq![DrawCommand::Fill],
        None => outline_spec(triangle),
    }
}

/// Number of commands that draw one triangle.
pub open spec fn draw_len(color: Option<Color>) -> nat {
    if color is Some {
        9
    } else {
        7
    }
}

/// Appends to `out` the commands that draw `triangle`, filled with
/// `color` if there is one and only stroked otherwise.
pub fn draw_triangle(triangle: Triangle, color: Option<Color>, out: &mut Vec<DrawCommand>)
    ensures
        final(out)@ == old(out)@ + draw_triangle_spec(triangle, color),
{
    let ghost before = out@;
    if let Some(c) = color {
        out.push(DrawCommand::SetFillStyle(c));
    }
    out.push(DrawCommand::BeginPath);
    out.push(DrawCommand::MoveTo(triangle.top));
    out.push(DrawCommand::LineTo(triangle.left));
    out.push(DrawCommand::LineTo(triangle.right));
    out.push(DrawCommand::LineTo(triangle.top));
    out.push(DrawCommand::ClosePath);
    out.push(DrawCommand::Stroke);
    if color.is_some() {
        out.push(DrawCommand::Fill);
    }
    assert(out@ =~= before + draw_triangle_spec(triangle, color));
}

} // verus!
