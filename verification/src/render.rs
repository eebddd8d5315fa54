//! The recursive renderer: a triangle, then its three corner triangles,
//! each to one level less, until no level is left.

use crate::canvas::{draw_len, draw_triangle, draw_triangle_spec, DrawCommand};
use crate::color::Color;
use crate::geometry::{subdivide, subdivide_spec, Triangle};
use crate::random::random_palette;
use vstd::arithmetic::power::pow;
use vstd::prelude::*;

verus! {

/// The deepest coloured rendering that [`render`] produces: up to this
/// depth the number of palette colours stays below `2^32`, so that it
/// fits a `usize` on every target.
pub const MAX_DEPTH: u8 = 20;

/// Number of triangles in a rendering of the given depth:
/// `1 + 3 + 9 + ... + 3^depth`.
pub open spec fn triangle_count(depth: nat) -> nat
    decreases depth,
{
    if depth == 0 {
        1
    } else {
        1 + 3 * triangle_count((depth - 1) as nat)
    }
}

/// Number of triangles in a rendering of the given depth that are
/// subdivided further: `1 + 3 + ... + 3^(depth - 1)`, and none at depth 0.
pub open spec fn branch_count(depth: nat) -> nat
    decreases depth,
{
    if depth == 0 {
        0
    } else {
        1 + 3 * branch_count((depth - 1) as nat)
    }
}

/// Number of palette colours that a rendering of the given depth takes:
/// one for each subdivided triangle if it is coloured, none if it is not.
pub open spec fn palette_use(color: Option<Color>, depth: nat) -> nat {
    if color is Some {
        branch_count(depth)
    } else {
        0
    }
}

/// The colour that a subdivided triangle hands to its three children:
/// the palette colour at its own position if it is coloured itself.
pub open spec fn next_color(color: Option<Color>, palette: Seq<Color>, at: int) -> Option<Color> {
    if color is Some {
        Some(palette[at])
    } else {
        None
    }
}

/// The commands of a rendering of `triangle` to the given depth.
///
/// The triangle itself is drawn first, in `color`. If a level is left, its
/// top, left and right corner triangles follow in that order, each
/// rendered to one level less and all three in the same colour. A coloured
/// rendering takes that colour from `palette` at position `at`; the
/// colours for the subdivisions further down follow it in the order in
/// which the triangles are drawn.
pub open spec fn sierpinski_spec(
    triangle: Triangle,
    depth: nat,
    color: Option<Color>,
    palette: Seq<Color>,
    at: int,
) -> Seq<DrawCommand>
    decreases depth,
{
    if depth == 0 {
        draw_triangle_spec(triangle, color)
    } else {
        let below = (depth - 1) as nat;
        let (top, left, right) = subdivide_spec(triangle);
        let next = next_color(color, palette, at);
        let first = if color is Some {
            at + 1
        } else {
            at
        };
        let step = palette_use(color, below) as int;
        draw_triangle_spec(triangle, color) + sierpinski_spec(top, below, next, palette, first)
            + sierpinski_spec(left, below, next, palette, first + step) + sierpinski_spec(
            right,
            below,
            next,
            palette,
            first + 2 * step,
        )
    }
}

/// The test that picks the `Stroke` commands out of a sequence.
pub open spec fn is_stroke() -> spec_fn(DrawCommand) -> bool {
    |command: DrawCommand| command == DrawCommand::Stroke
}

/// Number of triangles that a command sequence draws: one for each
/// stroked outline.
pub open spec fn triangles_drawn(commands: Seq<DrawCommand>) -> nat {
    commands.filter(is_stroke()).len()
}

/// Renders `triangle` to the given depth, appending the commands to `out`.
///
/// A coloured rendering reads its colours from `palette`, starting at
/// position `at`; the position after the last colour it read is returned.
/// A rendering without colour reads nothing and returns `at`.
pub fn sierpinski(
    triangle: Triangle,
    depth: u8,
    color: Option<Color>,
    palette: &Vec<Color>,
    at: usize,
    out: &mut Vec<DrawCommand>,
) -> (end: usize)
    requires
        at + palette_use(color, depth as nat) <= palette@.len(),
    ensures
        end == at + palette_use(color, depth as nat),
        final(out)@ == old(out)@ + sierpinski_spec(
            triangle,
            depth as nat,
            color,
            palette@,
            at as int,
        ),
    decreases depth,
{
    let ghost before = out@;
    draw_triangle(triangle, color, out);
    if depth == 0 {
        return at;
    }
    let below: u8 = depth - 1;
    assert(color is Some ==> at < palette.len());
    let (next, first) = match color {
        Some(_) => (Some(palette[at]), at + 1),
        None => (None, at),
    };
    let (top, left, right) = subdivide(triangle);
    let after_top = sierpinski(top, below, next, palette, first, out);
    let after_left = sierpinski(left, below, next, palette, after_top, out);
    let after_right = sierpinski(right, below, next, palette, after_left, out);
    assert(out@ =~= before + sierpinski_spec(
        triangle,
        depth as nat,
        color,
        palette@,
        at as int,
    ));
    after_right
}

/// Renders `triangle` to the given depth, starting in `initial_color`
/// and taking the colours of the levels below from the start of `palette`.
pub fn render_with_palette(
    triangle: Triangle,
    max_depth: u8,
    initial_color: Option<Color>,
    palette: &Vec<Color>,
) -> (commands: Vec<DrawCommand>)
    requires
        palette_use(initial_color, max_depth as nat) <= palette@.len(),
    ensures
        commands@ == sierpinski_spec(triangle, max_depth as nat, initial_color, palette@, 0),
        max_depth == 0 ==> commands@ == draw_triangle_spec(triangle, initial_color),
        triangles_drawn(commands@) == triangle_count(max_depth as nat),
{
    let mut commands: Vec<DrawCommand> = Vec::new();
    sierpinski(triangle, max_depth, initial_color, palette, 0, &mut commands);
    proof {
        lemma_rendering_counts(triangle, max_depth as nat, initial_color, palette@, 0);
    }
    commands
}

/// The number of palette colours that a rendering of the given depth
/// takes.
pub fn palette_len(color: Option<Color>, depth: u8) -> (len: usize)
    requires
        color is Some ==> depth <= MAX_DEPTH,
    ensures
        len == palette_use(color, depth as nat),
{
    if color.is_none() {
        return 0;
    }
    let mut len: usize = 0;
    let mut level: u8 = 0;
    while level < depth
        invariant
            level <= depth <= MAX_DEPTH,
            len == branch_count(level as nat),
        decreases depth - level,
    {
        proof {
            lemma_branch_count_fits(level as nat + 1);
        }
        len = 3 * len + 1;
        level = level + 1;
    }
    len
}

/// Renders `triangle` to the given depth.
///
/// Without an initial colour every triangle is only stroked. With one,
/// the root triangle is filled with it, and every subdivided triangle
/// picks a fresh random colour for its three children.
pub fn render(triangle: Triangle, max_depth: u8, initial_color: Option<Color>) -> (commands: Vec<
    DrawCommand,
>)
    requires
        initial_color is Some ==> max_depth <= MAX_DEPTH,
    ensures
        exists|palette: Seq<Color>|
            palette.len() == palette_use(initial_color, max_depth as nat) && commands@
                == #[trigger] sierpinski_spec(
                triangle,
                max_depth as nat,
                initial_color,
                palette,
                0,
            ),
        initial_color is None ==> commands@ == sierpinski_spec(
            triangle,
            max_depth as nat,
            None,
            Seq::empty(),
            0,
        ),
        max_depth == 0 ==> commands@ == draw_triangle_spec(triangle, initial_color),
        triangles_drawn(commands@) == triangle_count(max_depth as nat),
{
    let palette = random_palette(palette_len(initial_color, max_depth));
    let commands = render_with_palette(triangle, max_depth, initial_color, &palette);
    proof {
        if initial_color is None {
            assert(palette@ =~= Seq::empty());
        }
    }
    commands
}

/// The number of subdivided triangles grows with the depth.
pub proof fn lemma_branch_count_monotonic(shallow: nat, deep: nat)
    requires
        shallow <= deep,
    ensures
        branch_count(shallow) <= branch_count(deep),
    decreases deep,
{
    if shallow < deep {
        lemma_branch_count_monotonic(shallow, (deep - 1) as nat);
    }
}

/// Up to [`MAX_DEPTH`] the number of subdivided triangles stays below
/// `2^32`.
pub proof fn lemma_branch_count_fits(depth: nat)
    requires
        depth <= MAX_DEPTH,
    ensures
        branch_count(depth) <= 1_743_392_200,
        branch_count(depth) <= usize::MAX,
{
    assert(branch_count(20) == 1_743_392_200) by {
        reveal_with_fuel(branch_count, 21);
    }
    lemma_branch_count_monotonic(depth, 20);
}

/// A rendering of depth `d` holds `(3^(d + 1) - 1) / 2` triangles.
pub proof fn lemma_triangle_count_formula(depth: nat)
    ensures
        2 * triangle_count(depth) + 1 == pow(3, depth + 1),
        triangle_count(depth) == (pow(3, depth + 1) - 1) / 2,
    decreases depth,
{
    reveal(pow);
    if depth == 0 {
        assert(pow(3, 1) == 3 * pow(3, 0));
    } else {
        lemma_triangle_count_formula((depth - 1) as nat);
        assert(pow(3, depth + 1) == 3 * pow(3, depth));
    }
}

/// Drawing one triangle strokes one outline, in seven commands without a
/// colour and nine with one.
pub proof fn lemma_draw_triangle_counts(triangle: Triangle, color: Option<Color>)
    ensures
        triangles_drawn(draw_triangle_spec(triangle, color)) == 1,
        draw_triangle_spec(triangle, color).len() == draw_len(color),
{
    reveal_with_fuel(Seq::filter, 10);
}

/// The triangles drawn by two command sequences in a row are those of
/// the first and those of the second.
pub proof fn lemma_triangles_drawn_concat(first: Seq<DrawCommand>, second: Seq<DrawCommand>)
    ensures
        triangles_drawn(first + second) == triangles_drawn(first) + triangles_drawn(second),
{
    Seq::filter_distributes_over_add(first, second, is_stroke());
}

/// A rendering of depth `d` draws exactly `1 + 3 + ... + 3^d` triangles,
/// whatever the triangle, the colour and the palette, and takes the same
/// number of commands for each of them.
pub proof fn lemma_rendering_counts(
    triangle: Triangle,
    depth: nat,
    color: Option<Color>,
    palette: Seq<Color>,
    at: int,
)
    ensures
        triangles_drawn(sierpinski_spec(triangle, depth, color, palette, at)) == triangle_count(
            depth,
        ),
        sierpinski_spec(triangle, depth, color, palette, at).len() == draw_len(color)
            * triangle_count(depth),
    decreases depth,
{
    lemma_draw_triangle_counts(triangle, color);
    if depth > 0 {
        let below = (depth - 1) as nat;
        let (top, left, right) = subdivide_spec(triangle);
        let next = next_color(color, palette, at);
        let first = if color is Some {
            at + 1
        } else {
            at
        };
        let step = palette_use(color, below) as int;
        let own = draw_triangle_spec(triangle, color);
        let of_top = sierpinski_spec(top, below, next, palette, first);
        let of_left = sierpinski_spec(left, below, next, palette, first + step);
        let of_right = sierpinski_spec(right, below, next, palette, first + 2 * step);
        lemma_rendering_counts(top, below, next, palette, first);
        lemma_rendering_counts(left, below, next, palette, first + step);
        lemma_rendering_counts(right, below, next, palette, first + 2 * step);
        lemma_triangles_drawn_concat(own, of_top);
        lemma_triangles_drawn_concat(own + of_top, of_left);
        lemma_triangles_drawn_concat(own + of_top + of_left, of_right);
        let each = draw_len(color) as int;
        let inner = triangle_count(below) as int;
        assert(draw_len(next) == each);
        assert(of_top.len() == each * inner);
        assert(of_left.len() == each * inner);
        assert(of_right.len() == each * inner);
        assert(each * (1 + 3 * inner) == each + 3 * (each * inner)) by (nonlinear_arith);
        assert((own + of_top + of_left + of_right).len() == each + 3 * (each * inner));
    } else {
        assert(draw_len(color) * 1 == draw_len(color));
    }
}

/// At depth 0 the rendering is the drawing of the triangle itself and
/// nothing else: one outline through its three corners in order, and no
/// corner triangle of it.
pub proof fn lemma_leaf_rendering(
    triangle: Triangle,
    color: Option<Color>,
    palette: Seq<Color>,
    at: int,
)
    ensures
        sierpinski_spec(triangle, 0, color, palette, at) == draw_triangle_spec(triangle, color),
        triangles_drawn(sierpinski_spec(triangle, 0, color, palette, at)) == 1,
{
    lemma_draw_triangle_counts(triangle, color);
}

/// A coloured rendering with a level left draws the triangle in its own
/// colour and then its three corner triangles in one shared colour, the
/// palette colour at its position.
pub proof fn lemma_children_share_color(
    triangle: Triangle,
    depth: nat,
    color: Color,
    palette: Seq<Color>,
    at: int,
)
    requires
        depth > 0,
    ensures
        ({
            let below = (depth - 1) as nat;
            let shared = Some(palette[at]);
            let step = branch_count(below) as int;
            let (top, left, right) = subdivide_spec(triangle);
            sierpinski_spec(triangle, depth, Some(color), palette, at) == draw_triangle_spec(
                triangle,
                Some(color),
            ) + sierpinski_spec(top, below, shared, palette, at + 1) + sierpinski_spec(
                left,
                below,
                shared,
                palette,
                at + 1 + step,
            ) + sierpinski_spec(right, below, shared, palette, at + 1 + 2 * step)
        }),
{
}

/// The part of `palette` that a rendering at position `at` reads: one
/// colour for each subdivided triangle.
pub open spec fn palette_window(
    color: Option<Color>,
    depth: nat,
    palette: Seq<Color>,
    at: int,
) -> Seq<Color> {
    palette.subrange(at, at + palette_use(color, depth))
}

/// A rendering reads the palette only in its window: two palettes that
/// hold the same colours there give the same commands.
pub proof fn lemma_palette_window(
    triangle: Triangle,
    depth: nat,
    color: Option<Color>,
    palette: Seq<Color>,
    at: int,
    other: Seq<Color>,
    other_at: int,
)
    requires
        0 <= at,
        at + palette_use(color, depth) <= palette.len(),
        0 <= other_at,
        other_at + palette_use(color, depth) <= other.len(),
        palette_window(color, depth, palette, at) == palette_window(color, depth, other, other_at),
    ensures
        sierpinski_spec(triangle, depth, color, palette, at) == sierpinski_spec(
            triangle,
            depth,
            color,
            other,
            other_at,
        ),
    decreases depth,
{
    if depth > 0 {
        let below = (depth - 1) as nat;
        let (top, left, right) = subdivide_spec(triangle);
        let next = next_color(color, palette, at);
        let step = palette_use(color, below) as int;
        let skip: int = if color is Some {
            1
        } else {
            0
        };
        let ours = palette_window(color, depth, palette, at);
        let theirs = palette_window(color, depth, other, other_at);
        assert(palette_use(next, below) == step);
        assert(palette_use(color, depth) == skip + 3 * step);
        assert(color is Some ==> palette[at] == ours[0] && other[other_at] == theirs[0]);
        assert(next == next_color(color, other, other_at));
        assert forall|k: int| 0 <= k < 3 implies #[trigger] palette_window(
            next,
            below,
            palette,
            at + skip + k * step,
        ) == palette_window(next, below, other, other_at + skip + k * step) by {
            assert(k * step == if k == 0 {
                0
            } else if k == 1 {
                step
            } else {
                2 * step
            });
            let from = skip + k * step;
            assert(palette_window(next, below, palette, at + from) =~= ours.subrange(
                from,
                from + step,
            ));
            assert(palette_window(next, below, other, other_at + from) =~= theirs.subrange(
                from,
                from + step,
            ));
        }
        assert(palette_window(next, below, palette, at + skip + 0 * step) == palette_window(
            next,
            below,
            other,
            other_at + skip + 0 * step,
        ));
        assert(palette_window(next, below, palette, at + skip + 1 * step) == palette_window(
            next,
            below,
            other,
            other_at + skip + 1 * step,
        ));
        assert(palette_window(next, below, palette, at + skip + 2 * step) == palette_window(
            next,
            below,
            other,
            other_at + skip + 2 * step,
        ));
        lemma_palette_window(top, below, next, palette, at + skip, other, other_at + skip);
        lemma_palette_window(
            left,
            below,
            next,
            palette,
            at + skip + step,
            other,
            other_at + skip + step,
        );
        lemma_palette_window(
            right,
            below,
            next,
            palette,
            at + skip + 2 * step,
            other,
            other_at + skip + 2 * step,
        );
    }
}

} // verus!
