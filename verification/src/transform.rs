//! From the font's coordinate system, with its origin on the baseline and y
//! growing upwards, to that of SVG, with its origin at the top left and y
//! growing downwards.

use vstd::prelude::*;
use crate::path::{
    command_within, coord_within, path_within, PathCommand, VectorPath, COORD_LIMIT, UNIT,
};

verus! {

/// A y coordinate mirrored at the x axis.
pub open spec fn mirrored(y: int) -> int {
    -y
}

/// A y coordinate moved up by the height of the em square.
pub open spec fn raised(y: int, units_per_em: u16) -> int {
    y + units_per_em * UNIT
}

/// A y coordinate mirrored, then raised.
pub open spec fn flip_y(y: i64, units_per_em: u16) -> i64 {
    raised(mirrored(y as int), units_per_em) as i64
}

/// A command with every y coordinate flipped, control points included, and
/// every x coordinate kept.
pub open spec fn flip_command(command: PathCommand, units_per_em: u16) -> PathCommand {
    match command {
        PathCommand::MoveTo { x, y } => PathCommand::MoveTo { x, y: flip_y(y, units_per_em) },
        PathCommand::LineTo { x, y } => PathCommand::LineTo { x, y: flip_y(y, units_per_em) },
        PathCommand::QuadTo { cx, cy, x, y } => PathCommand::QuadTo {
            cx,
            cy: flip_y(cy, units_per_em),
            x,
            y: flip_y(y, units_per_em),
        },
        PathCommand::CubicTo { c1x, c1y, c2x, c2y, x, y } => PathCommand::CubicTo {
            c1x,
            c1y: flip_y(c1y, units_per_em),
            c2x,
            c2y: flip_y(c2y, units_per_em),
            x,
            y: flip_y(y, units_per_em),
        },
        PathCommand::Close => PathCommand::Close,
    }
}

/// A path with every command flipped, in the same order.
pub open spec fn flipped(path: Seq<PathCommand>, units_per_em: u16) -> Seq<PathCommand> {
    path.map_values(|c: PathCommand| flip_command(c, units_per_em))
}

/// Mirroring twice gives the coordinate back, and so does flipping twice
/// with the same em square: the second mirroring undoes the first, and the
/// two raisings cancel across it.
pub proof fn lemma_flip_twice(y: i64, units_per_em: u16)
    requires
        coord_within(y, COORD_LIMIT as int),
    ensures
        mirrored(mirrored(y as int)) == y,
        flip_y(flip_y(y, units_per_em), units_per_em) == y,
{
}

/// Flipping a path twice with the same em square gives the path back.
pub proof fn lemma_flipped_twice(path: Seq<PathCommand>, units_per_em: u16)
    requires
        path_within(path, COORD_LIMIT as int),
    ensures
        flipped(flipped(path, units_per_em), units_per_em) == path,
{
    let once = flipped(path, units_per_em);
    let twice = flipped(once, units_per_em);
    assert forall|i: int| 0 <= i < path.len() implies twice[i] == path[i] by {
        assert(command_within(path[i], COORD_LIMIT as int));
        assert(once[i] == flip_command(path[i], units_per_em));
    }
    assert(twice =~= path);
}

/// A flipped path still lies within the limit widened by the height of the
/// em square.
pub proof fn lemma_flipped_within(path: Seq<PathCommand>, units_per_em: u16)
    requires
        path_within(path, COORD_LIMIT as int),
    ensures
        path_within(flipped(path, units_per_em), COORD_LIMIT + units_per_em * UNIT),
{
    let once = flipped(path, units_per_em);
    assert forall|i: int| 0 <= i < once.len() implies command_within(
        #[trigger] once[i],
        COORD_LIMIT + units_per_em * UNIT,
    ) by {
        assert(command_within(path[i], COORD_LIMIT as int));
    }
}

fn flip(y: i64, units_per_em: u16) -> (r: i64)
    requires
        coord_within(y, COORD_LIMIT as int),
    ensures
        r == flip_y(y, units_per_em),
{
    units_per_em as i64 * UNIT - y
}

fn flip_one(command: &PathCommand, units_per_em: u16) -> (r: PathCommand)
    requires
        command_within(*command, COORD_LIMIT as int),
    ensures
        r == flip_command(*command, units_per_em),
{
    match *command {
        PathCommand::MoveTo { x, y } => PathCommand::MoveTo { x, y: flip(y, units_per_em) },
        PathCommand::LineTo { x, y } => PathCommand::LineTo { x, y: flip(y, units_per_em) },
        PathCommand::QuadTo { cx, cy, x, y } => PathCommand::QuadTo {
            cx,
            cy: flip(cy, units_per_em),
            x,
            y: flip(y, units_per_em),
        },
        PathCommand::CubicTo { c1x, c1y, c2x, c2y, x, y } => PathCommand::CubicTo {
            c1x,
            c1y: flip(c1y, units_per_em),
            c2x,
            c2y: flip(c2y, units_per_em),
            x,
            y: flip(y, units_per_em),
        },
        PathCommand::Close => PathCommand::Close,
    }
}

/// Flips a path into SVG's coordinate system: every y coordinate is
/// mirrored at the x axis and then raised by the height of the em square.
///
/// The coordinates must lie within [`COORD_LIMIT`], which
/// [`VectorPath::fits`] tests, so that the flipped ones fit their type.
pub fn normalize_path(path: &VectorPath, units_per_em: u16) -> (out: VectorPath)
    requires
        path_within(path@, COORD_LIMIT as int),
    ensures
        out@ == flipped(path@, units_per_em),
{
    let mut commands: Vec<PathCommand> = Vec::new();
    let mut i: usize = 0;
    while i < path.commands.len()
        invariant
            i <= path.commands.len(),
            path_within(path@, COORD_LIMIT as int),
            commands@ == flipped(path@, units_per_em).subrange(0, i as int),
        decreases path.commands.len() - i,
    {
        assert(command_within(path@[i as int], COORD_LIMIT as int));
        commands.push(flip_one(&path.commands[i], units_per_em));
        assert(commands@ =~= flipped(path@, units_per_em).subrange(0, i + 1));
        i += 1;
    }
    assert(commands@ =~= flipped(path@, units_per_em));
    VectorPath { commands }
}

/// Flips a path as [`normalize_path`] does, where its coordinates allow it.
pub fn try_normalize_path(path: &VectorPath, units_per_em: u16) -> (out: Option<VectorPath>)
    ensures
        match out {
            Some(flipped_path) => path_within(path@, COORD_LIMIT as int) && flipped_path@
                == flipped(path@, units_per_em),
            None => !path_within(path@, COORD_LIMIT as int),
        },
{
    if path.fits() {
        Some(normalize_path(path, units_per_em))
    } else {
        None
    }
}

} // verus!
