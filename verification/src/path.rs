//! Outlines as sequences of path commands.
//!
//! A coordinate is a signed count of 1/65536 font units, so `65536` is one
//! unit and `32768` half a unit.

use vstd::prelude::*;
use crate::error::VectorDrawableError;

verus! {

/// One font unit, as a coordinate.
pub const UNIT: i64 = 65536;

/// The bound within which coordinates can be transformed without leaving
/// the range of their type: 2 to the power 62.
pub const COORD_LIMIT: i64 = 0x4000_0000_0000_0000;

/// One step of an outline.
#[derive(Clone, Copy, Debug, PartialEq, Eq, Structural)]
pub enum PathCommand {
    /// Starts a new contour at a point.
    MoveTo { x: i64, y: i64 },
    /// A straight line to a point.
    LineTo { x: i64, y: i64 },
    /// A quadratic curve with one control point.
    QuadTo { cx: i64, cy: i64, x: i64, y: i64 },
    /// A cubic curve with two control points.
    CubicTo { c1x: i64, c1y: i64, c2x: i64, c2y: i64, x: i64, y: i64 },
    /// Closes the current contour.
    Close,
}

/// An outline: path commands in drawing order. Contours are neither closed
/// nor reordered on the way.
#[derive(Clone, Debug, PartialEq, Eq)]
pub struct VectorPath {
    pub commands: Vec<PathCommand>,
}

impl View for VectorPath {
    type V = Seq<PathCommand>;

    open spec fn view(&self) -> Seq<PathCommand> {
        self.commands@
    }
}

/// `v` lies between `-limit` and `limit`.
pub open spec fn coord_within(v: i64, limit: int) -> bool {
    -limit <= v <= limit
}

/// Every coordinate of the command lies between `-limit` and `limit`.
pub open spec fn command_within(command: PathCommand, limit: int) -> bool {
    match command {
        PathCommand::MoveTo { x, y } => coord_within(x, limit) && coord_within(y, limit),
        PathCommand::LineTo { x, y } => coord_within(x, limit) && coord_within(y, limit),
        PathCommand::QuadTo { cx, cy, x, y } => coord_within(cx, limit) && coord_within(cy, limit)
            && coord_within(x, limit) && coord_within(y, limit),
        PathCommand::CubicTo { c1x, c1y, c2x, c2y, x, y } => coord_within(c1x, limit)
            && coord_within(c1y, limit) && coord_within(c2x, limit) && coord_within(c2y, limit)
            && coord_within(x, limit) && coord_within(y, limit),
        PathCommand::Close => true,
    }
}

/// Every coordinate of every command lies between `-limit` and `limit`.
pub open spec fn path_within(path: Seq<PathCommand>, limit: int) -> bool {
    forall|i: int| 0 <= i < path.len() ==> command_within(#[trigger] path[i], limit)
}

fn coord_fits(v: i64) -> (r: bool)
    ensures
        r == coord_within(v, COORD_LIMIT as int),
{
    -COORD_LIMIT <= v && v <= COORD_LIMIT
}

fn command_fits(command: &PathCommand) -> (r: bool)
    ensures
        r == command_within(*command, COORD_LIMIT as int),
{
    match *command {
        PathCommand::MoveTo { x, y } => coord_fits(x) && coord_fits(y),
        PathCommand::LineTo { x, y } => coord_fits(x) && coord_fits(y),
        PathCommand::QuadTo { cx, cy, x, y } => coord_fits(cx) && coord_fits(cy) && coord_fits(x)
            && coord_fits(y),
        PathCommand::CubicTo { c1x, c1y, c2x, c2y, x, y } => coord_fits(c1x) && coord_fits(c1y)
            && coord_fits(c2x) && coord_fits(c2y) && coord_fits(x) && coord_fits(y),
        PathCommand::Close => true,
    }
}

impl VectorPath {
    /// The path without commands.
    pub fn new() -> (path: VectorPath)
        ensures
            path@ == Seq::<PathCommand>::empty(),
    {
        VectorPath { commands: Vec::new() }
    }

    /// The number of commands.
    pub fn len(&self) -> (n: usize)
        ensures
            n == self@.len(),
    {
        self.commands.len()
    }

    /// Whether the path has no command.
    pub fn is_empty(&self) -> (r: bool)
        ensures
            r == (self@.len() == 0),
    {
        self.commands.len() == 0
    }

    /// Whether every coordinate lies within [`COORD_LIMIT`].
    pub fn fits(&self) -> (r: bool)
        ensures
            r == path_within(self@, COORD_LIMIT as int),
    {
        let mut i: usize = 0;
        while i < self.commands.len()
            invariant
                i <= self.commands.len(),
                forall|k: int| 0 <= k < i ==> command_within(#[trigger] self@[k], COORD_LIMIT as int),
            decreases self.commands.len() - i,
        {
            if !command_fits(&self.commands[i]) {
                return false;
            }
            i += 1;
        }
        true
    }
}

/// Collects an outline from the four drawing primitives and the close
/// signal, in the order in which they arrive.
#[derive(Debug)]
pub struct BezPen {
    path: VectorPath,
}

impl View for BezPen {
    type V = Seq<PathCommand>;

    closed spec fn view(&self) -> Seq<PathCommand> {
        self.path@
    }
}

/// How the font reader's drawing of a glyph ended.
#[derive(Clone, Copy, Debug, PartialEq, Eq, Structural)]
pub enum DrawOutcome {
    /// The font holds no outline data for the glyph; nothing was drawn.
    Missing,
    /// The font reader reported a failure while drawing.
    Failed,
    /// The font reader drew the whole glyph.
    Drawn,
}

/// What a pen with the commands `drawn` yields after the given outcome.
pub open spec fn outline_of(drawn: Seq<PathCommand>, outcome: DrawOutcome) -> Result<
    Seq<PathCommand>,
    VectorDrawableError,
> {
    match outcome {
        DrawOutcome::Failed => Err(VectorDrawableError::OutlineDrawFailed),
        DrawOutcome::Missing => Err(VectorDrawableError::NoOutline),
        DrawOutcome::Drawn => if drawn.len() == 0 {
            Err(VectorDrawableError::NoOutline)
        } else {
            Ok(drawn)
        },
    }
}

impl BezPen {
    /// A pen that has drawn nothing.
    pub fn new() -> (pen: BezPen)
        ensures
            pen@ == Seq::<PathCommand>::empty(),
    {
        BezPen { path: VectorPath::new() }
    }

    /// Begins a new contour at `(x, y)`.
    pub fn move_to(&mut self, x: i64, y: i64)
        ensures
            final(self)@ == old(self)@.push(PathCommand::MoveTo { x, y }),
    {
        self.path.commands.push(PathCommand::MoveTo { x, y });
    }

    /// Draws a line to `(x, y)`.
    pub fn line_to(&mut self, x: i64, y: i64)
        ensures
            final(self)@ == old(self)@.push(PathCommand::LineTo { x, y }),
    {
        self.path.commands.push(PathCommand::LineTo { x, y });
    }

    /// Draws a quadratic curve to `(x, y)` with the control point
    /// `(cx, cy)`.
    pub fn quad_to(&mut self, cx: i64, cy: i64, x: i64, y: i64)
        ensures
            final(self)@ == old(self)@.push(PathCommand::QuadTo { cx, cy, x, y }),
    {
        self.path.commands.push(PathCommand::QuadTo { cx, cy, x, y });
    }

    /// Draws a cubic curve to `(x, y)` with the control points `(c1x, c1y)`
    /// and `(c2x, c2y)`.
    pub fn curve_to(&mut self, c1x: i64, c1y: i64, c2x: i64, c2y: i64, x: i64, y: i64)
        ensures
            final(self)@ == old(self)@.push(PathCommand::CubicTo { c1x, c1y, c2x, c2y, x, y }),
    {
        self.path.commands.push(PathCommand::CubicTo { c1x, c1y, c2x, c2y, x, y });
    }

    /// Closes the current contour.
    pub fn close(&mut self)
        ensures
            final(self)@ == old(self)@.push(PathCommand::Close),
    {
        self.path.commands.push(PathCommand::Close);
    }

    /// Gives up the pen for the path it has drawn.
    pub fn into_inner(self) -> (path: VectorPath)
        ensures
            path@ == self@,
    {
        self.path
    }

    /// Gives up the pen for the outline of the glyph, once the font reader
    /// is done with it.
    ///
    /// A failed drawing is an error of its own. A glyph without outline
    /// data, and one drawn without a single command, has no outline.
    pub fn finish(self, outcome: DrawOutcome) -> (r: Result<VectorPath, VectorDrawableError>)
        ensures
            match r {
                Ok(path) => outline_of(self@, outcome) == Ok::<_, VectorDrawableError>(path@),
                Err(e) => outline_of(self@, outcome) == Err::<Seq<PathCommand>, _>(e),
            },
    {
        match outcome {
            DrawOutcome::Failed => Err(VectorDrawableError::OutlineDrawFailed),
            DrawOutcome::Missing => Err(VectorDrawableError::NoOutline),
            DrawOutcome::Drawn => {
                if self.path.is_empty() {
                    Err(VectorDrawableError::NoOutline)
                } else {
                    Ok(self.path)
                }
            },
        }
    }
}

} // verus!
