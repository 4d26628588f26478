//! Plain geometry values: sizes, positions, viewports and content offsets.

use vstd::prelude::*;

verus! {

/// How a pane dimension was requested: a fixed number of cells or a
/// share of the available space (in hundredths of a percent, so that
/// `10000` is the whole space).
#[derive(Clone, Copy, Debug, PartialEq, Eq, Structural)]
pub enum Constraint {
    Fixed(usize),
    Percent(u64),
}

/// One dimension (rows or columns) of a pane: its constraint and the
/// number of cells it currently spans.
#[derive(Clone, Copy, Debug, PartialEq, Eq, Structural)]
pub struct Dimension {
    pub constraint: Constraint,
    pub inner: usize,
}

impl Dimension {
    /// A fixed dimension of `space` cells.
    pub fn fixed(space: usize) -> (d: Dimension)
        ensures
            d == (Dimension { constraint: Constraint::Fixed(space), inner: space }),
    {
        Dimension { constraint: Constraint::Fixed(space), inner: space }
    }

    /// A dimension taking a share of the space; its cell count starts at one.
    pub fn percent(hundredths: u64) -> (d: Dimension)
        ensures
            d == (Dimension { constraint: Constraint::Percent(hundredths), inner: 1 }),
    {
        Dimension { constraint: Constraint::Percent(hundredths), inner: 1 }
    }

    /// The whole available space, which is what an unspecified dimension is.
    pub fn full() -> (d: Dimension)
        ensures
            d == (Dimension { constraint: Constraint::Percent(10000), inner: 1 }),
    {
        Dimension::percent(10000)
    }

    pub open spec fn spec_is_fixed(&self) -> bool {
        self.constraint is Fixed
    }

    /// Number of cells the dimension spans.
    pub fn as_usize(&self) -> (n: usize)
        ensures
            n == self.inner,
    {
        self.inner
    }

    /// Whether the dimension was requested as a fixed size.
    pub fn is_fixed(&self) -> (b: bool)
        ensures
            b == self.spec_is_fixed(),
    {
        match self.constraint {
            Constraint::Fixed(_) => true,
            Constraint::Percent(_) => false,
        }
    }

    pub fn set_inner(&mut self, inner: usize)
        ensures
            *final(self) == (Dimension { inner, ..*old(self) }),
    {
        self.inner = inner;
    }
}

/// Position and size of a pane on the screen.
#[derive(Clone, Copy, Debug, PartialEq, Eq, Structural)]
pub struct PaneGeom {
    pub x: usize,
    pub y: usize,
    pub rows: Dimension,
    pub cols: Dimension,
}

impl PaneGeom {
    /// The geometry at the origin spanning the whole space in both directions.
    pub fn default_geom() -> (g: PaneGeom)
        ensures
            g == default_pane_geom(),
    {
        PaneGeom { x: 0, y: 0, rows: Dimension::full(), cols: Dimension::full() }
    }
}

pub open spec fn default_pane_geom() -> PaneGeom {
    PaneGeom {
        x: 0,
        y: 0,
        rows: Dimension { constraint: Constraint::Percent(10000), inner: 1 },
        cols: Dimension { constraint: Constraint::Percent(10000), inner: 1 },
    }
}

/// A visible rectangle of the screen.
#[derive(Clone, Copy, Debug, PartialEq, Eq, Structural)]
pub struct Viewport {
    pub x: usize,
    pub y: usize,
    pub rows: usize,
    pub cols: usize,
}

pub open spec fn geom_to_viewport(g: PaneGeom) -> Viewport {
    Viewport { x: g.x, y: g.y, rows: g.rows.inner, cols: g.cols.inner }
}

impl Viewport {
    /// The rectangle a pane geometry covers.
    pub fn from_geom(geom: PaneGeom) -> (v: Viewport)
        ensures
            v == geom_to_viewport(geom),
    {
        Viewport { x: geom.x, y: geom.y, rows: geom.rows.as_usize(), cols: geom.cols.as_usize() }
    }
}

/// Rows and columns of a screen area.
#[derive(Clone, Copy, Debug, PartialEq, Eq, Structural)]
pub struct Size {
    pub rows: usize,
    pub cols: usize,
}

/// Size of one character cell in pixels.
#[derive(Clone, Copy, Debug, PartialEq, Eq, Structural)]
pub struct SizeInPixels {
    pub height: usize,
    pub width: usize,
}

/// How far the content of a pane is moved in from each of its edges.
#[derive(Clone, Copy, Debug, PartialEq, Eq, Structural)]
pub struct Offset {
    pub top: usize,
    pub bottom: usize,
    pub right: usize,
    pub left: usize,
}

pub open spec fn no_offset() -> Offset {
    Offset { top: 0, bottom: 0, right: 0, left: 0 }
}

pub open spec fn frame_offset(size: usize) -> Offset {
    Offset { top: size, bottom: size, right: size, left: size }
}

pub open spec fn shift_offset(bottom: usize, right: usize) -> Offset {
    Offset { top: 0, bottom, right, left: 0 }
}

impl Offset {
    /// No offset on any side.
    pub fn none() -> (o: Offset)
        ensures
            o == no_offset(),
    {
        Offset { top: 0, bottom: 0, right: 0, left: 0 }
    }

    /// The same offset on all four sides, as a frame of `size` cells needs.
    pub fn frame(size: usize) -> (o: Offset)
        ensures
            o == frame_offset(size),
    {
        Offset { top: size, bottom: size, right: size, left: size }
    }

    /// An offset on the bottom and right sides only.
    pub fn shift(bottom: usize, right: usize) -> (o: Offset)
        ensures
            o == shift_offset(bottom, right),
    {
        Offset { top: 0, bottom, right, left: 0 }
    }
}

/// The direction in which a pane is split.
#[derive(Clone, Copy, Debug, PartialEq, Eq, Structural)]
pub enum SplitDirection {
    Horizontal,
    Vertical,
}

pub open spec fn spec_other_direction(d: SplitDirection) -> SplitDirection {
    match d {
        SplitDirection::Horizontal => SplitDirection::Vertical,
        SplitDirection::Vertical => SplitDirection::Horizontal,
    }
}

impl SplitDirection {
    /// The perpendicular direction.
    pub fn other(self) -> (d: SplitDirection)
        ensures
            d == spec_other_direction(self),
    {
        match self {
            SplitDirection::Horizontal => SplitDirection::Vertical,
            SplitDirection::Vertical => SplitDirection::Horizontal,
        }
    }
}

/// Whether a pane at `geom` ends before the right edge (first) and before
/// the bottom edge (second) of the viewport; each is one cell of content
/// offset, left for the boundary to the next pane.
pub open spec fn spec_pane_content_offset(geom: PaneGeom, viewport: Viewport) -> (usize, usize) {
    (
        if geom.x + geom.cols.inner < viewport.cols { 1 } else { 0 },
        if geom.y + geom.rows.inner < viewport.rows { 1 } else { 0 },
    )
}

/// Columns and rows of content offset that a pane needs when the boundaries
/// between panes are drawn by the tab: one cell towards every neighbour,
/// none at the right or bottom edge of the viewport.
pub fn pane_content_offset(position_and_size: &PaneGeom, viewport: &Viewport) -> (r: (usize, usize))
    ensures
        r == spec_pane_content_offset(*position_and_size, *viewport),
{
    let columns_offset: usize = if position_and_size.x < viewport.cols
        && position_and_size.cols.as_usize() < viewport.cols - position_and_size.x {
        1
    } else {
        0
    };
    let rows_offset: usize = if position_and_size.y < viewport.rows
        && position_and_size.rows.as_usize() < viewport.rows - position_and_size.y {
        1
    } else {
        0
    };
    (columns_offset, rows_offset)
}

/// The rows of `geom` lie within the rows of the viewport.
pub open spec fn rows_inside_viewport(viewport: Viewport, geom: PaneGeom) -> bool {
    geom.y >= viewport.y && geom.y + geom.rows.inner <= viewport.y + viewport.rows
}

/// The geometry lies wholly within the viewport, in both directions.
pub open spec fn spec_geom_inside_viewport(viewport: Viewport, geom: PaneGeom) -> bool {
    &&& rows_inside_viewport(viewport, geom)
    &&& geom.x >= viewport.x
    &&& geom.x + geom.cols.inner <= viewport.x + viewport.cols
}

/// Whether the rows of a geometry lie within the rows of a viewport.
pub fn geom_rows_inside_viewport(viewport: &Viewport, geom: &PaneGeom) -> (b: bool)
    ensures
        b == rows_inside_viewport(*viewport, *geom),
{
    geom.y >= viewport.y && (geom.y as u128) + (geom.rows.as_usize() as u128) <= (viewport.y as u128)
        + (viewport.rows as u128)
}

/// Whether a geometry lies wholly within a viewport.
pub fn pane_geom_is_inside_viewport(viewport: &Viewport, geom: &PaneGeom) -> (b: bool)
    ensures
        b == spec_geom_inside_viewport(*viewport, *geom),
{
    geom_rows_inside_viewport(viewport, geom) && geom.x >= viewport.x && (geom.x as u128) + (
    geom.cols.as_usize() as u128) <= (viewport.x as u128) + (viewport.cols as u128)
}

} // verus!
