//! The state of one pane that the tiled layout reads and changes.

use vstd::prelude::*;
use crate::geom::{
    geom_rows_inside_viewport, no_offset, rows_inside_viewport, Offset, PaneGeom, Viewport,
};

verus! {

/// Identifier of a connected client.
pub type ClientId = u16;

/// Identifier of a pane: a terminal or a plugin, each with its own number.
#[derive(Clone, Copy, Debug, PartialEq, Eq, Structural, Hash)]
pub enum PaneId {
    Terminal(u32),
    Plugin(u32),
}

/// The position of a pane id in the order in which panes are kept:
/// all terminals before all plugins, each kind by its number.
pub open spec fn pane_id_rank(id: PaneId) -> int {
    match id {
        PaneId::Terminal(n) => n as int,
        PaneId::Plugin(n) => 0x1_0000_0000 + n,
    }
}

/// Whether `a` comes strictly before `b` in the pane order.
pub fn pane_id_precedes(a: PaneId, b: PaneId) -> (r: bool)
    ensures
        r == (pane_id_rank(a) < pane_id_rank(b)),
{
    match (a, b) {
        (PaneId::Terminal(x), PaneId::Terminal(y)) => x < y,
        (PaneId::Terminal(_), PaneId::Plugin(_)) => true,
        (PaneId::Plugin(_), PaneId::Terminal(_)) => false,
        (PaneId::Plugin(x), PaneId::Plugin(y)) => x < y,
    }
}

/// The command a held pane ran.
#[derive(Clone, Debug)]
pub struct RunCommand {
    pub command: String,
    pub args: Vec<String>,
    pub cwd: Option<String>,
    pub hold_on_close: bool,
}

/// The point in time at which a pane was last made active.
#[verifier::external_type_specification]
#[verifier::external_body]
pub struct ExInstant(std::time::Instant);

/// Calls `std::time::Instant::now`. Nothing is claimed of the instant it
/// returns: it depends on the clock.
#[verifier::external_body]
pub(crate) fn instant_now() -> std::time::Instant {
    std::time::Instant::now()
}

/// What the layout knows of a pane: where it is, how its content is
/// offset from its edges, whether it draws a frame, and which parts of it
/// must be drawn again.
#[derive(Clone, Debug)]
pub struct Pane {
    pub pid: PaneId,
    pub position_and_size: PaneGeom,
    pub geom_override: Option<PaneGeom>,
    pub content_offset: Offset,
    pub borderless: bool,
    pub frame: bool,
    pub selectable: bool,
    pub should_render: bool,
    pub should_render_boundaries: bool,
    pub full_viewport_render_requested: bool,
    pub active_at: Option<std::time::Instant>,
    pub exit_status: Option<Option<i32>>,
    pub held_command: Option<RunCommand>,
}

/// The geometry a pane is shown at: its override if it has one.
pub open spec fn current_geom_of(p: Pane) -> PaneGeom {
    match p.geom_override {
        Some(g) => g,
        None => p.position_and_size,
    }
}

pub open spec fn sat_sub(a: int, b: int) -> int {
    if a >= b { a - b } else { 0 }
}

/// Columns left for the content inside a pane's offsets.
pub open spec fn content_columns_of(p: Pane) -> int {
    sat_sub(current_geom_of(p).cols.inner as int, p.content_offset.left + p.content_offset.right)
}

/// Rows left for the content inside a pane's offsets.
pub open spec fn content_rows_of(p: Pane) -> int {
    sat_sub(current_geom_of(p).rows.inner as int, p.content_offset.top + p.content_offset.bottom)
}

/// The rows of the pane as it is shown lie within the rows of the viewport.
pub open spec fn spec_is_inside_viewport(viewport: Viewport, p: Pane) -> bool {
    rows_inside_viewport(viewport, current_geom_of(p))
}

impl Pane {
    /// A pane with the given identity and place, nothing held, no override,
    /// no offset, no frame, and nothing pending to draw.
    pub fn new(pid: PaneId, position_and_size: PaneGeom, selectable: bool, borderless: bool) -> (p: Pane)
        ensures
            p.pid == pid,
            p.position_and_size == position_and_size,
            p.geom_override is None,
            p.content_offset == no_offset(),
            p.borderless == borderless,
            !p.frame,
            p.selectable == selectable,
            !p.should_render,
            !p.should_render_boundaries,
            !p.full_viewport_render_requested,
            p.active_at is None,
            p.exit_status is None,
            p.held_command is None,
    {
        Pane {
            pid,
            position_and_size,
            geom_override: None,
            content_offset: Offset::none(),
            borderless,
            frame: false,
            selectable,
            should_render: false,
            should_render_boundaries: false,
            full_viewport_render_requested: false,
            active_at: None,
            exit_status: None,
            held_command: None,
        }
    }

    pub fn pid(&self) -> (id: PaneId)
        ensures
            id == self.pid,
    {
        self.pid
    }

    pub fn position_and_size(&self) -> (g: PaneGeom)
        ensures
            g == self.position_and_size,
    {
        self.position_and_size
    }

    pub fn geom_override(&self) -> (g: Option<PaneGeom>)
        ensures
            g == self.geom_override,
    {
        self.geom_override
    }

    /// The geometry the pane is shown at.
    pub fn current_geom(&self) -> (g: PaneGeom)
        ensures
            g == current_geom_of(*self),
    {
        match self.geom_override {
            Some(g) => g,
            None => self.position_and_size,
        }
    }

    pub fn set_geom(&mut self, position_and_size: PaneGeom)
        ensures
            *final(self) == (Pane { position_and_size, ..*old(self) }),
    {
        self.position_and_size = position_and_size;
    }

    pub fn set_geom_override(&mut self, pane_geom: PaneGeom)
        ensures
            *final(self) == (Pane { geom_override: Some(pane_geom), ..*old(self) }),
    {
        self.geom_override = Some(pane_geom);
    }

    pub fn reset_size_and_position_override(&mut self)
        ensures
            *final(self) == (Pane { geom_override: None, ..*old(self) }),
    {
        self.geom_override = None;
    }

    pub fn set_content_offset(&mut self, offset: Offset)
        ensures
            *final(self) == (Pane { content_offset: offset, ..*old(self) }),
    {
        self.content_offset = offset;
    }

    pub fn set_frame(&mut self, frame: bool)
        ensures
            *final(self) == (Pane { frame, ..*old(self) }),
    {
        self.frame = frame;
    }

    pub fn borderless(&self) -> (b: bool)
        ensures
            b == self.borderless,
    {
        self.borderless
    }

    pub fn selectable(&self) -> (b: bool)
        ensures
            b == self.selectable,
    {
        self.selectable
    }

    pub fn set_should_render(&mut self, should_render: bool)
        ensures
            *final(self) == (Pane { should_render, ..*old(self) }),
    {
        self.should_render = should_render;
    }

    pub fn set_should_render_boundaries(&mut self, should_render: bool)
        ensures
            *final(self) == (Pane { should_render_boundaries: should_render, ..*old(self) }),
    {
        self.should_render_boundaries = should_render;
    }

    /// Asks for the whole pane to be drawn again.
    pub fn render_full_viewport(&mut self)
        ensures
            *final(self) == (Pane { full_viewport_render_requested: true, ..*old(self) }),
    {
        self.full_viewport_render_requested = true;
    }

    /// Records when the pane was made active.
    pub fn set_active_at(&mut self, time: std::time::Instant)
        ensures
            *final(self) == (Pane { active_at: Some(time), ..*old(self) }),
    {
        self.active_at = Some(time);
    }

    /// Keeps the pane open after its command ended, with the exit status.
    pub fn hold(&mut self, exit_status: Option<i32>, run_command: RunCommand)
        ensures
            *final(self) == (Pane {
                exit_status: Some(exit_status),
                held_command: Some(run_command),
                ..*old(self)
            }),
    {
        self.exit_status = Some(exit_status);
        self.held_command = Some(run_command);
    }

    /// Columns left for the content inside the pane's offsets.
    pub fn get_content_columns(&self) -> (n: usize)
        ensures
            n == content_columns_of(*self),
    {
        let g = self.current_geom();
        let cols = g.cols.as_usize();
        let off = (self.content_offset.left as u128) + (self.content_offset.right as u128);
        if (cols as u128) >= off {
            (cols as u128 - off) as usize
        } else {
            0
        }
    }

    /// Rows left for the content inside the pane's offsets.
    pub fn get_content_rows(&self) -> (n: usize)
        ensures
            n == content_rows_of(*self),
    {
        let g = self.current_geom();
        let rows = g.rows.as_usize();
        let off = (self.content_offset.top as u128) + (self.content_offset.bottom as u128);
        if (rows as u128) >= off {
            (rows as u128 - off) as usize
        } else {
            0
        }
    }
}

/// Whether the rows of a pane, as it is shown, lie within the rows of the
/// viewport.
pub fn is_inside_viewport(viewport: &Viewport, pane: &Pane) -> (b: bool)
    ensures
        b == spec_is_inside_viewport(*viewport, *pane),
{
    let g = pane.current_geom();
    geom_rows_inside_viewport(viewport, &g)
}

} // verus!
