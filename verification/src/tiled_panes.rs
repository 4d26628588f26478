//! The tiled panes of a tab: which panes exist and where, which pane each
//! client has focused, which panes are hidden behind a fullscreen pane, and
//! how each pane's content is offset from its edges.

use vstd::prelude::*;
use vstd::string::StringExecFns;
use crate::frame::{decimal, decimal_chars, lemma_decimal_u64};
use crate::assoc::{
    assoc_has, assoc_index, assoc_map, keys_distinct, lemma_assoc_empty, lemma_assoc_insert, lemma_assoc_map,
    lemma_assoc_push, lemma_assoc_remove, lemma_assoc_update,
};
use crate::geom::{
    default_pane_geom, frame_offset, geom_to_viewport, no_offset, pane_content_offset,
    shift_offset, spec_other_direction, spec_pane_content_offset, Dimension, Offset, PaneGeom,
    Size, SizeInPixels, SplitDirection, Viewport,
};
use crate::pane::{
    content_columns_of, content_rows_of, current_geom_of, instant_now, is_inside_viewport,
    pane_id_precedes, pane_id_rank, spec_is_inside_viewport, ClientId, Pane, PaneId, RunCommand,
};

verus! {

/// The smallest number of rows a terminal pane may have.
pub const MIN_TERMINAL_HEIGHT: usize = 5;

/// The smallest number of columns a terminal pane may have.
pub const MIN_TERMINAL_WIDTH: usize = 5;

/// A request to the operating system to give a terminal a new size.
#[derive(Clone, Copy, Debug, PartialEq, Eq, Structural)]
pub struct PtyResize {
    pub terminal_id: u32,
    pub columns: u16,
    pub rows: u16,
}

/// A geometry that the pane grid computed for one pane.
#[derive(Clone, Copy, Debug, PartialEq, Eq, Structural)]
pub struct GeomUpdate {
    pub pane_id: PaneId,
    pub geom: PaneGeom,
}

/// The input mode a client is in, which the frames and boundaries it sees
/// show.
#[derive(Clone, Copy, Debug, PartialEq, Eq, Structural)]
pub enum InputMode {
    Normal,
    Locked,
    Resize,
    Pane,
    Tab,
    Scroll,
    EnterSearch,
    Search,
    RenameTab,
    RenamePane,
    Session,
    Move,
    Prompt,
    Tmux,
}

/// The input mode of client `c`: the first one listed for it, else the
/// default mode.
pub open spec fn client_mode(modes: Seq<(ClientId, InputMode)>, c: ClientId, default_mode: InputMode) -> InputMode
    decreases modes.len(),
{
    if modes.len() == 0 {
        default_mode
    } else if modes[0].0 == c {
        modes[0].1
    } else {
        client_mode(modes.drop_first(), c, default_mode)
    }
}

/// What is needed to draw the tiled panes for the connected clients.
#[derive(Clone, Debug)]
pub struct RenderPlan {
    /// The clients to draw for, in order.
    pub clients: Vec<ClientId>,
    /// The pane each client has focused, as the frames should show it.
    pub active_panes: Vec<(ClientId, PaneId)>,
    /// The panes to draw, in order; hidden panes are left out.
    pub panes: Vec<PaneId>,
    /// Whether each pane draws its own frame (else the tab draws the
    /// boundaries between panes).
    pub draw_pane_frames: bool,
    /// Whether more than one client is in the session.
    pub multiple_users_exist_in_session: bool,
    /// The input mode of each client to draw for, in order.
    pub client_modes: Vec<(ClientId, InputMode)>,
    pub session_is_mirrored: bool,
}

/// The abstract state of the tiled panes.
pub struct TiledPanesView {
    /// The panes under their ids, in the order of `pane_id_rank`.
    pub entries: Seq<(PaneId, Pane)>,
    pub display_area: Size,
    pub viewport: Viewport,
    pub connected_clients: Seq<ClientId>,
    pub connected_clients_in_app: Seq<ClientId>,
    pub character_cell_size: Option<SizeInPixels>,
    pub session_is_mirrored: bool,
    /// The pane each client has focused.
    pub active_panes: Map<ClientId, PaneId>,
    pub draw_pane_frames: bool,
    pub panes_to_hide: Set<PaneId>,
    pub fullscreen_is_active: bool,
    /// Terminal resizes asked of the operating system, oldest first.
    pub pty_resizes: Seq<PtyResize>,
    /// The input modes known for clients (see `client_mode`).
    pub modes: Seq<(ClientId, InputMode)>,
    /// The input mode of a client with none listed.
    pub default_mode: InputMode,
}

impl TiledPanesView {
    /// The panes under their ids.
    pub open spec fn panes(self) -> Map<PaneId, Pane> {
        assoc_map(self.entries)
    }

    /// The ids of the panes, in order.
    pub open spec fn pane_ids(self) -> Seq<PaneId> {
        self.entries.map_values(|e: (PaneId, Pane)| e.0)
    }
}

/// The ids strictly increase along the list.
pub open spec fn ranks_increasing(s: Seq<(PaneId, Pane)>) -> bool {
    forall|i: int, j: int|
        0 <= i < j < s.len() ==> pane_id_rank(#[trigger] s[i].0) < pane_id_rank(#[trigger] s[j].0)
}

/// Two pane ids of the same rank are the same id.
pub proof fn lemma_rank_injective(a: PaneId, b: PaneId)
    ensures
        pane_id_rank(a) == pane_id_rank(b) ==> a == b,
{
}

pub proof fn lemma_increasing_distinct(s: Seq<(PaneId, Pane)>)
    requires
        ranks_increasing(s),
    ensures
        keys_distinct(s),
{
    assert forall|i: int, j: int| 0 <= i < s.len() && 0 <= j < s.len() && i != j implies #[trigger] s[i].0
        != #[trigger] s[j].0 by {
        if i < j {
            assert(pane_id_rank(s[i].0) < pane_id_rank(s[j].0));
        } else {
            assert(pane_id_rank(s[j].0) < pane_id_rank(s[i].0));
        }
    }
}

/// Two lists with the same ids at the same places stand for maps with the
/// same ids.
pub proof fn lemma_same_dom(s: Seq<(PaneId, Pane)>, t: Seq<(PaneId, Pane)>)
    requires
        s.len() == t.len(),
        forall|j: int| 0 <= j < s.len() ==> #[trigger] t[j].0 == s[j].0,
    ensures
        assoc_map(s).dom() == assoc_map(t).dom(),
{
    assert forall|k: PaneId| assoc_map(s).dom().contains(k) == assoc_map(t).dom().contains(k) by {
        if assoc_has(s, k) {
            let i = choose|i: int| 0 <= i < s.len() && #[trigger] s[i].0 == k;
            assert(t[i].0 == k);
        }
        if assoc_has(t, k) {
            let i = choose|i: int| 0 <= i < t.len() && #[trigger] t[i].0 == k;
            assert(s[i].0 == k);
        }
    }
    assert(assoc_map(s).dom() =~= assoc_map(t).dom());
}

/// The list, in id order, of the panes of a map.
pub open spec fn ordered_entries(m: Map<PaneId, Pane>) -> Seq<(PaneId, Pane)> {
    choose|s: Seq<(PaneId, Pane)>| ranks_increasing(s) && assoc_map(s) == m
}

/// An id of the largest rank in a finite, non-empty set of ids.
proof fn lemma_max_rank(d: Set<PaneId>) -> (k: PaneId)
    requires
        d.finite(),
        d.len() > 0,
    ensures
        d.contains(k),
        forall|j: PaneId| #[trigger] d.contains(j) ==> pane_id_rank(j) <= pane_id_rank(k),
    decreases d.len(),
{
    let a = d.choose();
    if d.len() == 1 {
        d.remove(a).lemma_len0_is_empty();
        assert forall|j: PaneId| #[trigger] d.contains(j) implies pane_id_rank(j) <= pane_id_rank(a) by {
            if j != a {
                assert(d.remove(a).contains(j));
            }
        }
        a
    } else {
        let b = lemma_max_rank(d.remove(a));
        assert forall|j: PaneId| #[trigger] d.contains(j) implies j == a || d.remove(a).contains(j) by {}
        if pane_id_rank(a) <= pane_id_rank(b) {
            b
        } else {
            a
        }
    }
}

/// Every finite map of panes can be listed in id order.
proof fn lemma_sorted_entries_exist(m: Map<PaneId, Pane>)
    requires
        m.dom().finite(),
    ensures
        exists|s: Seq<(PaneId, Pane)>| ranks_increasing(s) && #[trigger] assoc_map(s) == m,
    decreases m.dom().len(),
{
    if m.dom().len() == 0 {
        m.dom().lemma_len0_is_empty();
        let s: Seq<(PaneId, Pane)> = seq![];
        lemma_assoc_empty(s);
        assert(assoc_map(s) =~= m);
        assert(ranks_increasing(s) && assoc_map(s) == m);
    } else {
        let k = lemma_max_rank(m.dom());
        let m2 = m.remove(k);
        assert(m2.dom() =~= m.dom().remove(k));
        lemma_sorted_entries_exist(m2);
        let s2 = choose|s: Seq<(PaneId, Pane)>| ranks_increasing(s) && #[trigger] assoc_map(s) == m2;
        lemma_increasing_distinct(s2);
        lemma_assoc_map(s2);
        lemma_assoc_push(s2, k, m[k]);
        let s = s2.push((k, m[k]));
        assert forall|i: int, j: int| 0 <= i < j < s.len() implies pane_id_rank(#[trigger] s[i].0) < pane_id_rank(
            #[trigger] s[j].0,
        ) by {
            assert(s[i] == s2[i]);
            if j == s.len() - 1 {
                assert(m2.contains_key(s2[i].0));
                lemma_rank_injective(s2[i].0, k);
            } else {
                assert(s[j] == s2[j]);
            }
        }
        assert(assoc_map(s) =~= m);
        assert(ranks_increasing(s) && assoc_map(s) == m);
    }
}

/// The panes of a finite map, listed in id order, are in increasing id
/// order and give back the map.
pub proof fn lemma_ordered_entries_of(m: Map<PaneId, Pane>)
    requires
        m.dom().finite(),
    ensures
        ranks_increasing(ordered_entries(m)),
        assoc_map(ordered_entries(m)) == m,
{
    lemma_sorted_entries_exist(m);
}

/// Two lists in id order with the same panes are the same list.
pub proof fn lemma_entries_unique(s: Seq<(PaneId, Pane)>, t: Seq<(PaneId, Pane)>)
    requires
        ranks_increasing(s),
        ranks_increasing(t),
        assoc_map(s) == assoc_map(t),
    ensures
        s == t,
    decreases s.len(),
{
    lemma_increasing_distinct(s);
    lemma_increasing_distinct(t);
    lemma_assoc_map(s);
    lemma_assoc_map(t);
    if s.len() == 0 {
        if t.len() > 0 {
            assert(assoc_map(t).contains_key(t[0].0));
        }
        assert(s =~= t);
    } else {
        assert(assoc_map(t).contains_key(s[0].0));
        let j = choose|j: int| 0 <= j < t.len() && #[trigger] t[j].0 == s[0].0;
        if j > 0 {
            assert(assoc_map(s).contains_key(t[0].0));
            let k = choose|k: int| 0 <= k < s.len() && #[trigger] s[k].0 == t[0].0;
            if k > 0 {
                assert(pane_id_rank(s[0].0) < pane_id_rank(s[k].0));
            }
            assert(pane_id_rank(t[0].0) < pane_id_rank(t[j].0));
            assert(false);
        }
        assert(s[0] == t[0]);
        lemma_assoc_remove(s, 0);
        lemma_assoc_remove(t, 0);
        assert(s.remove(0) == s.drop_first());
        assert(t.remove(0) == t.drop_first());
        assert(ranks_increasing(s.drop_first()));
        assert(ranks_increasing(t.drop_first()));
        lemma_entries_unique(s.drop_first(), t.drop_first());
        assert(s.len() == t.len());
        assert forall|i: int| 0 <= i < s.len() implies s[i] == t[i] by {
            if i > 0 {
                assert(s[i] == s.drop_first()[i - 1]);
                assert(t[i] == t.drop_first()[i - 1]);
            }
        }
        assert(s =~= t);
    }
}

/// A list in id order is the ordered list of its map.
pub proof fn lemma_ordered_entries(s: Seq<(PaneId, Pane)>)
    requires
        ranks_increasing(s),
    ensures
        ordered_entries(assoc_map(s)) == s,
{
    let t = ordered_entries(assoc_map(s));
    assert(ranks_increasing(t) && assoc_map(t) == assoc_map(s));
    lemma_entries_unique(s, t);
}

/// A pane as `set_pane_frames` leaves it: it draws a frame if frames are on
/// and it is not borderless, and its content is offset by one cell on every
/// side if it draws a frame, by nothing if it is borderless or out of the
/// viewport, and else by one cell towards each neighbouring pane.
pub open spec fn framed_pane(p: Pane, draw_pane_frames: bool, viewport: Viewport) -> Pane {
    let with_frame = if !p.borderless {
        Pane { frame: draw_pane_frames, ..p }
    } else {
        p
    };
    let offset = if draw_pane_frames && !p.borderless {
        frame_offset(1)
    } else if draw_pane_frames && p.borderless {
        no_offset()
    } else if !spec_is_inside_viewport(viewport, p) {
        no_offset()
    } else {
        let (columns, rows) = spec_pane_content_offset(current_geom_of(p), viewport);
        shift_offset(rows, columns)
    };
    Pane { content_offset: offset, ..with_frame }
}

/// The terminal resize a pane asks for: its content size, if it is a terminal.
pub open spec fn pty_resize_of(p: Pane) -> Seq<PtyResize> {
    match p.pid {
        PaneId::Terminal(n) => seq![
            PtyResize {
                terminal_id: n,
                columns: content_columns_of(p) as u16,
                rows: content_rows_of(p) as u16,
            },
        ],
        PaneId::Plugin(_) => seq![],
    }
}

/// The terminal resizes asked for the panes of a list, in its order.
pub open spec fn pty_resizes_for(s: Seq<(PaneId, Pane)>) -> Seq<PtyResize>
    decreases s.len(),
{
    if s.len() == 0 {
        seq![]
    } else {
        pty_resizes_for(s.drop_last()) + pty_resize_of(s.last().1)
    }
}

/// The geometry the last update for `id` in `updates` gives, else `g`.
pub open spec fn updated_geom(updates: Seq<GeomUpdate>, id: PaneId, g: PaneGeom) -> PaneGeom
    decreases updates.len(),
{
    if updates.len() == 0 {
        g
    } else if updates.last().pane_id == id {
        updates.last().geom
    } else {
        updated_geom(updates.drop_last(), id, g)
    }
}

/// Each listed pane moved to the geometry the updates give it.
pub open spec fn apply_updates(s: Seq<(PaneId, Pane)>, updates: Seq<GeomUpdate>) -> Seq<(PaneId, Pane)> {
    s.map_values(
        |e: (PaneId, Pane)|
            (e.0, Pane { position_and_size: updated_geom(updates, e.0, e.1.position_and_size), ..e.1 }),
    )
}

/// The pane map with one pane's geometry replaced.
pub open spec fn with_geom(m: Map<PaneId, Pane>, id: PaneId, g: PaneGeom) -> Map<PaneId, Pane> {
    m.insert(id, Pane { position_and_size: g, ..m[id] })
}

/// The focus map with every client focused on `from` moved to `to`.
pub open spec fn moved_clients(
    m: Map<ClientId, PaneId>,
    from: PaneId,
    to: PaneId,
) -> Map<ClientId, PaneId> {
    Map::new(|c: ClientId| m.contains_key(c), |c: ClientId| if m[c] == from { to } else { m[c] })
}

/// The focus map with every client of `clients` focused on `p`.
pub open spec fn focused_all(
    m: Map<ClientId, PaneId>,
    clients: Set<ClientId>,
    p: PaneId,
) -> Map<ClientId, PaneId> {
    Map::new(
        |c: ClientId| m.contains_key(c) || clients.contains(c),
        |c: ClientId| if clients.contains(c) { p } else { m[c] },
    )
}

/// The state after `client_id` focuses `pane_id`: in a mirrored session
/// every connected client follows.
pub open spec fn focused_on(v: TiledPanesView, pane_id: PaneId, client_id: ClientId) -> TiledPanesView {
    TiledPanesView {
        active_panes: if v.session_is_mirrored {
            focused_all(v.active_panes.insert(client_id, pane_id), v.connected_clients.to_set(), pane_id)
        } else {
            v.active_panes.insert(client_id, pane_id)
        },
        ..v
    }
}

/// Every pane of the list as `set_pane_frames` leaves it.
pub open spec fn framed_entries(
    s: Seq<(PaneId, Pane)>,
    draw_pane_frames: bool,
    viewport: Viewport,
) -> Seq<(PaneId, Pane)> {
    s.map_values(|e: (PaneId, Pane)| (e.0, framed_pane(e.1, draw_pane_frames, viewport)))
}

/// A pane that must be drawn again in full, boundaries included.
pub open spec fn forced_render_pane(p: Pane) -> Pane {
    Pane {
        should_render: true,
        should_render_boundaries: true,
        full_viewport_render_requested: true,
        ..p
    }
}

/// Every pane of the list must be drawn again in full.
pub open spec fn forced_entries(s: Seq<(PaneId, Pane)>) -> Seq<(PaneId, Pane)> {
    s.map_values(|e: (PaneId, Pane)| (e.0, forced_render_pane(e.1)))
}

/// Sets the frame and content offset of a pane as `framed_pane` describes.
fn frame_pane(pane: &mut Pane, draw_pane_frames: bool, viewport: &Viewport)
    ensures
        *final(pane) == framed_pane(*old(pane), draw_pane_frames, *viewport),
{
    if !pane.borderless() {
        pane.set_frame(draw_pane_frames);
    }
    if draw_pane_frames && !pane.borderless() {
        pane.set_content_offset(Offset::frame(1));
    } else if draw_pane_frames && pane.borderless() {
        pane.set_content_offset(Offset::none());
    } else if !is_inside_viewport(viewport, pane) {
        pane.set_content_offset(Offset::none());
    } else {
        let position_and_size = pane.current_geom();
        let (pane_columns_offset, pane_rows_offset) = pane_content_offset(&position_and_size, viewport);
        pane.set_content_offset(Offset::shift(pane_rows_offset, pane_columns_offset));
    }
}

/// Asks the operating system, through `resizes`, to give a terminal pane
/// the size of its content.
fn queue_pty_resize(resizes: &mut Vec<PtyResize>, pane: &Pane)
    ensures
        final(resizes)@ == old(resizes)@ + pty_resize_of(*pane),
{
    match pane.pid() {
        PaneId::Terminal(pid) => {
            let columns = pane.get_content_columns() as u16;
            let rows = pane.get_content_rows() as u16;
            resizes.push(PtyResize { terminal_id: pid, columns, rows });
        },
        PaneId::Plugin(_) => {
            proof {
                assert(old(resizes)@ + pty_resize_of(*pane) =~= old(resizes)@);
            }
        },
    }
}

/// The geometries, as viewports, of the panes of the list with a fixed
/// number of rows or columns, in order.
pub open spec fn fixed_geoms(s: Seq<(PaneId, Pane)>) -> Seq<Viewport>
    decreases s.len(),
{
    if s.len() == 0 {
        seq![]
    } else {
        let g = s.last().1.position_and_size;
        fixed_geoms(s.drop_last()) + if g.cols.spec_is_fixed() || g.rows.spec_is_fixed() {
            seq![geom_to_viewport(g)]
        } else {
            seq![]
        }
    }
}

/// The first pane of the list, in order, that is not hidden, is not
/// `pane_id` and can be selected: where clients focused on `pane_id` go.
pub open spec fn first_refuge(s: Seq<(PaneId, Pane)>, hidden: Set<PaneId>, pane_id: PaneId) -> Option<
    PaneId,
>
    decreases s.len(),
{
    if s.len() == 0 {
        None
    } else if !hidden.contains(s[0].0) && s[0].0 != pane_id && s[0].1.selectable {
        Some(s[0].0)
    } else {
        first_refuge(s.drop_first(), hidden, pane_id)
    }
}

/// `(height / width)` rounded to the nearest integer, halves up; a zero
/// width gives the largest `usize` (or zero if the height is zero too).
pub open spec fn rounded_ratio(height: usize, width: usize) -> usize {
    if width == 0 {
        if height == 0 {
            0
        } else {
            usize::MAX
        }
    } else {
        ((2 * height + width) / (2 * width)) as usize
    }
}

/// The updates of an optional layout, as a sequence.
pub open spec fn opt_updates(layout: Option<Vec<GeomUpdate>>) -> Option<Seq<GeomUpdate>> {
    match layout {
        Some(u) => Some(u@),
        None => None,
    }
}

/// The panes moved by a layout, if the pane grid found one.
pub open spec fn laid_out(v: TiledPanesView, layout: Option<Seq<GeomUpdate>>) -> TiledPanesView {
    match layout {
        Some(u) => TiledPanesView { entries: apply_updates(v.entries, u), ..v },
        None => v,
    }
}

/// The state after `set_pane_frames` with the frame setting it already has.
pub open spec fn reframed(v: TiledPanesView) -> TiledPanesView {
    TiledPanesView {
        entries: framed_entries(v.entries, v.draw_pane_frames, v.viewport),
        pty_resizes: v.pty_resizes + pty_resizes_for(
            framed_entries(v.entries, v.draw_pane_frames, v.viewport),
        ),
        ..v
    }
}

/// `a + b - c`, converted to `usize` as a machine integer is.
pub open spec fn shifted_extent(a: usize, b: usize, c: usize) -> usize {
    (a + b - c) as usize
}

/// The state after a horizontal layout to `cols` columns: if the pane grid
/// found one, the panes move, the viewport grows by the change in columns
/// and the display area takes the new width.
pub open spec fn resized_horizontally(
    v: TiledPanesView,
    cols: usize,
    layout: Option<Seq<GeomUpdate>>,
) -> TiledPanesView {
    match layout {
        Some(u) => TiledPanesView {
            entries: apply_updates(v.entries, u),
            viewport: Viewport {
                cols: shifted_extent(v.viewport.cols, cols, v.display_area.cols),
                ..v.viewport
            },
            display_area: Size { cols, ..v.display_area },
            ..v
        },
        None => v,
    }
}

/// As `resized_horizontally`, for rows.
pub open spec fn resized_vertically(
    v: TiledPanesView,
    rows: usize,
    layout: Option<Seq<GeomUpdate>>,
) -> TiledPanesView {
    match layout {
        Some(u) => TiledPanesView {
            entries: apply_updates(v.entries, u),
            viewport: Viewport {
                rows: shifted_extent(v.viewport.rows, rows, v.display_area.rows),
                ..v.viewport
            },
            display_area: Size { rows, ..v.display_area },
            ..v
        },
        None => v,
    }
}

/// The state after `resize`.
pub open spec fn resized(
    v: TiledPanesView,
    size: Size,
    horizontal: Option<Seq<GeomUpdate>>,
    vertical: Option<Seq<GeomUpdate>>,
) -> TiledPanesView {
    reframed(resized_vertically(resized_horizontally(v, size.cols, horizontal), size.rows, vertical))
}

/// Whether `resize` can run without overflowing a machine integer.
pub open spec fn resize_fits(
    v: TiledPanesView,
    size: Size,
    horizontal: Option<Seq<GeomUpdate>>,
    vertical: Option<Seq<GeomUpdate>>,
) -> bool {
    &&& horizontal is Some ==> {
        &&& size.cols <= isize::MAX
        &&& v.display_area.cols <= isize::MAX
        &&& v.viewport.cols <= isize::MAX
        &&& isize::MIN <= v.viewport.cols + size.cols - v.display_area.cols <= isize::MAX
    }
    &&& vertical is Some ==> {
        &&& size.rows <= isize::MAX
        &&& v.display_area.rows <= isize::MAX
        &&& v.viewport.rows <= isize::MAX
        &&& isize::MIN <= v.viewport.rows + size.rows - v.display_area.rows <= isize::MAX
    }
}

/// A pane that is to be drawn again, in full.
pub open spec fn rerendered_pane(p: Pane) -> Pane {
    Pane { should_render: true, full_viewport_render_requested: true, ..p }
}

/// `after` is `before` with only the activation time of pane `id` changed,
/// and set, if that pane exists.
pub open spec fn activated(before: TiledPanesView, after: TiledPanesView, id: PaneId) -> bool {
    &&& after == TiledPanesView { entries: after.entries, ..before }
    &&& after.entries.len() == before.entries.len()
    &&& forall|j: int|
        0 <= j < before.entries.len() ==> {
            let e = before.entries[j];
            if e.0 == id {
                &&& (#[trigger] after.entries[j]).0 == e.0
                &&& after.entries[j].1 == Pane { active_at: after.entries[j].1.active_at, ..e.1 }
                &&& after.entries[j].1.active_at is Some
            } else {
                after.entries[j] == e
            }
        }
}

/// A pane taking over the place of another: it moves to `g`, takes the
/// override `ov` if there is one, and is to be drawn again.
pub open spec fn moved_into(p: Pane, g: PaneGeom, ov: Option<PaneGeom>) -> Pane {
    Pane {
        position_and_size: g,
        geom_override: if ov is Some {
            ov
        } else {
            p.geom_override
        },
        should_render: true,
        ..p
    }
}

/// The panes after the pane `current` and the pane `next` change places:
/// `next` first takes the place of `current`, then `current` takes the place
/// `next` had.
pub open spec fn swapped(m: Map<PaneId, Pane>, current: PaneId, next: PaneId) -> Map<PaneId, Pane> {
    let a = m[current];
    let b = m[next];
    let m1 = m.insert(next, moved_into(b, a.position_and_size, a.geom_override));
    m1.insert(current, moved_into(m1[current], b.position_and_size, b.geom_override))
}

/// The ids, in order, of the panes of the list that are not hidden.
pub open spec fn visible_ids(s: Seq<(PaneId, Pane)>, hidden: Set<PaneId>) -> Seq<PaneId>
    decreases s.len(),
{
    if s.len() == 0 {
        seq![]
    } else {
        visible_ids(s.drop_last(), hidden) + if hidden.contains(s.last().0) {
            seq![]
        } else {
            seq![s.last().0]
        }
    }
}

/// The focus map restricted to the given clients.
pub open spec fn restricted(m: Map<ClientId, PaneId>, clients: Set<ClientId>) -> Map<ClientId, PaneId> {
    Map::new(|c: ClientId| m.contains_key(c) && clients.contains(c), |c: ClientId| m[c])
}

/// A pane as `unset_fullscreen` leaves it, before the resize: a pane out of
/// the viewport and the pane `active` lose their overrides, and every pane
/// is to be drawn again in full.
pub open spec fn unfullscreened_pane(p: Pane, id: PaneId, viewport: Viewport, active: PaneId) -> Pane {
    let p1 = if !spec_is_inside_viewport(viewport, p) {
        Pane { geom_override: None, ..p }
    } else {
        p
    };
    let p2 = if id == active {
        Pane { geom_override: None, ..p1 }
    } else {
        p1
    };
    forced_render_pane(p2)
}

/// The state `unset_fullscreen` leaves when a pane is fullscreen.
pub open spec fn unfullscreened(
    v: TiledPanesView,
    horizontal: Option<Seq<GeomUpdate>>,
    vertical: Option<Seq<GeomUpdate>>,
) -> TiledPanesView {
    let active = v.active_panes[v.connected_clients[0]];
    let w = TiledPanesView {
        entries: v.entries.map_values(
            |e: (PaneId, Pane)| (e.0, unfullscreened_pane(e.1, e.0, v.viewport, active)),
        ),
        panes_to_hide: Set::empty(),
        ..v
    };
    TiledPanesView {
        fullscreen_is_active: false,
        ..resized(w, v.display_area, horizontal, vertical)
    }
}

/// What `unset_fullscreen` needs when a pane is fullscreen: a connected
/// client with a focused pane, and the hidden panes and that pane existing.
pub open spec fn can_unset_fullscreen(v: TiledPanesView) -> bool {
    v.fullscreen_is_active ==> {
        &&& v.connected_clients.len() > 0
        &&& v.active_panes.contains_key(v.connected_clients[0])
        &&& v.panes().contains_key(v.active_panes[v.connected_clients[0]])
        &&& forall|k: PaneId| #[trigger] v.panes_to_hide.contains(k) ==> v.panes().contains_key(k)
    }
}

/// The geometry a fullscreen pane is shown at: the origin of the viewport.
pub open spec fn fullscreen_geom(viewport: Viewport) -> PaneGeom {
    PaneGeom { x: viewport.x, y: viewport.y, ..default_pane_geom() }
}

/// A pane as making `active` fullscreen leaves it, before the resize: a pane
/// out of the viewport keeps its place as an override, and the pane
/// `active` is shown at the origin of the viewport.
pub open spec fn fullscreened_pane(p: Pane, id: PaneId, viewport: Viewport, active: PaneId) -> Pane {
    let p1 = if !spec_is_inside_viewport(viewport, p) {
        Pane { geom_override: Some(p.position_and_size), ..p }
    } else {
        p
    };
    if id == active {
        Pane { geom_override: Some(fullscreen_geom(viewport)), ..p1 }
    } else {
        p1
    }
}

/// The panes hidden when `active` is made fullscreen: the other panes
/// within the viewport.
pub open spec fn hidden_for_fullscreen(v: TiledPanesView, active: PaneId) -> Set<PaneId> {
    Set::new(
        |k: PaneId|
            v.panes().contains_key(k) && k != active && spec_is_inside_viewport(v.viewport, v.panes()[k]),
    )
}

/// Where the clients focused on `pane_id` go when it closes: to the first
/// pane, in order, that is not hidden, is not `pane_id` and can be selected;
/// without such a pane every client is unfocused.
pub open spec fn focus_out_of_pane(v: TiledPanesView, pane_id: PaneId) -> Map<ClientId, PaneId> {
    match first_refuge(v.entries, v.panes_to_hide, pane_id) {
        Some(next) => moved_clients(v.active_panes, pane_id, next),
        None => Map::empty(),
    }
}

/// The state after the panes `current` and `next` changed places (see
/// `swapped`), with a terminal resize asked for each of them.
pub open spec fn after_swap(v: TiledPanesView, current: PaneId, next: PaneId) -> TiledPanesView {
    let a = v.panes()[current];
    let b = v.panes()[next];
    let m1 = v.panes().insert(next, moved_into(b, a.position_and_size, a.geom_override));
    let m2 = swapped(v.panes(), current, next);
    TiledPanesView {
        entries: ordered_entries(m2),
        pty_resizes: v.pty_resizes + pty_resize_of(m1[next]) + pty_resize_of(m2[current]),
        ..v
    }
}

/// What the per-pane pass of `unset_fullscreen` leaves of a pane: a hidden
/// pane is to be drawn again with its boundaries, a pane out of the viewport
/// and the pane `active` lose their overrides.
pub open spec fn unfullscreen_step(
    p: Pane,
    id: PaneId,
    hidden: Set<PaneId>,
    viewport: Viewport,
    active: PaneId,
) -> Pane {
    let p0 = if hidden.contains(id) {
        Pane { should_render: true, should_render_boundaries: true, ..p }
    } else {
        p
    };
    let p1 = if !spec_is_inside_viewport(viewport, p0) {
        Pane { geom_override: None, ..p0 }
    } else {
        p0
    };
    if id == active {
        Pane { geom_override: None, ..p1 }
    } else {
        p1
    }
}

/// The state `toggle_active_pane_fullscreen` leaves (given a pane `active`
/// focused by the client): a fullscreen pane is unset; else the other panes
/// within the viewport are hidden and, if there are any, `active` is shown
/// over the viewport, every connected client is focused on it, every pane
/// is to be drawn again and the tab is laid out again at its size.
pub open spec fn toggled_fullscreen(
    v: TiledPanesView,
    active: PaneId,
    horizontal: Option<Seq<GeomUpdate>>,
    vertical: Option<Seq<GeomUpdate>>,
) -> TiledPanesView {
    if v.fullscreen_is_active {
        unfullscreened(v, horizontal, vertical)
    } else {
        let hidden = hidden_for_fullscreen(v, active);
        if hidden.is_empty() {
            TiledPanesView { panes_to_hide: Set::empty(), ..v }
        } else {
            let w = TiledPanesView {
                entries: forced_entries(
                    v.entries.map_values(
                        |e: (PaneId, Pane)| (e.0, fullscreened_pane(e.1, e.0, v.viewport, active)),
                    ),
                ),
                panes_to_hide: hidden,
                active_panes: focused_all(v.active_panes, v.connected_clients.to_set(), active),
                ..v
            };
            TiledPanesView {
                fullscreen_is_active: true,
                ..resized(w, v.display_area, horizontal, vertical)
            }
        }
    }
}

/// What `toggle_active_pane_fullscreen` needs when the client has `active`
/// focused.
pub open spec fn can_toggle_fullscreen(
    v: TiledPanesView,
    active: PaneId,
    horizontal: Option<Seq<GeomUpdate>>,
    vertical: Option<Seq<GeomUpdate>>,
) -> bool {
    &&& resize_fits(v, v.display_area, horizontal, vertical)
    &&& v.fullscreen_is_active ==> can_unset_fullscreen(v)
    &&& !v.fullscreen_is_active && !hidden_for_fullscreen(v, active).is_empty() ==> v.panes().contains_key(
        active,
    )
}

/// The state unsetting the fullscreen pane leaves (or the state itself if
/// no pane is fullscreen).
pub open spec fn after_unset(
    v: TiledPanesView,
    horizontal: Option<Seq<GeomUpdate>>,
    vertical: Option<Seq<GeomUpdate>>,
) -> TiledPanesView {
    if v.fullscreen_is_active {
        unfullscreened(v, horizontal, vertical)
    } else {
        v
    }
}

/// The state with every connected client focused on `p`.
pub open spec fn all_focused_on(v: TiledPanesView, p: PaneId) -> TiledPanesView {
    TiledPanesView {
        active_panes: focused_all(v.active_panes, v.connected_clients.to_set(), p),
        ..v
    }
}

/// What switching the fullscreen pane to `next` for `client_id` needs.
pub open spec fn can_switch_fullscreen(
    v: TiledPanesView,
    client_id: ClientId,
    next: PaneId,
    unset_horizontal: Option<Seq<GeomUpdate>>,
    unset_vertical: Option<Seq<GeomUpdate>>,
    horizontal: Option<Seq<GeomUpdate>>,
    vertical: Option<Seq<GeomUpdate>>,
) -> bool {
    let v1 = after_unset(v, unset_horizontal, unset_vertical);
    let v2 = all_focused_on(v1, next);
    &&& v.active_panes.contains_key(client_id)
    &&& can_unset_fullscreen(v)
    &&& v.fullscreen_is_active ==> resize_fits(v, v.display_area, unset_horizontal, unset_vertical)
    &&& can_toggle_fullscreen(v2, v2.active_panes[client_id], horizontal, vertical)
}

/// The tiled panes of a tab.
pub struct TiledPanes {
    panes: Vec<(PaneId, Pane)>,
    display_area: Size,
    viewport: Viewport,
    connected_clients: Vec<ClientId>,
    connected_clients_in_app: Vec<ClientId>,
    character_cell_size: Option<SizeInPixels>,
    session_is_mirrored: bool,
    active_panes: Vec<(ClientId, PaneId)>,
    draw_pane_frames: bool,
    panes_to_hide: Vec<PaneId>,
    fullscreen_is_active: bool,
    pty_resizes: Vec<PtyResize>,
    modes: Vec<(ClientId, InputMode)>,
    default_mode: InputMode,
}

impl View for TiledPanes {
    type V = TiledPanesView;

    closed spec fn view(&self) -> TiledPanesView {
        TiledPanesView {
            entries: self.panes@,
            display_area: self.display_area,
            viewport: self.viewport,
            connected_clients: self.connected_clients@,
            connected_clients_in_app: self.connected_clients_in_app@,
            character_cell_size: self.character_cell_size,
            session_is_mirrored: self.session_is_mirrored,
            active_panes: assoc_map(self.active_panes@),
            draw_pane_frames: self.draw_pane_frames,
            panes_to_hide: self.panes_to_hide@.to_set(),
            fullscreen_is_active: self.fullscreen_is_active,
            pty_resizes: self.pty_resizes@,
            modes: self.modes@,
            default_mode: self.default_mode,
        }
    }
}

impl TiledPanes {
    /// The panes are kept in increasing id order, and no client, hidden pane
    /// or connected client occurs twice.
    pub closed spec fn wf(&self) -> bool {
        &&& ranks_increasing(self.panes@)
        &&& keys_distinct(self.active_panes@)
        &&& self.panes_to_hide@.no_duplicates()
        &&& self.connected_clients@.no_duplicates()
    }

    /// What the invariant gives the callers: the panes are listed in
    /// increasing id order under distinct ids, the pane map holds exactly
    /// the listed panes, and no connected client is listed twice.
    pub proof fn lemma_wf(&self)
        requires
            self.wf(),
        ensures
            ranks_increasing(self@.entries),
            keys_distinct(self@.entries),
            forall|i: int|
                0 <= i < self@.entries.len() ==> self@.panes().contains_key(#[trigger] self@.entries[i].0)
                    && self@.panes()[self@.entries[i].0] == self@.entries[i].1,
            forall|k: PaneId|
                #[trigger] self@.panes().contains_key(k) ==> exists|i: int|
                    0 <= i < self@.entries.len() && #[trigger] self@.entries[i].0 == k,
            self@.connected_clients.no_duplicates(),
            self@.panes().dom().finite(),
    {
        lemma_increasing_distinct(self.panes@);
        lemma_assoc_map(self.panes@);
        let ids = self@.pane_ids();
        assert forall|k: PaneId| self@.panes().dom().contains(k) == ids.to_set().contains(k) by {
            if self@.panes().dom().contains(k) {
                let i = choose|i: int| 0 <= i < self.panes@.len() && #[trigger] self.panes@[i].0 == k;
                assert(ids[i] == k);
            }
            if ids.to_set().contains(k) {
                let i = choose|i: int| 0 <= i < ids.len() && ids[i] == k;
                assert(self.panes@[i].0 == k);
            }
        }
        assert(self@.panes().dom() =~= ids.to_set());
        vstd::seq_lib::seq_to_set_is_finite(ids);
    }

    /// Tiled panes with no pane, no focus, nothing hidden and no fullscreen.
    pub fn new(
        display_area: Size,
        viewport: Viewport,
        connected_clients: Vec<ClientId>,
        connected_clients_in_app: Vec<ClientId>,
        character_cell_size: Option<SizeInPixels>,
        session_is_mirrored: bool,
        draw_pane_frames: bool,
        modes: Vec<(ClientId, InputMode)>,
        default_mode: InputMode,
    ) -> (t: TiledPanes)
        requires
            connected_clients@.no_duplicates(),
        ensures
            t.wf(),
            t@ == (TiledPanesView {
                entries: Seq::empty(),
                display_area,
                viewport,
                connected_clients: connected_clients@,
                connected_clients_in_app: connected_clients_in_app@,
                character_cell_size,
                session_is_mirrored,
                active_panes: Map::empty(),
                draw_pane_frames,
                panes_to_hide: Set::empty(),
                fullscreen_is_active: false,
                pty_resizes: Seq::empty(),
                modes: modes@,
                default_mode,
            }),
    {
        let t = TiledPanes {
            panes: Vec::new(),
            display_area,
            viewport,
            connected_clients,
            connected_clients_in_app,
            character_cell_size,
            session_is_mirrored,
            active_panes: Vec::new(),
            draw_pane_frames,
            panes_to_hide: Vec::new(),
            fullscreen_is_active: false,
            pty_resizes: Vec::new(),
            modes,
            default_mode,
        };
        proof {
            lemma_assoc_empty(t.active_panes@);
            assert(t.panes_to_hide@.to_set() =~= Set::empty());
        }
        t
    }

    // ----- the pane list -----

    /// Index of the pane stored under `pane_id`.
    fn pane_index(&self, pane_id: PaneId) -> (r: Option<usize>)
        requires
            self.wf(),
        ensures
            r matches Some(i) ==> i < self.panes@.len() && self.panes@[i as int].0 == pane_id,
            r is None ==> !self@.panes().contains_key(pane_id),
    {
        let mut i: usize = 0;
        while i < self.panes.len()
            invariant
                i <= self.panes@.len(),
                forall|j: int| 0 <= j < i ==> self.panes@[j].0 != pane_id,
            decreases self.panes@.len() - i,
        {
            if self.panes[i].0 == pane_id {
                return Some(i);
            }
            i = i + 1;
        }
        proof {
            lemma_increasing_distinct(self.panes@);
            lemma_assoc_map(self.panes@);
        }
        None
    }

    proof fn lemma_index_in_map(&self, i: int)
        requires
            self.wf(),
            0 <= i < self.panes@.len(),
        ensures
            self@.panes().contains_key(self.panes@[i].0),
            self@.panes()[self.panes@[i].0] == self.panes@[i].1,
    {
        lemma_increasing_distinct(self.panes@);
        lemma_assoc_map(self.panes@);
    }

    /// Stores `pane` under `pane_id`, replacing any pane stored there.
    fn put_pane(&mut self, pane_id: PaneId, pane: Pane)
        requires
            old(self).wf(),
        ensures
            final(self).wf(),
            final(self)@.panes() == old(self)@.panes().insert(pane_id, pane),
            final(self)@ == (TiledPanesView { entries: final(self)@.entries, ..old(self)@ }),
    {
        proof {
            lemma_increasing_distinct(self.panes@);
        }
        match self.pane_index(pane_id) {
            Some(i) => {
                proof {
                    lemma_assoc_update(self.panes@, i as int, pane);
                }
                let ghost before = self.panes@;
                self.panes.set(i, (pane_id, pane));
                proof {
                    assert(self.panes@ == before.update(i as int, (before[i as int].0, pane)));
                }
            },
            None => {
                let mut pos: usize = 0;
                while pos < self.panes.len() && !pane_id_precedes(pane_id, self.panes[pos].0)
                    invariant
                        pos <= self.panes@.len(),
                        forall|j: int| 0 <= j < pos ==> pane_id_rank(#[trigger] self.panes@[j].0)
                            <= pane_id_rank(pane_id),
                    decreases self.panes@.len() - pos,
                {
                    pos = pos + 1;
                }
                let ghost before = self.panes@;
                proof {
                    lemma_assoc_insert(before, pos as int, pane_id, pane);
                    lemma_assoc_map(before);
                    assert forall|j: int| 0 <= j < before.len() implies pane_id_rank(#[trigger] before[j].0)
                        != pane_id_rank(pane_id) by {
                        assert(assoc_map(before).contains_key(before[j].0));
                        lemma_rank_injective(before[j].0, pane_id);
                    }
                }
                self.panes.insert(pos, (pane_id, pane));
                proof {
                    let s = self.panes@;
                    assert forall|a: int, b: int| 0 <= a < b < s.len() implies pane_id_rank(#[trigger] s[a].0)
                        < pane_id_rank(#[trigger] s[b].0) by {
                        if a < pos {
                            assert(s[a] == before[a]);
                        } else if a > pos {
                            assert(s[a] == before[a - 1]);
                        }
                        if b < pos {
                            assert(s[b] == before[b]);
                        } else if b > pos {
                            assert(s[b] == before[b - 1]);
                            if a == pos && pos < before.len() {
                                assert(pane_id_rank(before[pos as int].0) > pane_id_rank(pane_id));
                                if b - 1 > pos {
                                    assert(pane_id_rank(before[pos as int].0) < pane_id_rank(
                                        before[b - 1].0,
                                    ));
                                }
                            }
                        }
                    }
                }
            },
        }
    }

    /// Takes out the pane stored under `pane_id`, if there is one.
    fn take_pane(&mut self, pane_id: PaneId) -> (r: Option<Pane>)
        requires
            old(self).wf(),
        ensures
            final(self).wf(),
            r == (if old(self)@.panes().contains_key(pane_id) {
                Some(old(self)@.panes()[pane_id])
            } else {
                None::<Pane>
            }),
            final(self)@.panes() == old(self)@.panes().remove(pane_id),
            final(self)@ == (TiledPanesView { entries: final(self)@.entries, ..old(self)@ }),
            !old(self)@.panes().contains_key(pane_id) ==> final(self)@ == old(self)@,
    {
        match self.pane_index(pane_id) {
            Some(i) => {
                proof {
                    self.lemma_index_in_map(i as int);
                    lemma_increasing_distinct(self.panes@);
                    lemma_assoc_remove(self.panes@, i as int);
                }
                let ghost before = self.panes@;
                let (_, p) = self.panes.remove(i);
                proof {
                    let s = self.panes@;
                    assert forall|a: int, b: int| 0 <= a < b < s.len() implies pane_id_rank(#[trigger] s[a].0)
                        < pane_id_rank(#[trigger] s[b].0) by {
                        if a < i {
                            assert(s[a] == before[a]);
                        } else {
                            assert(s[a] == before[a + 1]);
                        }
                        if b < i {
                            assert(s[b] == before[b]);
                        } else {
                            assert(s[b] == before[b + 1]);
                        }
                    }
                }
                Some(p)
            },
            None => {
                proof {
                    assert(old(self)@.panes().remove(pane_id) =~= old(self)@.panes());
                }
                None
            },
        }
    }

    // ----- the focus map -----

    fn active_index(&self, client_id: ClientId) -> (r: Option<usize>)
        requires
            self.wf(),
        ensures
            r matches Some(i) ==> i < self.active_panes@.len() && self.active_panes@[i as int].0
                == client_id,
            r is None ==> !self@.active_panes.contains_key(client_id),
    {
        let mut i: usize = 0;
        while i < self.active_panes.len()
            invariant
                i <= self.active_panes@.len(),
                forall|j: int| 0 <= j < i ==> self.active_panes@[j].0 != client_id,
            decreases self.active_panes@.len() - i,
        {
            if self.active_panes[i].0 == client_id {
                return Some(i);
            }
            i = i + 1;
        }
        proof {
            lemma_assoc_map(self.active_panes@);
        }
        None
    }

    /// The pane `client_id` has focused.
    pub fn get_active_pane_id(&self, client_id: ClientId) -> (r: Option<PaneId>)
        requires
            self.wf(),
        ensures
            r == (if self@.active_panes.contains_key(client_id) {
                Some(self@.active_panes[client_id])
            } else {
                None::<PaneId>
            }),
    {
        match self.active_index(client_id) {
            Some(i) => {
                proof {
                    lemma_assoc_map(self.active_panes@);
                }
                Some(self.active_panes[i].1)
            },
            None => None,
        }
    }

    /// The pane `client_id` has focused.
    pub fn focused_pane_id(&self, client_id: ClientId) -> (r: Option<PaneId>)
        requires
            self.wf(),
        ensures
            r == (if self@.active_panes.contains_key(client_id) {
                Some(self@.active_panes[client_id])
            } else {
                None::<PaneId>
            }),
    {
        self.get_active_pane_id(client_id)
    }

    /// Focuses `client_id` on `pane_id`, whatever it had focused.
    fn set_active(&mut self, client_id: ClientId, pane_id: PaneId)
        requires
            old(self).wf(),
        ensures
            final(self).wf(),
            final(self)@ == (TiledPanesView {
                active_panes: old(self)@.active_panes.insert(client_id, pane_id),
                ..old(self)@
            }),
    {
        match self.active_index(client_id) {
            Some(i) => {
                proof {
                    lemma_assoc_update(self.active_panes@, i as int, pane_id);
                }
                let ghost before = self.active_panes@;
                self.active_panes.set(i, (client_id, pane_id));
                proof {
                    assert(self.active_panes@ == before.update(i as int, (before[i as int].0, pane_id)));
                }
            },
            None => {
                proof {
                    lemma_assoc_push(self.active_panes@, client_id, pane_id);
                }
                self.active_panes.push((client_id, pane_id));
            },
        }
    }

    /// Unfocuses every client.
    pub fn clear_active_panes(&mut self)
        requires
            old(self).wf(),
        ensures
            final(self).wf(),
            final(self)@ == (TiledPanesView { active_panes: Map::empty(), ..old(self)@ }),
    {
        self.active_panes.clear();
        proof {
            lemma_assoc_empty(self.active_panes@);
        }
    }

    /// Whether some client has a pane focused.
    pub fn has_active_panes(&self) -> (b: bool)
        requires
            self.wf(),
        ensures
            b == !self@.active_panes.is_empty(),
    {
        proof {
            lemma_assoc_map(self.active_panes@);
            if self.active_panes@.len() > 0 {
                assert(self@.active_panes.contains_key(self.active_panes@[0].0));
            } else {
                assert(self@.active_panes =~= Map::empty());
            }
        }
        self.active_panes.len() > 0
    }

    /// Moves every client focused on `from_pane_id` to `to_pane_id`.
    fn move_clients_between_panes(&mut self, from_pane_id: PaneId, to_pane_id: PaneId)
        requires
            old(self).wf(),
        ensures
            final(self).wf(),
            final(self)@ == (TiledPanesView {
                active_panes: moved_clients(old(self)@.active_panes, from_pane_id, to_pane_id),
                ..old(self)@
            }),
    {
        let ghost before = self.active_panes@;
        let mut i: usize = 0;
        while i < self.active_panes.len()
            invariant
                self.wf(),
                self.active_panes@.len() == before.len(),
                keys_distinct(before),
                i <= before.len(),
                forall|j: int|
                    0 <= j < i ==> #[trigger] self.active_panes@[j] == (if before[j].1 == from_pane_id {
                        (before[j].0, to_pane_id)
                    } else {
                        before[j]
                    }),
                forall|j: int| i <= j < before.len() ==> #[trigger] self.active_panes@[j] == before[j],
                self@ == (TiledPanesView { active_panes: self@.active_panes, ..old(self)@ }),
            decreases before.len() - i,
        {
            if self.active_panes[i].1 == from_pane_id {
                let c = self.active_panes[i].0;
                proof {
                    lemma_assoc_update(self.active_panes@, i as int, to_pane_id);
                }
                self.active_panes.set(i, (c, to_pane_id));
            }
            i = i + 1;
        }
        proof {
            let s = self.active_panes@;
            lemma_assoc_map(s);
            lemma_assoc_map(before);
            let m = moved_clients(assoc_map(before), from_pane_id, to_pane_id);
            assert forall|c: ClientId| #[trigger] assoc_map(s).contains_key(c) == m.contains_key(c) by {
                if assoc_map(s).contains_key(c) {
                    let j = choose|j: int| 0 <= j < s.len() && #[trigger] s[j].0 == c;
                    assert(before[j].0 == c);
                }
                if m.contains_key(c) {
                    let j = choose|j: int| 0 <= j < before.len() && #[trigger] before[j].0 == c;
                    assert(s[j].0 == c);
                }
            }
            assert forall|c: ClientId| #[trigger] assoc_map(s).contains_key(c) implies assoc_map(s)[c]
                == m[c] by {
                let j = choose|j: int| 0 <= j < s.len() && #[trigger] s[j].0 == c;
                assert(before[j].0 == c);
            }
            assert(assoc_map(s) =~= m);
        }
    }

    /// Focuses every client of `clients` on `pane_id`.
    fn focus_clients(&mut self, clients: &Vec<ClientId>, pane_id: PaneId)
        requires
            old(self).wf(),
        ensures
            final(self).wf(),
            final(self)@ == (TiledPanesView {
                active_panes: focused_all(old(self)@.active_panes, clients@.to_set(), pane_id),
                ..old(self)@
            }),
    {
        let ghost m0 = self@.active_panes;
        proof {
            assert(clients@.take(0).to_set() =~= Set::empty());
            assert(focused_all(m0, Set::empty(), pane_id) =~= m0);
        }
        let mut i: usize = 0;
        while i < clients.len()
            invariant
                self.wf(),
                i <= clients@.len(),
                self@ == (TiledPanesView {
                    active_panes: focused_all(m0, clients@.take(i as int).to_set(), pane_id),
                    ..old(self)@
                }),
            decreases clients@.len() - i,
        {
            let c = clients[i];
            self.set_active(c, pane_id);
            proof {
                let before = clients@.take(i as int).to_set();
                let after = clients@.take(i + 1).to_set();
                assert(clients@.take(i + 1) == clients@.take(i as int).push(c));
                clients@.take(i as int).lemma_push_to_set_commute(c);
                assert(after =~= before.insert(c));
                assert(focused_all(m0, before, pane_id).insert(c, pane_id) =~= focused_all(
                    m0,
                    after,
                    pane_id,
                ));
            }
            i = i + 1;
        }
        proof {
            assert(clients@.take(clients@.len() as int) == clients@);
        }
    }

    /// Focuses `client_id` on `pane_id`; in a mirrored session every
    /// connected client follows.
    pub fn focus_pane(&mut self, pane_id: PaneId, client_id: ClientId)
        requires
            old(self).wf(),
        ensures
            final(self).wf(),
            final(self)@ == focused_on(old(self)@, pane_id, client_id),
    {
        self.set_active(client_id, pane_id);
        if self.session_is_mirrored {
            let clients = self.connected_clients.clone();
            self.focus_clients(&clients, pane_id);
        }
    }

    /// The pane the first connected client has focused.
    pub fn first_active_pane_id(&self) -> (r: Option<PaneId>)
        requires
            self.wf(),
        ensures
            r == (if self@.connected_clients.len() > 0 && self@.active_panes.contains_key(
                self@.connected_clients[0],
            ) {
                Some(self@.active_panes[self@.connected_clients[0]])
            } else {
                None::<PaneId>
            }),
    {
        if self.connected_clients.len() > 0 {
            self.get_active_pane_id(self.connected_clients[0])
        } else {
            None
        }
    }

    // ----- operations on every pane -----

    proof fn lemma_same_keys(before: Seq<(PaneId, Pane)>, after: Seq<(PaneId, Pane)>)
        requires
            ranks_increasing(before),
            after.len() == before.len(),
            forall|j: int| 0 <= j < before.len() ==> #[trigger] after[j].0 == before[j].0,
        ensures
            ranks_increasing(after),
    {
        assert forall|a: int, b: int| 0 <= a < b < after.len() implies pane_id_rank(#[trigger] after[a].0)
            < pane_id_rank(#[trigger] after[b].0) by {
            assert(after[a].0 == before[a].0);
            assert(after[b].0 == before[b].0);
        }
    }

    proof fn lemma_pty_step(s: Seq<(PaneId, Pane)>, i: int)
        requires
            0 <= i < s.len(),
        ensures
            pty_resizes_for(s.take(i + 1)) == pty_resizes_for(s.take(i)) + pty_resize_of(s[i].1),
    {
        assert(s.take(i + 1).drop_last() == s.take(i));
    }

    /// Asks for every terminal pane to be resized to its content, in order.
    fn queue_all_pty_resizes(&mut self)
        requires
            old(self).wf(),
        ensures
            final(self).wf(),
            final(self)@ == (TiledPanesView {
                pty_resizes: old(self)@.pty_resizes + pty_resizes_for(old(self)@.entries),
                ..old(self)@
            }),
    {
        let mut i: usize = 0;
        while i < self.panes.len()
            invariant
                self.wf(),
                i <= self.panes@.len(),
                self@ == (TiledPanesView {
                    pty_resizes: old(self)@.pty_resizes + pty_resizes_for(self.panes@.take(i as int)),
                    ..old(self)@
                }),
            decreases self.panes@.len() - i,
        {
            queue_pty_resize(&mut self.pty_resizes, &self.panes[i].1);
            proof {
                Self::lemma_pty_step(self.panes@, i as int);
                assert(old(self)@.pty_resizes + pty_resizes_for(self.panes@.take(i as int)) + pty_resize_of(
                    self.panes@[i as int].1,
                ) == old(self)@.pty_resizes + pty_resizes_for(self.panes@.take(i + 1)));
            }
            i = i + 1;
        }
        proof {
            assert(self.panes@.take(self.panes@.len() as int) == self.panes@);
        }
    }

    /// Sets whether panes draw their own frames, sets every pane's frame and
    /// content offset accordingly (see `framed_pane`), and asks for every
    /// terminal pane to be resized to its new content size.
    pub fn set_pane_frames(&mut self, draw_pane_frames: bool)
        requires
            old(self).wf(),
        ensures
            final(self).wf(),
            final(self)@ == (TiledPanesView {
                entries: framed_entries(old(self)@.entries, draw_pane_frames, old(self)@.viewport),
                draw_pane_frames,
                pty_resizes: old(self)@.pty_resizes + pty_resizes_for(
                    framed_entries(old(self)@.entries, draw_pane_frames, old(self)@.viewport),
                ),
                ..old(self)@
            }),
    {
        self.draw_pane_frames = draw_pane_frames;
        let viewport = self.viewport;
        let ghost before = self.panes@;
        let ghost target = framed_entries(before, draw_pane_frames, viewport);
        let mut i: usize = 0;
        while i < self.panes.len()
            invariant
                ranks_increasing(before),
                self.panes@.len() == before.len(),
                i <= before.len(),
                viewport == old(self)@.viewport,
                target == framed_entries(before, draw_pane_frames, viewport),
                forall|j: int| 0 <= j < i ==> #[trigger] self.panes@[j] == target[j],
                forall|j: int| i <= j < before.len() ==> #[trigger] self.panes@[j] == before[j],
                keys_distinct(self.active_panes@),
                self.panes_to_hide@.no_duplicates(),
                self.connected_clients@.no_duplicates(),
                self@ == (TiledPanesView {
                    entries: self@.entries,
                    draw_pane_frames,
                    pty_resizes: old(self)@.pty_resizes + pty_resizes_for(self.panes@.take(i as int)),
                    ..old(self)@
                }),
            decreases before.len() - i,
        {
            let ghost pre = self.panes@;
            frame_pane(&mut self.panes[i].1, draw_pane_frames, &viewport);
            proof {
                assert(self.panes@.take(i as int) =~= pre.take(i as int));
            }
            queue_pty_resize(&mut self.pty_resizes, &self.panes[i].1);
            proof {
                assert(self.panes@[i as int] == target[i as int]);
                Self::lemma_pty_step(self.panes@, i as int);
                assert(old(self)@.pty_resizes + pty_resizes_for(self.panes@.take(i as int)) + pty_resize_of(
                    self.panes@[i as int].1,
                ) == old(self)@.pty_resizes + pty_resizes_for(self.panes@.take(i + 1)));
            }
            i = i + 1;
        }
        proof {
            assert(self.panes@ =~= target);
            assert(self.panes@.take(self.panes@.len() as int) == self.panes@);
            Self::lemma_same_keys(before, self.panes@);
        }
    }

    /// Asks for every pane to be drawn again in full, boundaries included.
    pub fn set_force_render(&mut self)
        requires
            old(self).wf(),
        ensures
            final(self).wf(),
            final(self)@ == (TiledPanesView {
                entries: forced_entries(old(self)@.entries),
                ..old(self)@
            }),
    {
        let ghost before = self.panes@;
        let ghost target = forced_entries(before);
        let mut i: usize = 0;
        while i < self.panes.len()
            invariant
                ranks_increasing(before),
                self.panes@.len() == before.len(),
                i <= before.len(),
                target == forced_entries(before),
                forall|j: int| 0 <= j < i ==> #[trigger] self.panes@[j] == target[j],
                forall|j: int| i <= j < before.len() ==> #[trigger] self.panes@[j] == before[j],
                keys_distinct(self.active_panes@),
                self.panes_to_hide@.no_duplicates(),
                self.connected_clients@.no_duplicates(),
                self@ == (TiledPanesView { entries: self@.entries, ..old(self)@ }),
            decreases before.len() - i,
        {
            self.panes[i].1.set_should_render(true);
            self.panes[i].1.set_should_render_boundaries(true);
            self.panes[i].1.render_full_viewport();
            proof {
                assert(self.panes@[i as int] == target[i as int]);
            }
            i = i + 1;
        }
        proof {
            assert(self.panes@ =~= target);
            Self::lemma_same_keys(before, self.panes@);
        }
    }

    /// Moves every pane named in `updates` to the geometry given there (the
    /// last one, if a pane is named twice); other panes stay where they are.
    fn apply_geom_updates(&mut self, updates: &Vec<GeomUpdate>)
        requires
            old(self).wf(),
        ensures
            final(self).wf(),
            final(self)@ == (TiledPanesView {
                entries: apply_updates(old(self)@.entries, updates@),
                ..old(self)@
            }),
    {
        let ghost before = self.panes@;
        proof {
            assert(apply_updates(before, updates@.take(0)) =~= before);
        }
        let mut k: usize = 0;
        while k < updates.len()
            invariant
                self.wf(),
                k <= updates@.len(),
                ranks_increasing(before),
                self.panes@ == apply_updates(before, updates@.take(k as int)),
                self@ == (TiledPanesView { entries: self@.entries, ..old(self)@ }),
            decreases updates@.len() - k,
        {
            let u = updates[k];
            let ghost prev = self.panes@;
            match self.pane_index(u.pane_id) {
                Some(i) => {
                    self.panes[i].1.set_geom(u.geom);
                    proof {
                        Self::lemma_same_keys(prev, self.panes@);
                        lemma_increasing_distinct(prev);
                    }
                },
                None => {},
            }
            proof {
                let t = updates@.take(k + 1);
                assert(t.drop_last() == updates@.take(k as int));
                assert(t.last() == u);
                lemma_increasing_distinct(prev);
                lemma_assoc_map(prev);
                assert forall|j: int| 0 <= j < prev.len() implies #[trigger] self.panes@[j]
                    == apply_updates(before, t)[j] by {
                    if prev[j].0 == u.pane_id {
                        assert(assoc_map(prev).contains_key(prev[j].0));
                    }
                }
                assert(self.panes@ =~= apply_updates(before, t));
            }
            k = k + 1;
        }
        proof {
            assert(updates@.take(updates@.len() as int) == updates@);
        }
    }

    // ----- reading the panes -----

    /// The pane stored under `pane_id`.
    pub fn get_pane(&self, pane_id: PaneId) -> (r: Option<&Pane>)
        requires
            self.wf(),
        ensures
            r == (if self@.panes().contains_key(pane_id) {
                Some(&self@.panes()[pane_id])
            } else {
                None::<&Pane>
            }),
    {
        match self.pane_index(pane_id) {
            Some(i) => {
                proof {
                    self.lemma_index_in_map(i as int);
                }
                Some(&self.panes[i].1)
            },
            None => None,
        }
    }

    /// The pane stored under `pane_id`, to change it in place; its id and
    /// its place in the order stay as they are.
    pub fn get_pane_mut(&mut self, pane_id: PaneId) -> (r: Option<&mut Pane>)
        requires
            old(self).wf(),
        ensures
            r is Some <==> old(self)@.panes().contains_key(pane_id),
            match r {
                Some(p) => {
                    &&& *p == old(self)@.panes()[pane_id]
                    &&& final(self).wf()
                    &&& final(self)@ == (TiledPanesView {
                        entries: old(self)@.entries.update(
                            assoc_index(old(self)@.entries, pane_id),
                            (pane_id, *final(p)),
                        ),
                        ..old(self)@
                    })
                },
                None => *final(self) == *old(self),
            },
    {
        match self.pane_index(pane_id) {
            Some(i) => {
                proof {
                    self.lemma_index_in_map(i as int);
                }
                Some(&mut self.panes[i].1)
            },
            None => None,
        }
    }

    /// Whether a pane is stored under `pane_id`.
    pub fn panes_contain(&self, pane_id: &PaneId) -> (b: bool)
        requires
            self.wf(),
        ensures
            b == self@.panes().contains_key(*pane_id),
    {
        self.pane_index(*pane_id).is_some()
    }

    /// Whether there is any pane.
    pub fn has_panes(&self) -> (b: bool)
        requires
            self.wf(),
        ensures
            b == !self@.panes().is_empty(),
    {
        proof {
            lemma_increasing_distinct(self.panes@);
            lemma_assoc_map(self.panes@);
            if self.panes@.len() > 0 {
                assert(self@.panes().contains_key(self.panes@[0].0));
            } else {
                assert(self@.panes() =~= Map::empty());
            }
        }
        self.panes.len() > 0
    }

    /// The panes under their ids, in order.
    pub fn get_panes(&self) -> (r: &Vec<(PaneId, Pane)>)
        ensures
            r@ == self@.entries,
    {
        &self.panes
    }

    /// The ids of the panes, in order.
    pub fn pane_ids(&self) -> (r: Vec<PaneId>)
        ensures
            r@ == self@.pane_ids(),
    {
        let mut r: Vec<PaneId> = Vec::new();
        let mut i: usize = 0;
        while i < self.panes.len()
            invariant
                i <= self.panes@.len(),
                r@ == self.panes@.take(i as int).map_values(|e: (PaneId, Pane)| e.0),
            decreases self.panes@.len() - i,
        {
            r.push(self.panes[i].0);
            proof {
                assert(self.panes@.take(i + 1).map_values(|e: (PaneId, Pane)| e.0) =~= self.panes@.take(
                    i as int,
                ).map_values(|e: (PaneId, Pane)| e.0).push(self.panes@[i as int].0));
            }
            i = i + 1;
        }
        proof {
            assert(self.panes@.take(self.panes@.len() as int) == self.panes@);
        }
        r
    }

    /// The first pane, in order, that can be selected.
    pub fn first_selectable_pane_id(&self) -> (r: Option<PaneId>)
        requires
            self.wf(),
        ensures
            r matches Some(id) ==> self@.panes().contains_key(id) && self@.panes()[id].selectable
                && forall|k: PaneId|
                #![trigger self@.panes()[k]]
                self@.panes().contains_key(k) && self@.panes()[k].selectable ==> pane_id_rank(id)
                    <= pane_id_rank(k),
            r is None ==> forall|k: PaneId|
                #![trigger self@.panes()[k]]
                self@.panes().contains_key(k) ==> !self@.panes()[k].selectable,
    {
        proof {
            lemma_increasing_distinct(self.panes@);
            lemma_assoc_map(self.panes@);
        }
        let mut i: usize = 0;
        while i < self.panes.len()
            invariant
                self.wf(),
                i <= self.panes@.len(),
                forall|j: int| 0 <= j < i ==> !(#[trigger] self.panes@[j]).1.selectable,
            decreases self.panes@.len() - i,
        {
            if self.panes[i].1.selectable() {
                proof {
                    assert forall|k: PaneId| #![trigger self@.panes()[k]]
                        self@.panes().contains_key(k) && self@.panes()[k].selectable implies pane_id_rank(
                        self.panes@[i as int].0,
                    ) <= pane_id_rank(k) by {
                        let j = choose|j: int| 0 <= j < self.panes@.len() && #[trigger] self.panes@[j].0 == k;
                        if j < i {
                            assert(self@.panes()[self.panes@[j].0] == self.panes@[j].1);
                        } else if j > i {
                            assert(pane_id_rank(self.panes@[i as int].0) < pane_id_rank(self.panes@[j].0));
                        }
                    }
                }
                return Some(self.panes[i].0);
            }
            i = i + 1;
        }
        proof {
            assert forall|k: PaneId| #![trigger self@.panes()[k]]
                self@.panes().contains_key(k) implies !self@.panes()[k].selectable by {
                let j = choose|j: int| 0 <= j < self.panes@.len() && #[trigger] self.panes@[j].0 == k;
                assert(self@.panes()[self.panes@[j].0] == self.panes@[j].1);
            }
        }
        None
    }

    /// The geometries of the panes with a fixed number of rows or columns,
    /// in order.
    pub fn fixed_pane_geoms(&self) -> (r: Vec<Viewport>)
        ensures
            r@ == fixed_geoms(self@.entries),
    {
        let mut r: Vec<Viewport> = Vec::new();
        let mut i: usize = 0;
        while i < self.panes.len()
            invariant
                i <= self.panes@.len(),
                r@ == fixed_geoms(self.panes@.take(i as int)),
            decreases self.panes@.len() - i,
        {
            let geom = self.panes[i].1.position_and_size();
            proof {
                assert(self.panes@.take(i + 1).drop_last() == self.panes@.take(i as int));
            }
            if geom.cols.is_fixed() || geom.rows.is_fixed() {
                r.push(Viewport::from_geom(geom));
                proof {
                    assert(r@ == fixed_geoms(self.panes@.take(i as int)) + seq![geom_to_viewport(geom)]);
                }
            } else {
                proof {
                    assert(fixed_geoms(self.panes@.take(i + 1)) =~= fixed_geoms(self.panes@.take(i as int)));
                }
            }
            i = i + 1;
        }
        proof {
            assert(self.panes@.take(self.panes@.len() as int) == self.panes@);
        }
        r
    }

    /// Adds a pane where it already is; with pane frames on, its content is
    /// offset by one cell from every edge.
    pub fn add_pane_with_existing_geom(&mut self, pane_id: PaneId, pane: Pane)
        requires
            old(self).wf(),
        ensures
            final(self).wf(),
            final(self)@.panes() == old(self)@.panes().insert(
                pane_id,
                if old(self)@.draw_pane_frames {
                    Pane { content_offset: frame_offset(1), ..pane }
                } else {
                    pane
                },
            ),
            final(self)@ == (TiledPanesView { entries: final(self)@.entries, ..old(self)@ }),
    {
        let mut pane = pane;
        if self.draw_pane_frames {
            pane.set_content_offset(Offset::frame(1));
        }
        self.put_pane(pane_id, pane);
    }

    /// Takes out the pane stored under `pane_id`, leaving everything else.
    pub fn extract_pane(&mut self, pane_id: PaneId) -> (r: Option<Pane>)
        requires
            old(self).wf(),
        ensures
            final(self).wf(),
            r == (if old(self)@.panes().contains_key(pane_id) {
                Some(old(self)@.panes()[pane_id])
            } else {
                None::<Pane>
            }),
            final(self)@.panes() == old(self)@.panes().remove(pane_id),
            final(self)@ == (TiledPanesView { entries: final(self)@.entries, ..old(self)@ }),
    {
        self.take_pane(pane_id)
    }

    /// Puts `with_pane` in the place of the pane stored under `pane_id`: it
    /// takes that pane's geometry and override and is stored under its own
    /// id; the replaced pane is returned. Clients focused on `pane_id` are
    /// moved to the new pane in any case.
    pub fn replace_pane(&mut self, pane_id: PaneId, with_pane: Pane) -> (r: Option<Pane>)
        requires
            old(self).wf(),
        ensures
            final(self).wf(),
            ({
                let framed = if old(self)@.draw_pane_frames {
                    Pane { content_offset: frame_offset(1), ..with_pane }
                } else {
                    with_pane
                };
                if old(self)@.panes().contains_key(pane_id) {
                    let removed = old(self)@.panes()[pane_id];
                    &&& r == Some(removed)
                    &&& final(self)@.panes() == old(self)@.panes().remove(pane_id).insert(
                        with_pane.pid,
                        Pane {
                            position_and_size: removed.position_and_size,
                            geom_override: removed.geom_override,
                            ..framed
                        },
                    )
                } else {
                    &&& r is None
                    &&& final(self)@.entries == old(self)@.entries
                }
            }),
            final(self)@ == (TiledPanesView {
                entries: final(self)@.entries,
                active_panes: moved_clients(old(self)@.active_panes, pane_id, with_pane.pid),
                ..old(self)@
            }),
    {
        let mut with_pane = with_pane;
        let with_pane_id = with_pane.pid();
        if self.draw_pane_frames {
            with_pane.set_content_offset(Offset::frame(1));
        }
        let removed_pane = self.take_pane(pane_id);
        let r = match removed_pane {
            Some(removed_pane) => {
                let removed_pane_geom = removed_pane.position_and_size();
                let removed_pane_geom_override = removed_pane.geom_override();
                with_pane.set_geom(removed_pane_geom);
                match removed_pane_geom_override {
                    Some(geom_override) => with_pane.set_geom_override(geom_override),
                    None => with_pane.reset_size_and_position_override(),
                };
                self.put_pane(with_pane_id, with_pane);
                Some(removed_pane)
            },
            None => {
                proof {
                    assert(self@.panes() =~= old(self)@.panes());
                }
                None
            },
        };
        self.move_clients_between_panes(pane_id, with_pane_id);
        r
    }

    /// Puts `pane` in the place of the pane `client_id` has focused (see
    /// `replace_pane`) and moves the clients focused on the replaced pane's
    /// own id to the new pane.
    pub fn replace_active_pane(&mut self, pane: Pane, client_id: ClientId) -> (r: Option<Pane>)
        requires
            old(self).wf(),
        ensures
            final(self).wf(),
            !old(self)@.active_panes.contains_key(client_id) ==> r is None && final(self)@ == old(
                self,
            )@,
            old(self)@.active_panes.contains_key(client_id) ==> ({
                let active = old(self)@.active_panes[client_id];
                let framed = if old(self)@.draw_pane_frames {
                    Pane { content_offset: frame_offset(1), ..pane }
                } else {
                    pane
                };
                let moved = moved_clients(old(self)@.active_panes, active, pane.pid);
                if old(self)@.panes().contains_key(active) {
                    let removed = old(self)@.panes()[active];
                    &&& r == Some(removed)
                    &&& final(self)@.panes() == old(self)@.panes().remove(active).insert(
                        pane.pid,
                        Pane {
                            position_and_size: removed.position_and_size,
                            geom_override: removed.geom_override,
                            ..framed
                        },
                    )
                    &&& final(self)@ == (TiledPanesView {
                        entries: final(self)@.entries,
                        active_panes: moved_clients(moved, removed.pid, pane.pid),
                        ..old(self)@
                    })
                } else {
                    &&& r is None
                    &&& final(self)@ == (TiledPanesView { active_panes: moved, ..old(self)@ })
                }
            }),
    {
        let pane_id = pane.pid();
        let previously_active_pane = match self.get_active_pane_id(client_id) {
            Some(active_pane_id) => self.replace_pane(active_pane_id, pane),
            None => None,
        };
        match &previously_active_pane {
            Some(previously_active_pane) => {
                let previously_active_pane_id = previously_active_pane.pid();
                self.move_clients_between_panes(previously_active_pane_id, pane_id);
            },
            None => {},
        }
        previously_active_pane
    }

    /// Keeps the pane stored under `pane_id` open after its command ended.
    pub fn hold_pane(&mut self, pane_id: PaneId, exit_status: Option<i32>, run_command: RunCommand)
        requires
            old(self).wf(),
        ensures
            final(self).wf(),
            old(self)@.panes().contains_key(pane_id) ==> final(self)@.panes() == old(self)@.panes().insert(
                pane_id,
                Pane {
                    exit_status: Some(exit_status),
                    held_command: Some(run_command),
                    ..old(self)@.panes()[pane_id]
                },
            ),
            !old(self)@.panes().contains_key(pane_id) ==> final(self)@.panes() == old(self)@.panes(),
            final(self)@ == (TiledPanesView { entries: final(self)@.entries, ..old(self)@ }),
    {
        match self.pane_index(pane_id) {
            Some(i) => {
                proof {
                    lemma_increasing_distinct(self.panes@);
                    lemma_assoc_map(self.panes@);
                }
                let ghost before = self.panes@;
                self.panes[i].1.hold(exit_status, run_command);
                proof {
                    lemma_assoc_update(before, i as int, self.panes@[i as int].1);
                    assert(self.panes@ == before.update(i as int, (before[i as int].0, self.panes@[i as int].1)));
                    Self::lemma_same_keys(before, self.panes@);
                }
            },
            None => {},
        }
    }

    // ----- hidden panes and fullscreen -----

    /// Whether the pane `pane_id` is hidden behind a fullscreen pane.
    pub fn panes_to_hide_contains(&self, pane_id: PaneId) -> (b: bool)
        ensures
            b == self@.panes_to_hide.contains(pane_id),
    {
        let mut i: usize = 0;
        while i < self.panes_to_hide.len()
            invariant
                i <= self.panes_to_hide@.len(),
                forall|j: int| 0 <= j < i ==> self.panes_to_hide@[j] != pane_id,
            decreases self.panes_to_hide@.len() - i,
        {
            if self.panes_to_hide[i] == pane_id {
                return true;
            }
            i = i + 1;
        }
        false
    }

    /// How many panes are hidden.
    pub fn panes_to_hide_count(&self) -> (n: usize)
        requires
            self.wf(),
        ensures
            n == self@.panes_to_hide.len(),
    {
        proof {
            self.panes_to_hide@.unique_seq_to_set();
        }
        self.panes_to_hide.len()
    }

    /// Hides the pane `pid`.
    pub fn add_to_hidden_panels(&mut self, pid: PaneId)
        requires
            old(self).wf(),
        ensures
            final(self).wf(),
            final(self)@ == (TiledPanesView {
                panes_to_hide: old(self)@.panes_to_hide.insert(pid),
                ..old(self)@
            }),
    {
        if !self.panes_to_hide_contains(pid) {
            proof {
                self.panes_to_hide@.lemma_push_to_set_commute(pid);
            }
            self.panes_to_hide.push(pid);
        } else {
            proof {
                assert(self@.panes_to_hide.insert(pid) =~= self@.panes_to_hide);
            }
        }
    }

    /// Stops hiding the pane `pid`.
    pub fn remove_from_hidden_panels(&mut self, pid: PaneId)
        requires
            old(self).wf(),
        ensures
            final(self).wf(),
            final(self)@ == (TiledPanesView {
                panes_to_hide: old(self)@.panes_to_hide.remove(pid),
                ..old(self)@
            }),
    {
        let mut i: usize = 0;
        while i < self.panes_to_hide.len()
            invariant
                self.wf(),
                *self == *old(self),
                i <= self.panes_to_hide@.len(),
                forall|j: int| 0 <= j < i ==> self.panes_to_hide@[j] != pid,
            decreases self.panes_to_hide@.len() - i,
        {
            if self.panes_to_hide[i] == pid {
                let ghost before = self.panes_to_hide@;
                proof {
                    assert(before.no_duplicates());
                }
                self.panes_to_hide.remove(i);
                proof {
                    let after = self.panes_to_hide@;
                    assert(after == before.remove(i as int));
                    assert forall|a: int, b: int| 0 <= a < b < after.len() implies after[a] != after[b] by {
                        let a2 = if a < i { a } else { a + 1 };
                        let b2 = if b < i { b } else { b + 1 };
                        assert(after[a] == before[a2]);
                        assert(after[b] == before[b2]);
                    }
                    assert forall|x: PaneId| #[trigger] after.to_set().contains(x) == before.to_set().remove(
                        pid,
                    ).contains(x) by {
                        if after.to_set().contains(x) {
                            let k = choose|k: int| 0 <= k < after.len() && after[k] == x;
                            let k2 = if k < i { k } else { k + 1 };
                            assert(after[k] == before[k2]);
                            assert(before.contains(x));
                        }
                        if before.to_set().remove(pid).contains(x) {
                            let k = choose|k: int| 0 <= k < before.len() && before[k] == x;
                            assert(k != i);
                            if k < i {
                                assert(after[k] == before[k]);
                            } else {
                                assert(after[k - 1] == before[k]);
                            }
                            assert(after.contains(x));
                        }
                    }
                    assert(after.to_set() =~= before.to_set().remove(pid));
                }
                return;
            }
            i = i + 1;
        }
        proof {
            assert(self@.panes_to_hide.remove(pid) =~= self@.panes_to_hide);
        }
    }

    /// Whether a pane is shown fullscreen.
    pub fn fullscreen_is_active(&self) -> (b: bool)
        ensures
            b == self@.fullscreen_is_active,
    {
        self.fullscreen_is_active
    }

    // ----- shared state kept by the tab -----

    /// Rows-to-columns ratio of a character cell, rounded; `None` if the
    /// cell size is not known.
    pub fn cursor_height_width_ratio(&self) -> (r: Option<usize>)
        ensures
            r == (match self@.character_cell_size {
                Some(size) => Some(rounded_ratio(size.height, size.width)),
                None => None::<usize>,
            }),
    {
        match self.character_cell_size {
            Some(size_in_pixels) => {
                let h = size_in_pixels.height as u128;
                let w = size_in_pixels.width as u128;
                if w == 0 {
                    if h == 0 {
                        Some(0)
                    } else {
                        Some(usize::MAX)
                    }
                } else {
                    assert(2 * h + w < 2 * w * (h + 1)) by (nonlinear_arith)
                        requires
                            w >= 1,
                    ;
                    assert((2 * h + w) / (2 * w) <= h) by (nonlinear_arith)
                        requires
                            w >= 1,
                            2 * h + w < 2 * w * (h + 1),
                    ;
                    Some(((2 * h + w) / (2 * w)) as usize)
                }
            },
            None => None,
        }
    }

    /// The clients connected to the session changed.
    pub fn set_connected_clients(&mut self, connected_clients: Vec<ClientId>)
        requires
            old(self).wf(),
            connected_clients@.no_duplicates(),
        ensures
            final(self).wf(),
            final(self)@ == (TiledPanesView { connected_clients: connected_clients@, ..old(self)@ }),
    {
        self.connected_clients = connected_clients;
    }

    /// The input modes known for clients changed.
    pub fn set_modes(&mut self, modes: Vec<(ClientId, InputMode)>)
        requires
            old(self).wf(),
        ensures
            final(self).wf(),
            final(self)@ == (TiledPanesView { modes: modes@, ..old(self)@ }),
    {
        self.modes = modes;
    }

    /// The input mode of client `c` (see `client_mode`).
    pub fn mode_of(&self, c: ClientId) -> (m: InputMode)
        ensures
            m == client_mode(self@.modes, c, self@.default_mode),
    {
        let ghost s = self.modes@;
        let mut i: usize = 0;
        proof {
            assert(s.skip(0) == s);
        }
        while i < self.modes.len()
            invariant
                s == self.modes@,
                i <= s.len(),
                client_mode(s.skip(i as int), c, self.default_mode) == client_mode(s, c, self.default_mode),
            decreases s.len() - i,
        {
            proof {
                assert(s.skip(i as int)[0] == s[i as int]);
                assert(s.skip(i as int).drop_first() == s.skip(i + 1));
            }
            if self.modes[i].0 == c {
                return self.modes[i].1;
            }
            i = i + 1;
        }
        proof {
            assert(s.skip(s.len() as int).len() == 0);
        }
        self.default_mode
    }

    /// The visible part of the tab moved or changed size.
    pub fn set_viewport(&mut self, viewport: Viewport)
        requires
            old(self).wf(),
        ensures
            final(self).wf(),
            final(self)@ == (TiledPanesView { viewport, ..old(self)@ }),
    {
        self.viewport = viewport;
    }

    /// Hands out the terminal resizes asked for so far, oldest first, and
    /// forgets them.
    pub fn take_pty_resizes(&mut self) -> (r: Vec<PtyResize>)
        requires
            old(self).wf(),
        ensures
            final(self).wf(),
            r@ == old(self)@.pty_resizes,
            final(self)@ == (TiledPanesView { pty_resizes: Seq::empty(), ..old(self)@ }),
    {
        let mut r: Vec<PtyResize> = Vec::new();
        std::mem::swap(&mut r, &mut self.pty_resizes);
        r
    }

    /// Moves every client focused on `pane_id` to the first pane, in order,
    /// that is not hidden, is not `pane_id` and can be selected; if there is
    /// none, every client is unfocused.
    pub fn move_clients_out_of_pane(&mut self, pane_id: PaneId)
        requires
            old(self).wf(),
        ensures
            final(self).wf(),
            final(self)@ == (TiledPanesView {
                active_panes: focus_out_of_pane(old(self)@, pane_id),
                ..old(self)@
            }),
    {
        let ghost s = self.panes@;
        let ghost hidden = self@.panes_to_hide;
        let mut found: Option<PaneId> = None;
        let mut i: usize = 0;
        proof {
            assert(s.skip(0) == s);
        }
        while i < self.panes.len()
            invariant
                *self == *old(self),
                s == self.panes@,
                hidden == self@.panes_to_hide,
                i <= s.len(),
                found is None ==> first_refuge(s.skip(i as int), hidden, pane_id) == first_refuge(
                    s,
                    hidden,
                    pane_id,
                ),
                found is Some ==> found == first_refuge(s, hidden, pane_id),
            decreases s.len() - i,
        {
            if found.is_none() {
                let id = self.panes[i].0;
                proof {
                    assert(s.skip(i as int)[0] == s[i as int]);
                    assert(s.skip(i as int).drop_first() == s.skip(i + 1));
                }
                if !self.panes_to_hide_contains(id) && id != pane_id && self.panes[i].1.selectable() {
                    found = Some(id);
                }
            }
            i = i + 1;
        }
        proof {
            assert(s.skip(s.len() as int).len() == 0);
        }
        match found {
            Some(next_active_pane) => {
                self.move_clients_between_panes(pane_id, next_active_pane);
            },
            None => {
                self.clear_active_panes();
            },
        }
    }

    // ----- layouts computed by the pane grid -----

    /// Moves the panes as the pane grid laid them out in `direction` (if it
    /// found a layout), then sets every pane's frame and offset again.
    pub fn relayout(&mut self, direction: SplitDirection, layout: Option<Vec<GeomUpdate>>)
        requires
            old(self).wf(),
        ensures
            final(self).wf(),
            final(self)@ == reframed(laid_out(old(self)@, opt_updates(layout))),
    {
        match &layout {
            Some(updates) => self.apply_geom_updates(updates),
            None => {},
        }
        let draw_pane_frames = self.draw_pane_frames;
        self.set_pane_frames(draw_pane_frames);
    }

    /// Gives the tab a new size: each direction in which the pane grid found
    /// a layout moves the panes, changes the viewport by the change in size
    /// and takes the new size for the display area; then every pane's frame
    /// and offset are set again.
    pub fn resize(
        &mut self,
        new_screen_size: Size,
        horizontal: Option<Vec<GeomUpdate>>,
        vertical: Option<Vec<GeomUpdate>>,
    )
        requires
            old(self).wf(),
            resize_fits(old(self)@, new_screen_size, opt_updates(horizontal), opt_updates(vertical)),
        ensures
            final(self).wf(),
            final(self)@ == resized(
                old(self)@,
                new_screen_size,
                opt_updates(horizontal),
                opt_updates(vertical),
            ),
    {
        let rows = new_screen_size.rows;
        let cols = new_screen_size.cols;
        match &horizontal {
            Some(updates) => {
                self.apply_geom_updates(updates);
                let column_difference: i128 = cols as i128 - self.display_area.cols as i128;
                self.viewport.cols = (self.viewport.cols as i128 + column_difference) as usize;
                self.display_area.cols = cols;
            },
            None => {},
        }
        match &vertical {
            Some(updates) => {
                self.apply_geom_updates(updates);
                let row_difference: i128 = rows as i128 - self.display_area.rows as i128;
                self.viewport.rows = (self.viewport.rows as i128 + row_difference) as usize;
                self.display_area.rows = rows;
            },
            None => {},
        }
        let draw_pane_frames = self.draw_pane_frames;
        self.set_pane_frames(draw_pane_frames);
    }

    /// Adds `pane` in the room the pane grid found for it: the pane it
    /// splits takes the first half, the new pane the second, and the panes
    /// are laid out again across the split.
    pub fn insert_pane(
        &mut self,
        pane_id: PaneId,
        pane: Pane,
        room: Option<(PaneId, SplitDirection)>,
        halves: Option<(PaneGeom, PaneGeom)>,
        layout: Option<Vec<GeomUpdate>>,
    )
        requires
            old(self).wf(),
            room matches Some((id, _)) ==> old(self)@.panes().contains_key(id),
        ensures
            final(self).wf(),
            (match (room, halves) {
                (Some((id, direction)), Some((first, second))) => {
                    let inserted = TiledPanesView {
                        entries: ordered_entries(
                            with_geom(old(self)@.panes(), id, first).insert(
                                pane_id,
                                Pane { position_and_size: second, ..pane },
                            ),
                        ),
                        ..old(self)@
                    };
                    final(self)@ == reframed(laid_out(inserted, opt_updates(layout)))
                },
                _ => final(self)@ == old(self)@,
            }),
            final(self)@.panes().dom() == if room is Some && halves is Some {
                old(self)@.panes().dom().insert(pane_id)
            } else {
                old(self)@.panes().dom()
            },
    {
        match (room, halves) {
            (Some((pane_id_to_split, split_direction)), Some((first_geom, second_geom))) => {
                let i = self.pane_index(pane_id_to_split).unwrap();
                let ghost before = self.panes@;
                self.panes[i].1.set_geom(first_geom);
                proof {
                    lemma_increasing_distinct(before);
                    lemma_assoc_map(before);
                    lemma_assoc_update(before, i as int, self.panes@[i as int].1);
                    assert(self.panes@ == before.update(i as int, (before[i as int].0, self.panes@[i as int].1)));
                    Self::lemma_same_keys(before, self.panes@);
                }
                let mut pane = pane;
                pane.set_geom(second_geom);
                self.put_pane(pane_id, pane);
                proof {
                    lemma_ordered_entries(self.panes@);
                    assert(self@.panes().dom() =~= old(self)@.panes().dom().insert(pane_id));
                }
                let ghost mid = self@.entries;
                self.relayout(split_direction.other(), layout);
                proof {
                    assert forall|j: int| 0 <= j < mid.len() implies #[trigger] self@.entries[j].0 == mid[j].0 by {}
                    lemma_same_dom(mid, self@.entries);
                }
            },
            _ => {},
        }
    }

    /// Whether there is room for a new pane: whether the pane grid, which
    /// looks for it with the cursor's `cursor_height_width_ratio`, found a
    /// pane to split (`room`).
    pub fn has_room_for_new_pane(&self, room: Option<(PaneId, SplitDirection)>) -> (b: bool)
        ensures
            b == room is Some,
    {
        room.is_some()
    }

    /// Whether the pane `client_id` has focused can be split into a top and
    /// a bottom pane: it must have at least twice the minimum height, and
    /// the pane grid must be able to split it (`can_split`).
    pub fn can_split_pane_horizontally(&self, client_id: ClientId, can_split: bool) -> (b: bool)
        requires
            self.wf(),
        ensures
            b == (self@.active_panes.contains_key(client_id) && self@.panes().contains_key(
                self@.active_panes[client_id],
            ) && self@.panes()[self@.active_panes[client_id]].position_and_size.rows.inner
                >= MIN_TERMINAL_HEIGHT * 2 && can_split),
    {
        match self.get_active_pane_id(client_id) {
            Some(active_pane_id) => match self.get_pane(active_pane_id) {
                Some(active_pane) => {
                    let full_pane_size = active_pane.position_and_size();
                    if full_pane_size.rows.as_usize() < MIN_TERMINAL_HEIGHT * 2 {
                        false
                    } else {
                        can_split
                    }
                },
                None => false,
            },
            None => false,
        }
    }

    /// Whether the pane `client_id` has focused can be split into a left and
    /// a right pane: it must have at least twice the minimum width, and the
    /// pane grid must be able to split it (`can_split`).
    pub fn can_split_pane_vertically(&self, client_id: ClientId, can_split: bool) -> (b: bool)
        requires
            self.wf(),
        ensures
            b == (self@.active_panes.contains_key(client_id) && self@.panes().contains_key(
                self@.active_panes[client_id],
            ) && self@.panes()[self@.active_panes[client_id]].position_and_size.cols.inner
                >= MIN_TERMINAL_WIDTH * 2 && can_split),
    {
        match self.get_active_pane_id(client_id) {
            Some(active_pane_id) => match self.get_pane(active_pane_id) {
                Some(active_pane) => {
                    let full_pane_size = active_pane.position_and_size();
                    if full_pane_size.cols.as_usize() < MIN_TERMINAL_WIDTH * 2 {
                        false
                    } else {
                        can_split
                    }
                },
                None => false,
            },
            None => false,
        }
    }

    /// Splits the pane `client_id` has focused into the two halves the pane
    /// grid computed; the new pane takes the second and the panes are laid
    /// out again across the split (in `relayout_direction`).
    fn split_active_pane(
        &mut self,
        pid: PaneId,
        new_pane: Pane,
        client_id: ClientId,
        halves: Option<(PaneGeom, PaneGeom)>,
        relayout_direction: SplitDirection,
        layout: Option<Vec<GeomUpdate>>,
    )
        requires
            old(self).wf(),
            old(self)@.active_panes.contains_key(client_id),
            old(self)@.panes().contains_key(old(self)@.active_panes[client_id]),
        ensures
            final(self).wf(),
            (match halves {
                Some((first, second)) => {
                    let inserted = TiledPanesView {
                        entries: ordered_entries(
                            with_geom(old(self)@.panes(), old(self)@.active_panes[client_id], first).insert(
                                pid,
                                Pane { position_and_size: second, ..new_pane },
                            ),
                        ),
                        ..old(self)@
                    };
                    final(self)@ == reframed(laid_out(inserted, opt_updates(layout)))
                },
                None => final(self)@ == old(self)@,
            }),
    {
        let active_pane_id = self.get_active_pane_id(client_id).unwrap();
        self.insert_pane(pid, new_pane, Some((active_pane_id, relayout_direction.other())), halves, layout);
    }

    /// Splits the pane `client_id` has focused into a top half, which it
    /// keeps, and a bottom half for `new_pane`, as the pane grid computed.
    pub fn split_pane_horizontally(
        &mut self,
        pid: PaneId,
        new_pane: Pane,
        client_id: ClientId,
        halves: Option<(PaneGeom, PaneGeom)>,
        layout: Option<Vec<GeomUpdate>>,
    )
        requires
            old(self).wf(),
            old(self)@.active_panes.contains_key(client_id),
            old(self)@.panes().contains_key(old(self)@.active_panes[client_id]),
        ensures
            final(self).wf(),
            (match halves {
                Some((top, bottom)) => {
                    let inserted = TiledPanesView {
                        entries: ordered_entries(
                            with_geom(old(self)@.panes(), old(self)@.active_panes[client_id], top).insert(
                                pid,
                                Pane { position_and_size: bottom, ..new_pane },
                            ),
                        ),
                        ..old(self)@
                    };
                    final(self)@ == reframed(laid_out(inserted, opt_updates(layout)))
                },
                None => final(self)@ == old(self)@,
            }),
    {
        self.split_active_pane(pid, new_pane, client_id, halves, SplitDirection::Vertical, layout);
    }

    /// Splits the pane `client_id` has focused into a left half, which it
    /// keeps, and a right half for `new_pane`, as the pane grid computed.
    pub fn split_pane_vertically(
        &mut self,
        pid: PaneId,
        new_pane: Pane,
        client_id: ClientId,
        halves: Option<(PaneGeom, PaneGeom)>,
        layout: Option<Vec<GeomUpdate>>,
    )
        requires
            old(self).wf(),
            old(self)@.active_panes.contains_key(client_id),
            old(self)@.panes().contains_key(old(self)@.active_panes[client_id]),
        ensures
            final(self).wf(),
            (match halves {
                Some((left, right)) => {
                    let inserted = TiledPanesView {
                        entries: ordered_entries(
                            with_geom(old(self)@.panes(), old(self)@.active_panes[client_id], left).insert(
                                pid,
                                Pane { position_and_size: right, ..new_pane },
                            ),
                        ),
                        ..old(self)@
                    };
                    final(self)@ == reframed(laid_out(inserted, opt_updates(layout)))
                },
                None => final(self)@ == old(self)@,
            }),
    {
        self.split_active_pane(pid, new_pane, client_id, halves, SplitDirection::Horizontal, layout);
    }

    // ----- focus moves chosen by the pane grid -----

    /// Records the current time as the moment the pane `pane_id` was made
    /// active, if it exists.
    fn set_pane_active_at(&mut self, pane_id: PaneId)
        requires
            old(self).wf(),
        ensures
            final(self).wf(),
            activated(old(self)@, final(self)@, pane_id),
    {
        match self.pane_index(pane_id) {
            Some(i) => {
                let ghost before = self.panes@;
                self.panes[i].1.set_active_at(instant_now());
                proof {
                    Self::lemma_same_keys(before, self.panes@);
                    lemma_increasing_distinct(before);
                }
            },
            None => {
                proof {
                    lemma_increasing_distinct(self.panes@);
                    lemma_assoc_map(self.panes@);
                    assert forall|j: int| 0 <= j < self.panes@.len() implies self.panes@[j].0 != pane_id by {
                        assert(self@.panes().contains_key(self.panes@[j].0));
                    }
                }
            },
        }
    }

    /// Focuses every connected client on the pane the pane grid chose as
    /// the one after (or before) the pane `client_id` has focused, and marks
    /// that pane as just made active.
    fn focus_all_on(&mut self, client_id: ClientId, next_active_pane_id: PaneId)
        requires
            old(self).wf(),
            old(self)@.active_panes.contains_key(client_id),
        ensures
            final(self).wf(),
            activated(
                TiledPanesView {
                    active_panes: focused_all(
                        old(self)@.active_panes,
                        old(self)@.connected_clients.to_set(),
                        next_active_pane_id,
                    ),
                    ..old(self)@
                },
                final(self)@,
                next_active_pane_id,
            ),
    {
        let connected_clients = self.connected_clients.clone();
        let _active_pane_id = self.get_active_pane_id(client_id).unwrap();
        self.focus_clients(&connected_clients, next_active_pane_id);
        self.set_pane_active_at(next_active_pane_id);
    }

    /// Focuses every connected client on `next_active_pane_id`, the pane
    /// the pane grid chose as the next selectable one after the pane
    /// `client_id` has focused.
    pub fn focus_next_pane(&mut self, client_id: ClientId, next_active_pane_id: PaneId)
        requires
            old(self).wf(),
            old(self)@.active_panes.contains_key(client_id),
        ensures
            final(self).wf(),
            activated(
                TiledPanesView {
                    active_panes: focused_all(
                        old(self)@.active_panes,
                        old(self)@.connected_clients.to_set(),
                        next_active_pane_id,
                    ),
                    ..old(self)@
                },
                final(self)@,
                next_active_pane_id,
            ),
    {
        self.focus_all_on(client_id, next_active_pane_id);
    }

    /// Focuses every connected client on `previous_active_pane_id`, the pane
    /// the pane grid chose as the selectable one before the pane `client_id`
    /// has focused.
    pub fn focus_previous_pane(&mut self, client_id: ClientId, previous_active_pane_id: PaneId)
        requires
            old(self).wf(),
            old(self)@.active_panes.contains_key(client_id),
        ensures
            final(self).wf(),
            activated(
                TiledPanesView {
                    active_panes: focused_all(
                        old(self)@.active_panes,
                        old(self)@.connected_clients.to_set(),
                        previous_active_pane_id,
                    ),
                    ..old(self)@
                },
                final(self)@,
                previous_active_pane_id,
            ),
    {
        self.focus_all_on(client_id, previous_active_pane_id);
    }

    /// Asks for the pane `pane_id` to be drawn again in full.
    fn rerender_pane(&mut self, pane_id: PaneId)
        requires
            old(self).wf(),
            old(self)@.panes().contains_key(pane_id),
        ensures
            final(self).wf(),
            final(self)@.panes() == old(self)@.panes().insert(
                pane_id,
                rerendered_pane(old(self)@.panes()[pane_id]),
            ),
            final(self)@ == (TiledPanesView { entries: final(self)@.entries, ..old(self)@ }),
    {
        let i = self.pane_index(pane_id).unwrap();
        let ghost before = self.panes@;
        self.panes[i].1.set_should_render(true);
        self.panes[i].1.render_full_viewport();
        proof {
            lemma_increasing_distinct(before);
            lemma_assoc_map(before);
            lemma_assoc_update(before, i as int, self.panes@[i as int].1);
            assert(self.panes@ == before.update(i as int, (before[i as int].0, self.panes@[i as int].1)));
            Self::lemma_same_keys(before, self.panes@);
        }
    }

    /// Moves the focus of `client_id` to `next`, the neighbour the pane grid
    /// found in the direction asked for: both panes are drawn again, the
    /// client (and in a mirrored session every connected client) is focused
    /// on `next`, which is marked as just made active. Without a focused
    /// pane or a neighbour nothing changes and `false` is returned.
    fn move_focus(&mut self, client_id: ClientId, next: Option<PaneId>) -> (moved: bool)
        requires
            old(self).wf(),
            old(self)@.active_panes.contains_key(client_id) && next is Some ==> old(
                self,
            )@.panes().contains_key(old(self)@.active_panes[client_id]) && old(
                self,
            )@.panes().contains_key(next.unwrap()),
        ensures
            final(self).wf(),
            moved == (old(self)@.active_panes.contains_key(client_id) && next is Some),
            !moved ==> final(self)@ == old(self)@,
            moved ==> ({
                let previous = old(self)@.active_panes[client_id];
                let p = next.unwrap();
                let m1 = old(self)@.panes().insert(previous, rerendered_pane(old(self)@.panes()[previous]));
                let m2 = m1.insert(p, rerendered_pane(m1[p]));
                let focused = if old(self)@.session_is_mirrored {
                    focused_all(
                        old(self)@.active_panes.insert(client_id, p),
                        old(self)@.connected_clients.to_set(),
                        p,
                    )
                } else {
                    old(self)@.active_panes.insert(client_id, p)
                };
                activated(
                    TiledPanesView {
                        entries: ordered_entries(m2),
                        active_panes: focused,
                        ..old(self)@
                    },
                    final(self)@,
                    p,
                )
            }),
    {
        match self.get_active_pane_id(client_id) {
            Some(active_pane_id) => match next {
                Some(p) => {
                    self.rerender_pane(active_pane_id);
                    self.rerender_pane(p);
                    proof {
                        lemma_ordered_entries(self.panes@);
                    }
                    self.focus_pane(p, client_id);
                    self.set_pane_active_at(p);
                    true
                },
                None => false,
            },
            None => false,
        }
    }

    /// Moves the focus of `client_id` to the pane the pane grid found to
    /// the left of its focused pane (see `move_focus`).
    pub fn move_focus_left(&mut self, client_id: ClientId, next: Option<PaneId>) -> (moved: bool)
        requires
            old(self).wf(),
            old(self)@.active_panes.contains_key(client_id) && next is Some ==> old(
                self,
            )@.panes().contains_key(old(self)@.active_panes[client_id]) && old(
                self,
            )@.panes().contains_key(next.unwrap()),
        ensures
            final(self).wf(),
            moved == (old(self)@.active_panes.contains_key(client_id) && next is Some),
            !moved ==> final(self)@ == old(self)@,
            moved ==> ({
                let previous = old(self)@.active_panes[client_id];
                let p = next.unwrap();
                let m1 = old(self)@.panes().insert(previous, rerendered_pane(old(self)@.panes()[previous]));
                let m2 = m1.insert(p, rerendered_pane(m1[p]));
                let focused = if old(self)@.session_is_mirrored {
                    focused_all(
                        old(self)@.active_panes.insert(client_id, p),
                        old(self)@.connected_clients.to_set(),
                        p,
                    )
                } else {
                    old(self)@.active_panes.insert(client_id, p)
                };
                activated(
                    TiledPanesView {
                        entries: ordered_entries(m2),
                        active_panes: focused,
                        ..old(self)@
                    },
                    final(self)@,
                    p,
                )
            }),
    {
        self.move_focus(client_id, next)
    }

    /// Moves the focus of `client_id` to the pane the pane grid found
    /// below its focused pane (see `move_focus`).
    pub fn move_focus_down(&mut self, client_id: ClientId, next: Option<PaneId>) -> (moved: bool)
        requires
            old(self).wf(),
            old(self)@.active_panes.contains_key(client_id) && next is Some ==> old(
                self,
            )@.panes().contains_key(old(self)@.active_panes[client_id]) && old(
                self,
            )@.panes().contains_key(next.unwrap()),
        ensures
            final(self).wf(),
            moved == (old(self)@.active_panes.contains_key(client_id) && next is Some),
            !moved ==> final(self)@ == old(self)@,
            moved ==> ({
                let previous = old(self)@.active_panes[client_id];
                let p = next.unwrap();
                let m1 = old(self)@.panes().insert(previous, rerendered_pane(old(self)@.panes()[previous]));
                let m2 = m1.insert(p, rerendered_pane(m1[p]));
                let focused = if old(self)@.session_is_mirrored {
                    focused_all(
                        old(self)@.active_panes.insert(client_id, p),
                        old(self)@.connected_clients.to_set(),
                        p,
                    )
                } else {
                    old(self)@.active_panes.insert(client_id, p)
                };
                activated(
                    TiledPanesView {
                        entries: ordered_entries(m2),
                        active_panes: focused,
                        ..old(self)@
                    },
                    final(self)@,
                    p,
                )
            }),
    {
        self.move_focus(client_id, next)
    }

    /// Moves the focus of `client_id` to the pane the pane grid found
    /// above its focused pane (see `move_focus`).
    pub fn move_focus_up(&mut self, client_id: ClientId, next: Option<PaneId>) -> (moved: bool)
        requires
            old(self).wf(),
            old(self)@.active_panes.contains_key(client_id) && next is Some ==> old(
                self,
            )@.panes().contains_key(old(self)@.active_panes[client_id]) && old(
                self,
            )@.panes().contains_key(next.unwrap()),
        ensures
            final(self).wf(),
            moved == (old(self)@.active_panes.contains_key(client_id) && next is Some),
            !moved ==> final(self)@ == old(self)@,
            moved ==> ({
                let previous = old(self)@.active_panes[client_id];
                let p = next.unwrap();
                let m1 = old(self)@.panes().insert(previous, rerendered_pane(old(self)@.panes()[previous]));
                let m2 = m1.insert(p, rerendered_pane(m1[p]));
                let focused = if old(self)@.session_is_mirrored {
                    focused_all(
                        old(self)@.active_panes.insert(client_id, p),
                        old(self)@.connected_clients.to_set(),
                        p,
                    )
                } else {
                    old(self)@.active_panes.insert(client_id, p)
                };
                activated(
                    TiledPanesView {
                        entries: ordered_entries(m2),
                        active_panes: focused,
                        ..old(self)@
                    },
                    final(self)@,
                    p,
                )
            }),
    {
        self.move_focus(client_id, next)
    }

    /// Moves the focus of `client_id` to the pane the pane grid found
    /// to the right of its focused pane (see `move_focus`).
    pub fn move_focus_right(&mut self, client_id: ClientId, next: Option<PaneId>) -> (moved: bool)
        requires
            old(self).wf(),
            old(self)@.active_panes.contains_key(client_id) && next is Some ==> old(
                self,
            )@.panes().contains_key(old(self)@.active_panes[client_id]) && old(
                self,
            )@.panes().contains_key(next.unwrap()),
        ensures
            final(self).wf(),
            moved == (old(self)@.active_panes.contains_key(client_id) && next is Some),
            !moved ==> final(self)@ == old(self)@,
            moved ==> ({
                let previous = old(self)@.active_panes[client_id];
                let p = next.unwrap();
                let m1 = old(self)@.panes().insert(previous, rerendered_pane(old(self)@.panes()[previous]));
                let m2 = m1.insert(p, rerendered_pane(m1[p]));
                let focused = if old(self)@.session_is_mirrored {
                    focused_all(
                        old(self)@.active_panes.insert(client_id, p),
                        old(self)@.connected_clients.to_set(),
                        p,
                    )
                } else {
                    old(self)@.active_panes.insert(client_id, p)
                };
                activated(
                    TiledPanesView {
                        entries: ordered_entries(m2),
                        active_panes: focused,
                        ..old(self)@
                    },
                    final(self)@,
                    p,
                )
            }),
    {
        self.move_focus(client_id, next)
    }

    // ----- moving panes -----

    /// The pane `pane_id` takes the place `g` (and the override `ov`, if
    /// any), a terminal resize is asked for it, and it is to be drawn again.
    fn move_pane_into(&mut self, pane_id: PaneId, g: PaneGeom, ov: Option<PaneGeom>)
        requires
            old(self).wf(),
            old(self)@.panes().contains_key(pane_id),
        ensures
            final(self).wf(),
            final(self)@.panes() == old(self)@.panes().insert(
                pane_id,
                moved_into(old(self)@.panes()[pane_id], g, ov),
            ),
            final(self)@ == (TiledPanesView {
                entries: ordered_entries(final(self)@.panes()),
                pty_resizes: old(self)@.pty_resizes + pty_resize_of(
                    moved_into(old(self)@.panes()[pane_id], g, ov),
                ),
                ..old(self)@
            }),
    {
        let i = self.pane_index(pane_id).unwrap();
        let ghost s0 = self.panes@;
        self.panes[i].1.set_geom(g);
        match ov {
            Some(geom) => self.panes[i].1.set_geom_override(geom),
            None => {},
        }
        queue_pty_resize(&mut self.pty_resizes, &self.panes[i].1);
        self.panes[i].1.set_should_render(true);
        proof {
            let s1 = self.panes@;
            lemma_increasing_distinct(s0);
            lemma_assoc_map(s0);
            lemma_assoc_update(s0, i as int, s1[i as int].1);
            assert(s1 == s0.update(i as int, (s0[i as int].0, s1[i as int].1)));
            Self::lemma_same_keys(s0, s1);
            lemma_ordered_entries(s1);
        }
    }

    /// The pane `client_id` has focused and the pane `new_position_id`
    /// change places (see `after_swap`).
    fn swap_active_pane_with(&mut self, client_id: ClientId, new_position_id: PaneId)
        requires
            old(self).wf(),
            old(self)@.active_panes.contains_key(client_id),
            old(self)@.panes().contains_key(old(self)@.active_panes[client_id]),
            old(self)@.panes().contains_key(new_position_id),
        ensures
            final(self).wf(),
            final(self)@ == after_swap(old(self)@, old(self)@.active_panes[client_id], new_position_id),
    {
        let active_pane_id = self.get_active_pane_id(client_id).unwrap();
        let current_position = self.get_pane(active_pane_id).unwrap();
        let prev_geom = current_position.position_and_size();
        let prev_geom_override = current_position.geom_override();
        let new_position = self.get_pane(new_position_id).unwrap();
        let next_geom = new_position.position_and_size();
        let next_geom_override = new_position.geom_override();
        self.move_pane_into(new_position_id, prev_geom, prev_geom_override);
        self.move_pane_into(active_pane_id, next_geom, next_geom_override);
    }

    /// The pane `client_id` has focused and the pane `new_position_id`, the
    /// one the pane grid chose as the next selectable pane, change places
    /// (see `after_swap`).
    pub fn move_active_pane(&mut self, client_id: ClientId, new_position_id: PaneId)
        requires
            old(self).wf(),
            old(self)@.active_panes.contains_key(client_id),
            old(self)@.panes().contains_key(old(self)@.active_panes[client_id]),
            old(self)@.panes().contains_key(new_position_id),
        ensures
            final(self).wf(),
            final(self)@ == after_swap(old(self)@, old(self)@.active_panes[client_id], new_position_id),
    {
        self.swap_active_pane_with(client_id, new_position_id);
    }

    /// The pane `client_id` has focused and `next`, the pane the pane grid
    /// found below it, change places (see `after_swap`); without a
    /// focused pane or such a neighbour nothing changes.
    pub fn move_active_pane_down(&mut self, client_id: ClientId, next: Option<PaneId>)
        requires
            old(self).wf(),
            old(self)@.active_panes.contains_key(client_id) && next is Some ==> old(
                self,
            )@.panes().contains_key(old(self)@.active_panes[client_id]) && old(
                self,
            )@.panes().contains_key(next.unwrap()),
        ensures
            final(self).wf(),
            final(self)@ == (if old(self)@.active_panes.contains_key(client_id) && next is Some {
                after_swap(old(self)@, old(self)@.active_panes[client_id], next.unwrap())
            } else {
                old(self)@
            }),
    {
        match self.get_active_pane_id(client_id) {
            Some(_active_pane_id) => match next {
                Some(p) => self.swap_active_pane_with(client_id, p),
                None => {},
            },
            None => {},
        }
    }

    /// The pane `client_id` has focused and `next`, the pane the pane grid
    /// found to the left of it, change places (see `after_swap`); without a
    /// focused pane or such a neighbour nothing changes.
    pub fn move_active_pane_left(&mut self, client_id: ClientId, next: Option<PaneId>)
        requires
            old(self).wf(),
            old(self)@.active_panes.contains_key(client_id) && next is Some ==> old(
                self,
            )@.panes().contains_key(old(self)@.active_panes[client_id]) && old(
                self,
            )@.panes().contains_key(next.unwrap()),
        ensures
            final(self).wf(),
            final(self)@ == (if old(self)@.active_panes.contains_key(client_id) && next is Some {
                after_swap(old(self)@, old(self)@.active_panes[client_id], next.unwrap())
            } else {
                old(self)@
            }),
    {
        match self.get_active_pane_id(client_id) {
            Some(_active_pane_id) => match next {
                Some(p) => self.swap_active_pane_with(client_id, p),
                None => {},
            },
            None => {},
        }
    }

    /// The pane `client_id` has focused and `next`, the pane the pane grid
    /// found to the right of it, change places (see `after_swap`); without a
    /// focused pane or such a neighbour nothing changes.
    pub fn move_active_pane_right(&mut self, client_id: ClientId, next: Option<PaneId>)
        requires
            old(self).wf(),
            old(self)@.active_panes.contains_key(client_id) && next is Some ==> old(
                self,
            )@.panes().contains_key(old(self)@.active_panes[client_id]) && old(
                self,
            )@.panes().contains_key(next.unwrap()),
        ensures
            final(self).wf(),
            final(self)@ == (if old(self)@.active_panes.contains_key(client_id) && next is Some {
                after_swap(old(self)@, old(self)@.active_panes[client_id], next.unwrap())
            } else {
                old(self)@
            }),
    {
        match self.get_active_pane_id(client_id) {
            Some(_active_pane_id) => match next {
                Some(p) => self.swap_active_pane_with(client_id, p),
                None => {},
            },
            None => {},
        }
    }

    /// The pane `client_id` has focused and `next`, the pane the pane grid
    /// found above it, change places (see `after_swap`); without a
    /// focused pane or such a neighbour nothing changes.
    pub fn move_active_pane_up(&mut self, client_id: ClientId, next: Option<PaneId>)
        requires
            old(self).wf(),
            old(self)@.active_panes.contains_key(client_id) && next is Some ==> old(
                self,
            )@.panes().contains_key(old(self)@.active_panes[client_id]) && old(
                self,
            )@.panes().contains_key(next.unwrap()),
        ensures
            final(self).wf(),
            final(self)@ == (if old(self)@.active_panes.contains_key(client_id) && next is Some {
                after_swap(old(self)@, old(self)@.active_panes[client_id], next.unwrap())
            } else {
                old(self)@
            }),
    {
        match self.get_active_pane_id(client_id) {
            Some(_active_pane_id) => match next {
                Some(p) => self.swap_active_pane_with(client_id, p),
                None => {},
            },
            None => {},
        }
    }

    /// Moves the panes as the pane grid resized the pane `client_id` has
    /// focused, then asks for every terminal to be resized; without a
    /// focused pane nothing changes.
    fn resize_active_pane(&mut self, client_id: ClientId, updates: &Vec<GeomUpdate>)
        requires
            old(self).wf(),
        ensures
            final(self).wf(),
            final(self)@ == (if old(self)@.active_panes.contains_key(client_id) {
                TiledPanesView {
                    entries: apply_updates(old(self)@.entries, updates@),
                    pty_resizes: old(self)@.pty_resizes + pty_resizes_for(
                        apply_updates(old(self)@.entries, updates@),
                    ),
                    ..old(self)@
                }
            } else {
                old(self)@
            }),
    {
        match self.get_active_pane_id(client_id) {
            Some(_active_pane_id) => {
                self.apply_geom_updates(updates);
                self.queue_all_pty_resizes();
            },
            None => {},
        }
    }

    /// Moves the panes as the pane grid grew or shrank it to the left (the pane `client_id` has
    /// focused), then asks for every terminal to be resized; without a
    /// focused pane nothing changes.
    pub fn resize_active_pane_left(&mut self, client_id: ClientId, updates: Vec<GeomUpdate>)
        requires
            old(self).wf(),
        ensures
            final(self).wf(),
            final(self)@ == (if old(self)@.active_panes.contains_key(client_id) {
                TiledPanesView {
                    entries: apply_updates(old(self)@.entries, updates@),
                    pty_resizes: old(self)@.pty_resizes + pty_resizes_for(
                        apply_updates(old(self)@.entries, updates@),
                    ),
                    ..old(self)@
                }
            } else {
                old(self)@
            }),
    {
        self.resize_active_pane(client_id, &updates);
    }

    /// Moves the panes as the pane grid grew or shrank it to the right (the pane `client_id` has
    /// focused), then asks for every terminal to be resized; without a
    /// focused pane nothing changes.
    pub fn resize_active_pane_right(&mut self, client_id: ClientId, updates: Vec<GeomUpdate>)
        requires
            old(self).wf(),
        ensures
            final(self).wf(),
            final(self)@ == (if old(self)@.active_panes.contains_key(client_id) {
                TiledPanesView {
                    entries: apply_updates(old(self)@.entries, updates@),
                    pty_resizes: old(self)@.pty_resizes + pty_resizes_for(
                        apply_updates(old(self)@.entries, updates@),
                    ),
                    ..old(self)@
                }
            } else {
                old(self)@
            }),
    {
        self.resize_active_pane(client_id, &updates);
    }

    /// Moves the panes as the pane grid grew or shrank it upwards (the pane `client_id` has
    /// focused), then asks for every terminal to be resized; without a
    /// focused pane nothing changes.
    pub fn resize_active_pane_up(&mut self, client_id: ClientId, updates: Vec<GeomUpdate>)
        requires
            old(self).wf(),
        ensures
            final(self).wf(),
            final(self)@ == (if old(self)@.active_panes.contains_key(client_id) {
                TiledPanesView {
                    entries: apply_updates(old(self)@.entries, updates@),
                    pty_resizes: old(self)@.pty_resizes + pty_resizes_for(
                        apply_updates(old(self)@.entries, updates@),
                    ),
                    ..old(self)@
                }
            } else {
                old(self)@
            }),
    {
        self.resize_active_pane(client_id, &updates);
    }

    /// Moves the panes as the pane grid grew or shrank it downwards (the pane `client_id` has
    /// focused), then asks for every terminal to be resized; without a
    /// focused pane nothing changes.
    pub fn resize_active_pane_down(&mut self, client_id: ClientId, updates: Vec<GeomUpdate>)
        requires
            old(self).wf(),
        ensures
            final(self).wf(),
            final(self)@ == (if old(self)@.active_panes.contains_key(client_id) {
                TiledPanesView {
                    entries: apply_updates(old(self)@.entries, updates@),
                    pty_resizes: old(self)@.pty_resizes + pty_resizes_for(
                        apply_updates(old(self)@.entries, updates@),
                    ),
                    ..old(self)@
                }
            } else {
                old(self)@
            }),
    {
        self.resize_active_pane(client_id, &updates);
    }

    /// Moves the panes as the pane grid grew it (the pane `client_id` has
    /// focused), then asks for every terminal to be resized; without a
    /// focused pane nothing changes.
    pub fn resize_active_pane_increase(&mut self, client_id: ClientId, updates: Vec<GeomUpdate>)
        requires
            old(self).wf(),
        ensures
            final(self).wf(),
            final(self)@ == (if old(self)@.active_panes.contains_key(client_id) {
                TiledPanesView {
                    entries: apply_updates(old(self)@.entries, updates@),
                    pty_resizes: old(self)@.pty_resizes + pty_resizes_for(
                        apply_updates(old(self)@.entries, updates@),
                    ),
                    ..old(self)@
                }
            } else {
                old(self)@
            }),
    {
        self.resize_active_pane(client_id, &updates);
    }

    /// Moves the panes as the pane grid shrank it (the pane `client_id` has
    /// focused), then asks for every terminal to be resized; without a
    /// focused pane nothing changes.
    pub fn resize_active_pane_decrease(&mut self, client_id: ClientId, updates: Vec<GeomUpdate>)
        requires
            old(self).wf(),
        ensures
            final(self).wf(),
            final(self)@ == (if old(self)@.active_panes.contains_key(client_id) {
                TiledPanesView {
                    entries: apply_updates(old(self)@.entries, updates@),
                    pty_resizes: old(self)@.pty_resizes + pty_resizes_for(
                        apply_updates(old(self)@.entries, updates@),
                    ),
                    ..old(self)@
                }
            } else {
                old(self)@
            }),
    {
        self.resize_active_pane(client_id, &updates);
    }

    /// Closes the pane `pane_id`. If the pane grid filled its space (`fill`
    /// holds the new geometries), the pane is taken out and returned, the
    /// clients focused on it move elsewhere (see `focus_out_of_pane`) and
    /// every pane's frame and offset are set again. Otherwise it was the last
    /// pane: it is taken out, every client is unfocused and `None` returned.
    pub fn remove_pane(&mut self, pane_id: PaneId, fill: Option<Vec<GeomUpdate>>) -> (r: Option<Pane>)
        requires
            old(self).wf(),
        ensures
            final(self).wf(),
            match fill {
                Some(u) => {
                    let v1 = TiledPanesView { entries: apply_updates(old(self)@.entries, u@), ..old(self)@ };
                    let v2 = TiledPanesView {
                        entries: ordered_entries(v1.panes().remove(pane_id)),
                        ..v1
                    };
                    &&& r == (if v1.panes().contains_key(pane_id) {
                        Some(v1.panes()[pane_id])
                    } else {
                        None::<Pane>
                    })
                    &&& final(self)@ == reframed(
                        TiledPanesView { active_panes: focus_out_of_pane(v2, pane_id), ..v2 },
                    )
                },
                None => {
                    &&& r is None
                    &&& final(self)@ == (TiledPanesView {
                        entries: ordered_entries(old(self)@.panes().remove(pane_id)),
                        active_panes: Map::empty(),
                        ..old(self)@
                    })
                },
            },
    {
        match &fill {
            Some(updates) => {
                self.apply_geom_updates(updates);
                let closed_pane = self.take_pane(pane_id);
                proof {
                    lemma_ordered_entries(self.panes@);
                }
                self.move_clients_out_of_pane(pane_id);
                let draw_pane_frames = self.draw_pane_frames;
                self.set_pane_frames(draw_pane_frames);
                closed_pane
            },
            None => {
                let _ = self.take_pane(pane_id);
                proof {
                    lemma_ordered_entries(self.panes@);
                }
                self.clear_active_panes();
                None
            },
        }
    }

    // ----- fullscreen -----

    /// Shows the panes hidden behind a fullscreen pane again: hidden panes
    /// are to be drawn again, panes out of the viewport and the pane the
    /// first connected client has focused lose their overrides, nothing is
    /// hidden any more, every pane is to be drawn again and the tab is laid
    /// out again at its size (see `unfullscreened`). Without a fullscreen
    /// pane nothing changes.
    pub fn unset_fullscreen(&mut self, horizontal: Option<Vec<GeomUpdate>>, vertical: Option<Vec<GeomUpdate>>)
        requires
            old(self).wf(),
            can_unset_fullscreen(old(self)@),
            old(self)@.fullscreen_is_active ==> resize_fits(
                old(self)@,
                old(self)@.display_area,
                opt_updates(horizontal),
                opt_updates(vertical),
            ),
        ensures
            final(self).wf(),
            final(self)@ == (if old(self)@.fullscreen_is_active {
                unfullscreened(old(self)@, opt_updates(horizontal), opt_updates(vertical))
            } else {
                old(self)@
            }),
    {
        if self.fullscreen_is_active {
            let first_client_id = self.connected_clients[0];
            let active_pane_id = self.get_active_pane_id(first_client_id).unwrap();
            let viewport = self.viewport;
            let ghost before = self.panes@;
            let ghost hidden = self@.panes_to_hide;
            let ghost target = before.map_values(
                |e: (PaneId, Pane)| (e.0, unfullscreen_step(e.1, e.0, hidden, viewport, active_pane_id)),
            );
            let mut i: usize = 0;
            while i < self.panes.len()
                invariant
                    ranks_increasing(before),
                    self.panes@.len() == before.len(),
                    i <= before.len(),
                    hidden == self@.panes_to_hide,
                    viewport == old(self)@.viewport,
                    target == before.map_values(
                        |e: (PaneId, Pane)|
                            (e.0, unfullscreen_step(e.1, e.0, hidden, viewport, active_pane_id)),
                    ),
                    forall|j: int| 0 <= j < i ==> #[trigger] self.panes@[j] == target[j],
                    forall|j: int| i <= j < before.len() ==> #[trigger] self.panes@[j] == before[j],
                    keys_distinct(self.active_panes@),
                    self.panes_to_hide@.no_duplicates(),
                    self.connected_clients@.no_duplicates(),
                    self@ == (TiledPanesView { entries: self@.entries, ..old(self)@ }),
                decreases before.len() - i,
            {
                let id = self.panes[i].0;
                if self.panes_to_hide_contains(id) {
                    self.panes[i].1.set_should_render(true);
                    self.panes[i].1.set_should_render_boundaries(true);
                }
                if !is_inside_viewport(&viewport, &self.panes[i].1) {
                    self.panes[i].1.reset_size_and_position_override();
                }
                if id == active_pane_id {
                    self.panes[i].1.reset_size_and_position_override();
                }
                proof {
                    assert(self.panes@[i as int] == target[i as int]);
                }
                i = i + 1;
            }
            proof {
                assert(self.panes@ =~= target);
                Self::lemma_same_keys(before, self.panes@);
            }
            self.panes_to_hide.clear();
            proof {
                assert(self.panes_to_hide@.to_set() =~= Set::empty());
            }
            self.set_force_render();
            proof {
                let w_entries = before.map_values(
                    |e: (PaneId, Pane)| (e.0, unfullscreened_pane(e.1, e.0, viewport, active_pane_id)),
                );
                assert(self.panes@ =~= w_entries);
            }
            let display_area = self.display_area;
            self.resize(display_area, horizontal, vertical);
            self.fullscreen_is_active = false;
        }
    }

    /// The ids, in order, of the panes other than `active_pane_id` within
    /// the viewport.
    fn ids_to_hide(&self, active_pane_id: PaneId) -> (r: Vec<PaneId>)
        requires
            self.wf(),
        ensures
            r@.no_duplicates(),
            r@.to_set() == hidden_for_fullscreen(self@, active_pane_id),
    {
        let viewport = self.viewport;
        let mut r: Vec<PaneId> = Vec::new();
        let mut i: usize = 0;
        proof {
            lemma_increasing_distinct(self.panes@);
            lemma_assoc_map(self.panes@);
        }
        while i < self.panes.len()
            invariant
                self.wf(),
                viewport == self.viewport,
                i <= self.panes@.len(),
                forall|a: int, b: int| 0 <= a < b < r@.len() ==> pane_id_rank(#[trigger] r@[a]) < pane_id_rank(
                    #[trigger] r@[b],
                ),
                forall|a: int|
                    #![trigger r@[a]]
                    0 <= a < r@.len() ==> exists|j: int|
                        0 <= j < i && #[trigger] self.panes@[j].0 == r@[a] && r@[a] != active_pane_id
                            && spec_is_inside_viewport(viewport, self.panes@[j].1),
                forall|j: int|
                    0 <= j < i && #[trigger] self.panes@[j].0 != active_pane_id && spec_is_inside_viewport(
                        viewport,
                        self.panes@[j].1,
                    ) ==> r@.contains(self.panes@[j].0),
            decreases self.panes@.len() - i,
        {
            let id = self.panes[i].0;
            if id != active_pane_id && is_inside_viewport(&viewport, &self.panes[i].1) {
                let ghost r0 = r@;
                proof {
                    assert forall|a: int| 0 <= a < r0.len() implies pane_id_rank(r0[a]) < pane_id_rank(id) by {
                        let j = choose|j: int| 0 <= j < i && #[trigger] self.panes@[j].0 == r0[a] && r0[a]
                            != active_pane_id && spec_is_inside_viewport(viewport, self.panes@[j].1);
                        assert(pane_id_rank(self.panes@[j].0) < pane_id_rank(self.panes@[i as int].0));
                    }
                }
                r.push(id);
                proof {
                    assert forall|j: int|
                        0 <= j <= i && #[trigger] self.panes@[j].0 != active_pane_id && spec_is_inside_viewport(
                            viewport,
                            self.panes@[j].1,
                        ) implies r@.contains(self.panes@[j].0) by {
                        if j < i {
                            assert(r0.contains(self.panes@[j].0));
                            let k = choose|k: int| 0 <= k < r0.len() && r0[k] == self.panes@[j].0;
                            assert(r@[k] == r0[k]);
                        } else {
                            assert(r@[r0.len() as int] == id);
                        }
                    }
                    assert forall|a: int| #![trigger r@[a]] 0 <= a < r@.len() implies exists|j: int|
                        0 <= j < i + 1 && #[trigger] self.panes@[j].0 == r@[a] && r@[a] != active_pane_id
                            && spec_is_inside_viewport(viewport, self.panes@[j].1) by {
                        if a < r0.len() {
                            assert(r@[a] == r0[a]);
                        } else {
                            assert(self.panes@[i as int].0 == r@[a]);
                        }
                    }
                }
            } else {
                proof {
                    assert forall|j: int|
                        0 <= j <= i && #[trigger] self.panes@[j].0 != active_pane_id && spec_is_inside_viewport(
                            viewport,
                            self.panes@[j].1,
                        ) implies r@.contains(self.panes@[j].0) by {
                        if j == i {
                            assert(false);
                        }
                    }
                }
            }
            i = i + 1;
        }
        proof {
            assert forall|a: int, b: int| 0 <= a < r@.len() && 0 <= b < r@.len() && a != b implies r@[a]
                != r@[b] by {
                if a < b {
                    assert(pane_id_rank(r@[a]) < pane_id_rank(r@[b]));
                } else {
                    assert(pane_id_rank(r@[b]) < pane_id_rank(r@[a]));
                }
            }
            assert forall|k: PaneId| #[trigger] r@.to_set().contains(k) == hidden_for_fullscreen(
                self@,
                active_pane_id,
            ).contains(k) by {
                if r@.to_set().contains(k) {
                    let a = choose|a: int| 0 <= a < r@.len() && r@[a] == k;
                    let j = choose|j: int| 0 <= j < i && #[trigger] self.panes@[j].0 == r@[a] && r@[a]
                        != active_pane_id && spec_is_inside_viewport(viewport, self.panes@[j].1);
                    assert(self@.panes().contains_key(self.panes@[j].0));
                }
                if hidden_for_fullscreen(self@, active_pane_id).contains(k) {
                    let j = choose|j: int| 0 <= j < self.panes@.len() && #[trigger] self.panes@[j].0 == k;
                    assert(self@.panes()[self.panes@[j].0] == self.panes@[j].1);
                    assert(r@.contains(self.panes@[j].0));
                }
            }
            assert(r@.to_set() =~= hidden_for_fullscreen(self@, active_pane_id));
        }
        r
    }

    /// Shows the pane `active_pane_id` over the whole viewport (the first
    /// part of making it fullscreen): panes out of the viewport keep their
    /// place as an override, and the pane is shown at the viewport's origin.
    fn set_fullscreen_overrides(&mut self, active_pane_id: PaneId)
        requires
            old(self).wf(),
        ensures
            final(self).wf(),
            final(self)@ == (TiledPanesView {
                entries: old(self)@.entries.map_values(
                    |e: (PaneId, Pane)|
                        (e.0, fullscreened_pane(e.1, e.0, old(self)@.viewport, active_pane_id)),
                ),
                ..old(self)@
            }),
    {
        let viewport = self.viewport;
        let ghost before = self.panes@;
        let ghost target = before.map_values(
            |e: (PaneId, Pane)| (e.0, fullscreened_pane(e.1, e.0, viewport, active_pane_id)),
        );
        let mut i: usize = 0;
        while i < self.panes.len()
            invariant
                ranks_increasing(before),
                self.panes@.len() == before.len(),
                i <= before.len(),
                viewport == old(self)@.viewport,
                target == before.map_values(
                    |e: (PaneId, Pane)| (e.0, fullscreened_pane(e.1, e.0, viewport, active_pane_id)),
                ),
                forall|j: int| 0 <= j < i ==> #[trigger] self.panes@[j] == target[j],
                forall|j: int| i <= j < before.len() ==> #[trigger] self.panes@[j] == before[j],
                keys_distinct(self.active_panes@),
                self.panes_to_hide@.no_duplicates(),
                self.connected_clients@.no_duplicates(),
                self@ == (TiledPanesView { entries: self@.entries, ..old(self)@ }),
            decreases before.len() - i,
        {
            let id = self.panes[i].0;
            if !is_inside_viewport(&viewport, &self.panes[i].1) {
                let g = self.panes[i].1.position_and_size();
                self.panes[i].1.set_geom_override(g);
            }
            if id == active_pane_id {
                let full_screen_geom = PaneGeom {
                    x: viewport.x,
                    y: viewport.y,
                    rows: Dimension::full(),
                    cols: Dimension::full(),
                };
                self.panes[i].1.set_geom_override(full_screen_geom);
            }
            proof {
                assert(self.panes@[i as int] == target[i as int]);
            }
            i = i + 1;
        }
        proof {
            assert(self.panes@ =~= target);
            Self::lemma_same_keys(before, self.panes@);
        }
    }

    /// Makes the pane `client_id` has focused fullscreen, or unsets the
    /// fullscreen pane if there is one (see `toggled_fullscreen`); without a
    /// focused pane nothing changes.
    pub fn toggle_active_pane_fullscreen(
        &mut self,
        client_id: ClientId,
        horizontal: Option<Vec<GeomUpdate>>,
        vertical: Option<Vec<GeomUpdate>>,
    )
        requires
            old(self).wf(),
            old(self)@.active_panes.contains_key(client_id) ==> can_toggle_fullscreen(
                old(self)@,
                old(self)@.active_panes[client_id],
                opt_updates(horizontal),
                opt_updates(vertical),
            ),
        ensures
            final(self).wf(),
            final(self)@ == (if old(self)@.active_panes.contains_key(client_id) {
                toggled_fullscreen(
                    old(self)@,
                    old(self)@.active_panes[client_id],
                    opt_updates(horizontal),
                    opt_updates(vertical),
                )
            } else {
                old(self)@
            }),
    {
        match self.get_active_pane_id(client_id) {
            Some(active_pane_id) => {
                if self.fullscreen_is_active {
                    self.unset_fullscreen(horizontal, vertical);
                } else {
                    let pane_ids_to_hide = self.ids_to_hide(active_pane_id);
                    self.panes_to_hide = pane_ids_to_hide;
                    if self.panes_to_hide.len() == 0 {
                        proof {
                            assert(self.panes_to_hide@.to_set() =~= Set::empty());
                        }
                        return;
                    }
                    proof {
                        assert(self.panes_to_hide@.to_set().contains(self.panes_to_hide@[0]));
                    }
                    self.set_fullscreen_overrides(active_pane_id);
                    let connected_client_list = self.connected_clients.clone();
                    self.focus_clients(&connected_client_list, active_pane_id);
                    self.set_force_render();
                    let display_area = self.display_area;
                    self.resize(display_area, horizontal, vertical);
                    self.fullscreen_is_active = true;
                }
            },
            None => {},
        }
    }

    /// Marking a pane as just made active changes no pane's place, so it
    /// changes neither which panes exist nor which would be hidden.
    proof fn lemma_activated_keeps_places(a: TiledPanesView, b: TiledPanesView, id: PaneId)
        requires
            ranks_increasing(a.entries),
            activated(a, b, id),
        ensures
            ranks_increasing(b.entries),
            forall|k: PaneId| #[trigger] b.panes().contains_key(k) == a.panes().contains_key(k),
            forall|k: PaneId|
                a.panes().contains_key(k) ==> current_geom_of(#[trigger] b.panes()[k]) == current_geom_of(
                    a.panes()[k],
                ),
            forall|p: PaneId| #[trigger] hidden_for_fullscreen(b, p) == hidden_for_fullscreen(a, p),
    {
        assert forall|j: int| 0 <= j < a.entries.len() implies #[trigger] b.entries[j].0 == a.entries[j].0 by {
            let e = a.entries[j];
            if e.0 == id {
            } else {
            }
        }
        Self::lemma_same_keys(a.entries, b.entries);
        lemma_increasing_distinct(a.entries);
        lemma_increasing_distinct(b.entries);
        lemma_assoc_map(a.entries);
        lemma_assoc_map(b.entries);
        assert forall|k: PaneId| #[trigger] b.panes().contains_key(k) == a.panes().contains_key(k) by {
            if a.panes().contains_key(k) {
                let j = choose|j: int| 0 <= j < a.entries.len() && #[trigger] a.entries[j].0 == k;
                assert(b.entries[j].0 == k);
            }
            if b.panes().contains_key(k) {
                let j = choose|j: int| 0 <= j < b.entries.len() && #[trigger] b.entries[j].0 == k;
                assert(a.entries[j].0 == k);
            }
        }
        assert forall|k: PaneId| a.panes().contains_key(k) implies current_geom_of(#[trigger] b.panes()[k])
            == current_geom_of(a.panes()[k]) by {
            let j = choose|j: int| 0 <= j < a.entries.len() && #[trigger] a.entries[j].0 == k;
            assert(b.entries[j].0 == k);
            assert(a.panes()[a.entries[j].0] == a.entries[j].1);
            assert(b.panes()[b.entries[j].0] == b.entries[j].1);
        }
        assert forall|p: PaneId| #[trigger] hidden_for_fullscreen(b, p) == hidden_for_fullscreen(a, p) by {
            assert(hidden_for_fullscreen(b, p) =~= hidden_for_fullscreen(a, p));
        }
    }

    /// Unsets the fullscreen pane, focuses every connected client on the
    /// pane the pane grid chose as the next one (`next_pane_id`), and makes
    /// the pane `client_id` then has focused fullscreen.
    pub fn switch_next_pane_fullscreen(
        &mut self,
        client_id: ClientId,
        next_pane_id: PaneId,
        unset_horizontal: Option<Vec<GeomUpdate>>,
        unset_vertical: Option<Vec<GeomUpdate>>,
        horizontal: Option<Vec<GeomUpdate>>,
        vertical: Option<Vec<GeomUpdate>>,
    )
        requires
            old(self).wf(),
            can_switch_fullscreen(
                old(self)@,
                client_id,
                next_pane_id,
                opt_updates(unset_horizontal),
                opt_updates(unset_vertical),
                opt_updates(horizontal),
                opt_updates(vertical),
            ),
        ensures
            final(self).wf(),
            ({
                let v2 = all_focused_on(
                    after_unset(old(self)@, opt_updates(unset_horizontal), opt_updates(unset_vertical)),
                    next_pane_id,
                );
                exists|mid: TiledPanesView|
                    #[trigger] activated(v2, mid, next_pane_id) && final(self)@ == toggled_fullscreen(
                        mid,
                        v2.active_panes[client_id],
                        opt_updates(horizontal),
                        opt_updates(vertical),
                    )
            }),
    {
        self.switch_pane_fullscreen(
            client_id,
            next_pane_id,
            unset_horizontal,
            unset_vertical,
            horizontal,
            vertical,
        );
    }

    /// Unsets the fullscreen pane, focuses every connected client on the
    /// pane the pane grid chose as the previous one (`previous_pane_id`),
    /// and makes the pane `client_id` then has focused fullscreen.
    pub fn switch_prev_pane_fullscreen(
        &mut self,
        client_id: ClientId,
        previous_pane_id: PaneId,
        unset_horizontal: Option<Vec<GeomUpdate>>,
        unset_vertical: Option<Vec<GeomUpdate>>,
        horizontal: Option<Vec<GeomUpdate>>,
        vertical: Option<Vec<GeomUpdate>>,
    )
        requires
            old(self).wf(),
            can_switch_fullscreen(
                old(self)@,
                client_id,
                previous_pane_id,
                opt_updates(unset_horizontal),
                opt_updates(unset_vertical),
                opt_updates(horizontal),
                opt_updates(vertical),
            ),
        ensures
            final(self).wf(),
            ({
                let v2 = all_focused_on(
                    after_unset(old(self)@, opt_updates(unset_horizontal), opt_updates(unset_vertical)),
                    previous_pane_id,
                );
                exists|mid: TiledPanesView|
                    #[trigger] activated(v2, mid, previous_pane_id) && final(self)@ == toggled_fullscreen(
                        mid,
                        v2.active_panes[client_id],
                        opt_updates(horizontal),
                        opt_updates(vertical),
                    )
            }),
    {
        self.switch_pane_fullscreen(
            client_id,
            previous_pane_id,
            unset_horizontal,
            unset_vertical,
            horizontal,
            vertical,
        );
    }

    fn switch_pane_fullscreen(
        &mut self,
        client_id: ClientId,
        target_pane_id: PaneId,
        unset_horizontal: Option<Vec<GeomUpdate>>,
        unset_vertical: Option<Vec<GeomUpdate>>,
        horizontal: Option<Vec<GeomUpdate>>,
        vertical: Option<Vec<GeomUpdate>>,
    )
        requires
            old(self).wf(),
            can_switch_fullscreen(
                old(self)@,
                client_id,
                target_pane_id,
                opt_updates(unset_horizontal),
                opt_updates(unset_vertical),
                opt_updates(horizontal),
                opt_updates(vertical),
            ),
        ensures
            final(self).wf(),
            ({
                let v2 = all_focused_on(
                    after_unset(old(self)@, opt_updates(unset_horizontal), opt_updates(unset_vertical)),
                    target_pane_id,
                );
                exists|mid: TiledPanesView|
                    #[trigger] activated(v2, mid, target_pane_id) && final(self)@ == toggled_fullscreen(
                        mid,
                        v2.active_panes[client_id],
                        opt_updates(horizontal),
                        opt_updates(vertical),
                    )
            }),
    {
        self.unset_fullscreen(unset_horizontal, unset_vertical);
        let ghost v2 = all_focused_on(self@, target_pane_id);
        self.focus_next_pane(client_id, target_pane_id);
        let ghost mid = self@;
        proof {
            Self::lemma_activated_keeps_places(v2, mid, target_pane_id);
            assert(v2.active_panes.contains_key(client_id));
            assert(mid.active_panes == v2.active_panes);
        }
        self.toggle_active_pane_fullscreen(client_id, horizontal, vertical);
        proof {
            assert(activated(v2, mid, target_pane_id));
        }
    }

    // ----- drawing -----

    /// What is needed to draw the tiled panes: the connected clients, the
    /// pane each connected client has focused (none in a mirrored session or
    /// when floating panes are shown over the tiled ones), the panes that are
    /// not hidden, in order, whether panes draw their own frames, and each
    /// client's input mode. The plan is drawn in the steps that
    /// `RenderPlan::draw_steps` gives, stopping at the first that fails
    /// (`after_draw_step`).
    pub fn render(&self, floating_panes_are_visible: bool) -> (plan: RenderPlan)
        requires
            self.wf(),
        ensures
            plan.clients@ == self@.connected_clients,
            plan.multiple_users_exist_in_session == (self@.connected_clients_in_app.len() > 1),
            plan.session_is_mirrored == self@.session_is_mirrored,
            plan.draw_pane_frames == self@.draw_pane_frames,
            keys_distinct(plan.active_panes@),
            assoc_map(plan.active_panes@) == (if self@.session_is_mirrored || floating_panes_are_visible {
                Map::empty()
            } else {
                restricted(self@.active_panes, self@.connected_clients.to_set())
            }),
            plan.panes@ == visible_ids(self@.entries, self@.panes_to_hide),
            plan.client_modes@.len() == self@.connected_clients.len(),
            forall|a: int|
                0 <= a < self@.connected_clients.len() ==> #[trigger] plan.client_modes@[a] == (
                    self@.connected_clients[a],
                    client_mode(self@.modes, self@.connected_clients[a], self@.default_mode),
                ),
    {
        let connected_clients = self.connected_clients.clone();
        let multiple_users_exist_in_session = self.connected_clients_in_app.len() > 1;
        let mut active_panes: Vec<(ClientId, PaneId)> = Vec::new();
        if !(self.session_is_mirrored || floating_panes_are_visible) {
            let ghost src = self.active_panes@;
            let ghost clients = self.connected_clients@.to_set();
            let ghost mut picked: Seq<int> = Seq::empty();
            let mut i: usize = 0;
            while i < self.active_panes.len()
                invariant
                    src == self.active_panes@,
                    clients == self.connected_clients@.to_set(),
                    keys_distinct(src),
                    i <= src.len(),
                    picked.len() == active_panes@.len(),
                    forall|a: int| 0 <= a < picked.len() ==> 0 <= #[trigger] picked[a] < i,
                    forall|a: int, b: int| 0 <= a < b < picked.len() ==> #[trigger] picked[a] < #[trigger] picked[b],
                    forall|a: int| 0 <= a < picked.len() ==> #[trigger] active_panes@[a] == src[picked[a]],
                    forall|a: int| 0 <= a < picked.len() ==> clients.contains(#[trigger] active_panes@[a].0),
                    forall|j: int|
                        0 <= j < i && clients.contains(#[trigger] src[j].0) ==> exists|a: int|
                            0 <= a < picked.len() && #[trigger] picked[a] == j,
                decreases src.len() - i,
            {
                let (c, p) = self.active_panes[i];
                let mut found = false;
                let mut k: usize = 0;
                while k < self.connected_clients.len()
                    invariant
                        k <= self.connected_clients@.len(),
                        found == exists|x: int| 0 <= x < k && self.connected_clients@[x] == c,
                    decreases self.connected_clients@.len() - k,
                {
                    if self.connected_clients[k] == c {
                        found = true;
                    }
                    k = k + 1;
                }
                let ghost picked0 = picked;
                if found {
                    active_panes.push((c, p));
                    proof {
                        picked = picked.push(i as int);
                        assert(clients.contains(c));
                    }
                }
                proof {
                    assert forall|j: int|
                        0 <= j < i + 1 && clients.contains(#[trigger] src[j].0) implies exists|a: int|
                            0 <= a < picked.len() && #[trigger] picked[a] == j by {
                        if j == i {
                            assert(self.connected_clients@.contains(c));
                            assert(picked[picked.len() - 1] == j);
                        } else {
                            let a = choose|a: int| 0 <= a < picked0.len() && #[trigger] picked0[a] == j;
                            assert(picked[a] == j);
                        }
                    }
                }
                i = i + 1;
            }
            proof {
                let r = active_panes@;
                assert(keys_distinct(r)) by {
                    assert forall|a: int, b: int| 0 <= a < r.len() && 0 <= b < r.len() && a != b implies #[trigger] r[a].0
                        != #[trigger] r[b].0 by {
                        if a < b {
                            assert(picked[a] < picked[b]);
                        } else {
                            assert(picked[b] < picked[a]);
                        }
                    }
                }
                lemma_assoc_map(r);
                lemma_assoc_map(src);
                let target = restricted(assoc_map(src), clients);
                assert forall|c: ClientId| #[trigger] assoc_map(r).contains_key(c) == target.contains_key(c) by {
                    if assoc_map(r).contains_key(c) {
                        let a = choose|a: int| 0 <= a < r.len() && #[trigger] r[a].0 == c;
                        assert(src[picked[a]].0 == c);
                    }
                    if target.contains_key(c) {
                        let j = choose|j: int| 0 <= j < src.len() && #[trigger] src[j].0 == c;
                        let a = choose|a: int| 0 <= a < picked.len() && #[trigger] picked[a] == j;
                        assert(r[a].0 == c);
                    }
                }
                assert forall|c: ClientId| #[trigger] assoc_map(r).contains_key(c) implies assoc_map(r)[c]
                    == target[c] by {
                    let a = choose|a: int| 0 <= a < r.len() && #[trigger] r[a].0 == c;
                    assert(src[picked[a]].0 == c);
                }
                assert(assoc_map(r) =~= target);
            }
        } else {
            proof {
                lemma_assoc_empty(active_panes@);
            }
        }
        let mut panes: Vec<PaneId> = Vec::new();
        let mut i: usize = 0;
        while i < self.panes.len()
            invariant
                i <= self.panes@.len(),
                panes@ == visible_ids(self.panes@.take(i as int), self@.panes_to_hide),
            decreases self.panes@.len() - i,
        {
            let id = self.panes[i].0;
            proof {
                assert(self.panes@.take(i + 1).drop_last() == self.panes@.take(i as int));
            }
            if !self.panes_to_hide_contains(id) {
                panes.push(id);
            } else {
                proof {
                    assert(visible_ids(self.panes@.take(i + 1), self@.panes_to_hide) =~= visible_ids(
                        self.panes@.take(i as int),
                        self@.panes_to_hide,
                    ));
                }
            }
            i = i + 1;
        }
        proof {
            assert(self.panes@.take(self.panes@.len() as int) == self.panes@);
        }
        let mut client_modes: Vec<(ClientId, InputMode)> = Vec::new();
        let mut k: usize = 0;
        while k < connected_clients.len()
            invariant
                connected_clients@ == self@.connected_clients,
                k <= connected_clients@.len(),
                client_modes@.len() == k,
                forall|a: int|
                    0 <= a < k ==> #[trigger] client_modes@[a] == (connected_clients@[a], client_mode(
                        self@.modes,
                        connected_clients@[a],
                        self@.default_mode,
                    )),
            decreases connected_clients@.len() - k,
        {
            let c = connected_clients[k];
            client_modes.push((c, self.mode_of(c)));
            k = k + 1;
        }
        RenderPlan {
            clients: connected_clients,
            active_panes,
            panes,
            draw_pane_frames: self.draw_pane_frames,
            multiple_users_exist_in_session,
            client_modes,
            session_is_mirrored: self.session_is_mirrored,
        }
    }
}

// ----- drawing the plan -----

/// One step of drawing the tiled panes for the connected clients.
#[derive(Clone, Copy, Debug, PartialEq, Eq, Structural)]
pub enum DrawStep {
    /// Draw a plugin pane's contents for one client.
    PaneContentsForClient(PaneId, ClientId),
    /// Draw a pane's frame for one client, in that client's input mode.
    PaneFrame(PaneId, ClientId, InputMode),
    /// Add a pane's edges to the boundaries one client sees, in that
    /// client's input mode; this step does not fail.
    PaneBoundaries(PaneId, ClientId, InputMode),
    /// Set one client's terminal title if the pane asks for it; this step
    /// does not fail.
    TerminalTitle(PaneId, ClientId, InputMode),
    /// Draw a cursor for one client in a pane that shows none for it.
    FakeCursor(PaneId, ClientId),
    /// Draw a terminal pane's contents for every client.
    PaneContents(PaneId),
    /// Draw the boundaries one client sees.
    Boundaries(ClientId),
}

/// The steps that draw pane `p` for client `c`: a plugin's contents, its
/// frame (or its edges among the boundaries), the terminal title and a
/// cursor where the pane shows none.
pub open spec fn client_steps(p: PaneId, c: ClientId, mode: InputMode, frames: bool) -> Seq<DrawStep> {
    (if p is Plugin {
        seq![DrawStep::PaneContentsForClient(p, c)]
    } else {
        seq![]
    }) + seq![
        if frames {
            DrawStep::PaneFrame(p, c, mode)
        } else {
            DrawStep::PaneBoundaries(p, c, mode)
        },
        DrawStep::TerminalTitle(p, c, mode),
        DrawStep::FakeCursor(p, c),
    ]
}

/// The steps that draw pane `p` for each client in turn.
pub open spec fn clients_steps(p: PaneId, modes: Seq<(ClientId, InputMode)>, frames: bool) -> Seq<DrawStep>
    decreases modes.len(),
{
    if modes.len() == 0 {
        seq![]
    } else {
        clients_steps(p, modes.drop_last(), frames) + client_steps(p, modes.last().0, modes.last().1, frames)
    }
}

/// The steps that draw pane `p`: for each client, then a terminal's
/// contents for all of them.
pub open spec fn pane_steps(p: PaneId, modes: Seq<(ClientId, InputMode)>, frames: bool) -> Seq<DrawStep> {
    clients_steps(p, modes, frames) + if p is Terminal {
        seq![DrawStep::PaneContents(p)]
    } else {
        seq![]
    }
}

/// The steps that draw the panes in turn.
pub open spec fn panes_steps(panes: Seq<PaneId>, modes: Seq<(ClientId, InputMode)>, frames: bool) -> Seq<
    DrawStep,
>
    decreases panes.len(),
{
    if panes.len() == 0 {
        seq![]
    } else {
        panes_steps(panes.drop_last(), modes, frames) + pane_steps(panes.last(), modes, frames)
    }
}

/// The steps that draw the boundaries each client sees.
pub open spec fn boundary_steps(modes: Seq<(ClientId, InputMode)>) -> Seq<DrawStep>
    decreases modes.len(),
{
    if modes.len() == 0 {
        seq![]
    } else {
        boundary_steps(modes.drop_last()) + seq![DrawStep::Boundaries(modes.last().0)]
    }
}

/// Every step of drawing the panes, in order: each pane in turn, then,
/// where the tab draws the boundaries between panes and there is a pane to
/// draw, the boundaries of each client.
pub open spec fn plan_steps(panes: Seq<PaneId>, modes: Seq<(ClientId, InputMode)>, frames: bool) -> Seq<
    DrawStep,
> {
    panes_steps(panes, modes, frames) + if !frames && panes.len() > 0 {
        boundary_steps(modes)
    } else {
        seq![]
    }
}

/// What stopped the drawing: what was being drawn, and what failed.
#[derive(Clone, Debug)]
pub struct DrawError {
    pub context: String,
    pub cause: String,
}

/// What a failed step was drawing.
pub open spec fn step_context(step: DrawStep) -> Seq<char> {
    match step {
        DrawStep::PaneContents(_) => "failed to render tiled panes"@,
        DrawStep::Boundaries(_) => "failed to render tiled panes"@,
        DrawStep::PaneContentsForClient(_, c) => "failed to render tiled panes for client "@ + decimal(c as nat),
        DrawStep::PaneFrame(_, c, _) => "failed to render tiled panes for client "@ + decimal(c as nat),
        DrawStep::PaneBoundaries(_, c, _) => "failed to render tiled panes for client "@ + decimal(c as nat),
        DrawStep::TerminalTitle(_, c, _) => "failed to render tiled panes for client "@ + decimal(c as nat),
        DrawStep::FakeCursor(_, c) => "failed to render tiled panes for client "@ + decimal(c as nat),
    }
}

/// Collects characters into a string (`String`'s `FromIterator<char>`).
/// Claims that the string holds the characters in order.
#[verifier::external_body]
fn string_of(chars: &Vec<char>) -> (r: String)
    ensures
        r@ == chars@,
{
    chars.iter().collect()
}

/// What follows a drawing step: go on if it succeeded; else stop the
/// drawing at once with an error that names what was being drawn.
pub fn after_draw_step(step: &DrawStep, result: Result<(), String>) -> (r: Result<(), DrawError>)
    ensures
        match result {
            Ok(()) => r is Ok,
            Err(e) => r matches Err(d) && d.cause@ == e@ && d.context@ == step_context(*step),
        },
{
    match result {
        Ok(()) => Ok(()),
        Err(cause) => {
            let context = match *step {
                DrawStep::PaneContents(_) => String::from_str("failed to render tiled panes"),
                DrawStep::Boundaries(_) => String::from_str("failed to render tiled panes"),
                DrawStep::PaneContentsForClient(_, c) => client_context(c),
                DrawStep::PaneFrame(_, c, _) => client_context(c),
                DrawStep::PaneBoundaries(_, c, _) => client_context(c),
                DrawStep::TerminalTitle(_, c, _) => client_context(c),
                DrawStep::FakeCursor(_, c) => client_context(c),
            };
            Err(DrawError { context, cause })
        },
    }
}

fn client_context(c: ClientId) -> (r: String)
    ensures
        r@ == "failed to render tiled panes for client "@ + decimal(c as nat),
{
    proof {
        lemma_decimal_u64(c as nat);
    }
    let mut r = String::from_str("failed to render tiled panes for client ");
    r.append(string_of(&decimal_chars(c as u64)).as_str());
    r
}

/// Appends the steps that draw pane `p` for client `c`.
fn push_client_steps(out: &mut Vec<DrawStep>, p: PaneId, c: ClientId, mode: InputMode, frames: bool)
    ensures
        final(out)@ == old(out)@ + client_steps(p, c, mode, frames),
{
    let ghost start = out@;
    if let PaneId::Plugin(_) = p {
        out.push(DrawStep::PaneContentsForClient(p, c));
    }
    if frames {
        out.push(DrawStep::PaneFrame(p, c, mode));
    } else {
        out.push(DrawStep::PaneBoundaries(p, c, mode));
    }
    out.push(DrawStep::TerminalTitle(p, c, mode));
    out.push(DrawStep::FakeCursor(p, c));
    proof {
        assert(out@ =~= start + client_steps(p, c, mode, frames));
    }
}

/// Appends the steps that draw pane `p`.
fn push_pane_steps(out: &mut Vec<DrawStep>, p: PaneId, modes: &Vec<(ClientId, InputMode)>, frames: bool)
    ensures
        final(out)@ == old(out)@ + pane_steps(p, modes@, frames),
{
    let ghost start = out@;
    let mut i: usize = 0;
    proof {
        assert(modes@.take(0) =~= Seq::<(ClientId, InputMode)>::empty());
        assert(start + clients_steps(p, modes@.take(0), frames) =~= start);
    }
    while i < modes.len()
        invariant
            i <= modes@.len(),
            out@ == start + clients_steps(p, modes@.take(i as int), frames),
        decreases modes@.len() - i,
    {
        let (c, mode) = modes[i];
        let ghost before = out@;
        push_client_steps(out, p, c, mode, frames);
        proof {
            let t = modes@.take(i + 1);
            assert(t.drop_last() =~= modes@.take(i as int));
            assert(t.last() == (c, mode));
            assert(out@ =~= start + clients_steps(p, t, frames));
        }
        i = i + 1;
    }
    proof {
        assert(modes@.take(modes@.len() as int) =~= modes@);
    }
    if let PaneId::Terminal(_) = p {
        out.push(DrawStep::PaneContents(p));
    }
    proof {
        assert(out@ =~= start + pane_steps(p, modes@, frames));
    }
}

impl RenderPlan {
    /// Every step of drawing the plan, in order (see `plan_steps`); the
    /// drawing stops at the first step that fails (see `after_draw_step`).
    pub fn draw_steps(&self) -> (r: Vec<DrawStep>)
        ensures
            r@ == plan_steps(self.panes@, self.client_modes@, self.draw_pane_frames),
    {
        let mut out: Vec<DrawStep> = Vec::new();
        let mut i: usize = 0;
        proof {
            assert(self.panes@.take(0) =~= Seq::<PaneId>::empty());
        }
        while i < self.panes.len()
            invariant
                i <= self.panes@.len(),
                out@ == panes_steps(self.panes@.take(i as int), self.client_modes@, self.draw_pane_frames),
            decreases self.panes@.len() - i,
        {
            let p = self.panes[i];
            push_pane_steps(&mut out, p, &self.client_modes, self.draw_pane_frames);
            proof {
                let t = self.panes@.take(i + 1);
                assert(t.drop_last() =~= self.panes@.take(i as int));
                assert(t.last() == p);
            }
            i = i + 1;
        }
        proof {
            assert(self.panes@.take(self.panes@.len() as int) =~= self.panes@);
        }
        if !self.draw_pane_frames && self.panes.len() > 0 {
            let ghost start = out@;
            let mut k: usize = 0;
            proof {
                assert(self.client_modes@.take(0) =~= Seq::<(ClientId, InputMode)>::empty());
                assert(start + boundary_steps(self.client_modes@.take(0)) =~= start);
            }
            while k < self.client_modes.len()
                invariant
                    k <= self.client_modes@.len(),
                    out@ == start + boundary_steps(self.client_modes@.take(k as int)),
                decreases self.client_modes@.len() - k,
            {
                let (c, _) = self.client_modes[k];
                out.push(DrawStep::Boundaries(c));
                proof {
                    let t = self.client_modes@.take(k + 1);
                    assert(t.drop_last() =~= self.client_modes@.take(k as int));
                    assert(out@ =~= start + boundary_steps(t));
                }
                k = k + 1;
            }
            proof {
                assert(self.client_modes@.take(self.client_modes@.len() as int) =~= self.client_modes@);
            }
        } else {
            proof {
                assert(out@ + Seq::<DrawStep>::empty() =~= out@);
            }
        }
        out
    }
}

} // verus!
