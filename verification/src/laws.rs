//! Properties of the library that span its operations: what a change
//! leaves behind, what a second change undoes, and what stays unchanged.

use vstd::prelude::*;
use crate::geom::{Offset, Size, Viewport};
use crate::frame::{
    bottom_row, can_render, first_held_part, inner_width, middle_start, right_start, sat_sub, title_left_side,
    title_middle, title_right_side, title_row, frame_chunks, held_undertitle, lemma_seg_at, row_chunks, row_from, second_held_part,
    seg_at, ExitStatus, PaneFrame, TerminalCharacter, decimal, fg,
};
use crate::setup::{
    chosen_layout, chosen_layout_dir, config_dir_section, config_file_section, debug_str, defaults_report,
    joined, opt_str, path_debug_str, CheckEnvironment, CliArgs, Options, CONFIG_NAME,
};
use crate::pane::{current_geom_of, pane_id_rank, ClientId, Pane, PaneId};
use crate::tiled_panes::{
    after_unset, first_refuge, focus_out_of_pane, focused_all, focused_on, framed_entries,
    forced_entries, framed_pane, fullscreened_pane, hidden_for_fullscreen, moved_clients, reframed, resized,
    resized_horizontally, resized_vertically, unfullscreened_pane, ranks_increasing, rounded_ratio, swapped, toggled_fullscreen, visible_ids,
    GeomUpdate, TiledPanesView,
};

verus! {

// ----- focus -----

/// After a client focuses a pane, that pane is the one it has focused; in
/// a mirrored session every connected client has it focused.
pub proof fn law_focus_read_back(v: TiledPanesView, pane_id: PaneId, client_id: ClientId)
    ensures
        focused_on(v, pane_id, client_id).active_panes.contains_key(client_id),
        focused_on(v, pane_id, client_id).active_panes[client_id] == pane_id,
        v.session_is_mirrored ==> forall|c: ClientId|
            #[trigger] v.connected_clients.contains(c) ==> focused_on(v, pane_id, client_id).active_panes.contains_key(c)
                && focused_on(v, pane_id, client_id).active_panes[c] == pane_id,
{
    if v.session_is_mirrored {
        let m = v.active_panes.insert(client_id, pane_id);
        let clients = v.connected_clients.to_set();
        assert forall|c: ClientId| #[trigger] v.connected_clients.contains(c) implies focused_all(
            m,
            clients,
            pane_id,
        ).contains_key(c) && focused_all(m, clients, pane_id)[c] == pane_id by {
            assert(clients.contains(c));
        }
    }
}

/// The first pane that can take the clients of `pane_id` is a pane of the
/// list, is not hidden, is not `pane_id` and can be selected.
proof fn lemma_first_refuge(s: Seq<(PaneId, Pane)>, hidden: Set<PaneId>, pane_id: PaneId)
    ensures
        first_refuge(s, hidden, pane_id) matches Some(n) ==> {
            &&& n != pane_id
            &&& !hidden.contains(n)
            &&& exists|i: int| 0 <= i < s.len() && #[trigger] s[i].0 == n && s[i].1.selectable
        },
    decreases s.len(),
{
    if s.len() > 0 && !(!hidden.contains(s[0].0) && s[0].0 != pane_id && s[0].1.selectable) {
        lemma_first_refuge(s.drop_first(), hidden, pane_id);
        if first_refuge(s, hidden, pane_id) is Some {
            let n = first_refuge(s, hidden, pane_id).unwrap();
            let i = choose|i: int| 0 <= i < s.drop_first().len() && #[trigger] s.drop_first()[i].0 == n
                && s.drop_first()[i].1.selectable;
            assert(s[i + 1] == s.drop_first()[i]);
        }
    } else if s.len() > 0 {
        assert(s[0].0 == s[0].0);
    }
}

/// When the clients are moved out of a pane, no client is left focused on
/// it: the clients it had go to one pane that is not hidden and can be
/// selected, and the other clients keep their panes; if no pane can take
/// them, every client is unfocused.
pub proof fn law_clients_leave_pane(v: TiledPanesView, pane_id: PaneId)
    ensures
        forall|c: ClientId| #[trigger] focus_out_of_pane(v, pane_id).contains_key(c) ==> focus_out_of_pane(
            v,
            pane_id,
        )[c] != pane_id,
        first_refuge(v.entries, v.panes_to_hide, pane_id) matches Some(n) ==> {
            &&& !v.panes_to_hide.contains(n)
            &&& exists|i: int| 0 <= i < v.entries.len() && #[trigger] v.entries[i].0 == n && v.entries[i].1.selectable
            &&& forall|c: ClientId| #[trigger] v.active_panes.contains_key(c) ==> {
                &&& focus_out_of_pane(v, pane_id).contains_key(c)
                &&& focus_out_of_pane(v, pane_id)[c] == if v.active_panes[c] == pane_id {
                    n
                } else {
                    v.active_panes[c]
                }
            }
        },
        first_refuge(v.entries, v.panes_to_hide, pane_id) is None ==> focus_out_of_pane(v, pane_id).is_empty(),
{
    lemma_first_refuge(v.entries, v.panes_to_hide, pane_id);
    match first_refuge(v.entries, v.panes_to_hide, pane_id) {
        Some(n) => {
            assert forall|c: ClientId| #[trigger] focus_out_of_pane(v, pane_id).contains_key(c) implies focus_out_of_pane(
                v,
                pane_id,
            )[c] != pane_id by {
                assert(moved_clients(v.active_panes, pane_id, n).contains_key(c));
            }
        },
        None => {},
    }
}

/// The pane that takes the clients of a closing pane is, of the panes that
/// are not hidden, are not the closing pane and can be selected, the first
/// in id order; there is none only if no pane is such.
pub proof fn law_refuge_is_least(s: Seq<(PaneId, Pane)>, hidden: Set<PaneId>, pane_id: PaneId)
    requires
        ranks_increasing(s),
    ensures
        first_refuge(s, hidden, pane_id) matches Some(n) ==> forall|i: int|
            0 <= i < s.len() && !hidden.contains(#[trigger] s[i].0) && s[i].0 != pane_id && s[i].1.selectable
                ==> pane_id_rank(n) <= pane_id_rank(s[i].0),
        first_refuge(s, hidden, pane_id) is None ==> forall|i: int|
            0 <= i < s.len() ==> !(!hidden.contains(#[trigger] s[i].0) && s[i].0 != pane_id && s[i].1.selectable),
    decreases s.len(),
{
    if s.len() > 0 {
        let t = s.drop_first();
        assert(ranks_increasing(t)) by {
            assert forall|i: int, j: int| 0 <= i < j < t.len() implies pane_id_rank(#[trigger] t[i].0) < pane_id_rank(
                #[trigger] t[j].0,
            ) by {
                assert(t[i] == s[i + 1] && t[j] == s[j + 1]);
            }
        }
        law_refuge_is_least(t, hidden, pane_id);
        if !(!hidden.contains(s[0].0) && s[0].0 != pane_id && s[0].1.selectable) {
            assert forall|i: int| 0 < i < s.len() implies s[i] == t[i - 1] by {}
        } else {
            assert forall|i: int| 0 <= i < s.len() implies pane_id_rank(s[0].0) <= pane_id_rank(#[trigger] s[i].0) by {
                if i > 0 {
                    assert(pane_id_rank(s[0].0) < pane_id_rank(s[i].0));
                }
            }
        }
    }
}

// ----- panes changing places -----

/// When two panes change places, each takes the other's position and size,
/// no other pane changes, and changing them back puts every pane where it
/// was.
pub proof fn law_swap_exchanges_places(m: Map<PaneId, Pane>, current: PaneId, next: PaneId)
    requires
        m.contains_key(current),
        m.contains_key(next),
    ensures
        swapped(m, current, next).dom() == m.dom(),
        swapped(m, current, next)[current].position_and_size == m[next].position_and_size,
        swapped(m, current, next)[next].position_and_size == m[current].position_and_size,
        forall|k: PaneId|
            #[trigger] m.contains_key(k) && k != current && k != next ==> swapped(m, current, next)[k] == m[k],
        forall|k: PaneId|
            #[trigger] m.contains_key(k) ==> swapped(swapped(m, current, next), next, current)[k].position_and_size
                == m[k].position_and_size,
{
    let m2 = swapped(m, current, next);
    assert(m2.dom() =~= m.dom());
    let m3 = swapped(m2, next, current);
    assert(m3.dom() =~= m.dom());
}

// ----- frames -----

/// Setting the pane frames again to the same setting leaves every pane as
/// the first time left it.
pub proof fn law_set_pane_frames_idempotent(s: Seq<(PaneId, Pane)>, draw_pane_frames: bool, viewport: Viewport)
    ensures
        framed_entries(framed_entries(s, draw_pane_frames, viewport), draw_pane_frames, viewport)
            == framed_entries(s, draw_pane_frames, viewport),
{
    let once = framed_entries(s, draw_pane_frames, viewport);
    let twice = framed_entries(once, draw_pane_frames, viewport);
    assert forall|i: int| 0 <= i < s.len() implies #[trigger] twice[i] == once[i] by {
        let p = s[i].1;
        let q = framed_pane(p, draw_pane_frames, viewport);
        assert(once[i] == (s[i].0, q));
        assert(framed_pane(q, draw_pane_frames, viewport) == q);
    }
    assert(twice =~= once);
}

// ----- fullscreen and hidden panes -----

/// Unsetting the fullscreen pane leaves no pane fullscreen and none
/// hidden.
pub proof fn law_unset_fullscreen_shows_all(
    v: TiledPanesView,
    horizontal: Option<Seq<GeomUpdate>>,
    vertical: Option<Seq<GeomUpdate>>,
)
    requires
        v.fullscreen_is_active,
    ensures
        !after_unset(v, horizontal, vertical).fullscreen_is_active,
        after_unset(v, horizontal, vertical).panes_to_hide.is_empty(),
{
}

/// Toggling fullscreen again after it made a pane fullscreen leaves no pane
/// fullscreen and none hidden.
pub proof fn law_toggle_twice_shows_all(
    v: TiledPanesView,
    active: PaneId,
    again: PaneId,
    horizontal: Option<Seq<GeomUpdate>>,
    vertical: Option<Seq<GeomUpdate>>,
    horizontal_again: Option<Seq<GeomUpdate>>,
    vertical_again: Option<Seq<GeomUpdate>>,
)
    requires
        toggled_fullscreen(v, active, horizontal, vertical).fullscreen_is_active,
    ensures
        !toggled_fullscreen(
            toggled_fullscreen(v, active, horizontal, vertical),
            again,
            horizontal_again,
            vertical_again,
        ).fullscreen_is_active,
        toggled_fullscreen(
            toggled_fullscreen(v, active, horizontal, vertical),
            again,
            horizontal_again,
            vertical_again,
        ).panes_to_hide.is_empty(),
{
}

/// Laying the panes out again for a new size keeps the panes' ids, the
/// focus and the connected clients.
proof fn lemma_resized_keeps(
    v: TiledPanesView,
    size: Size,
    horizontal: Option<Seq<GeomUpdate>>,
    vertical: Option<Seq<GeomUpdate>>,
)
    ensures
        resized(v, size, horizontal, vertical).pane_ids() == v.pane_ids(),
        resized(v, size, horizontal, vertical).active_panes == v.active_panes,
        resized(v, size, horizontal, vertical).connected_clients == v.connected_clients,
{
    let a = resized_horizontally(v, size.cols, horizontal);
    assert(a.pane_ids() =~= v.pane_ids());
    let b = resized_vertically(a, size.rows, vertical);
    assert(b.pane_ids() =~= a.pane_ids());
    assert(reframed(b).pane_ids() =~= b.pane_ids());
}

/// Toggling fullscreen again after it made a pane fullscreen keeps every
/// pane, and leaves every connected client focused on that pane.
pub proof fn law_toggle_twice_keeps_panes_and_focus(
    v: TiledPanesView,
    active: PaneId,
    again: PaneId,
    horizontal: Option<Seq<GeomUpdate>>,
    vertical: Option<Seq<GeomUpdate>>,
    horizontal_again: Option<Seq<GeomUpdate>>,
    vertical_again: Option<Seq<GeomUpdate>>,
)
    requires
        toggled_fullscreen(v, active, horizontal, vertical).fullscreen_is_active,
    ensures
        toggled_fullscreen(
            toggled_fullscreen(v, active, horizontal, vertical),
            again,
            horizontal_again,
            vertical_again,
        ).pane_ids() == v.pane_ids(),
        forall|c: ClientId|
            #[trigger] v.connected_clients.contains(c) ==> toggled_fullscreen(
                toggled_fullscreen(v, active, horizontal, vertical),
                again,
                horizontal_again,
                vertical_again,
            ).active_panes.contains_key(c) && toggled_fullscreen(
                toggled_fullscreen(v, active, horizontal, vertical),
                again,
                horizontal_again,
                vertical_again,
            ).active_panes[c] == active,
{
    let hidden = hidden_for_fullscreen(v, active);
    let w = TiledPanesView {
        entries: forced_entries(
            v.entries.map_values(|e: (PaneId, Pane)| (e.0, fullscreened_pane(e.1, e.0, v.viewport, active))),
        ),
        panes_to_hide: hidden,
        active_panes: focused_all(v.active_panes, v.connected_clients.to_set(), active),
        ..v
    };
    assert(w.pane_ids() =~= v.pane_ids());
    lemma_resized_keeps(w, v.display_area, horizontal, vertical);
    let first = toggled_fullscreen(v, active, horizontal, vertical);
    assert(first == TiledPanesView {
        fullscreen_is_active: true,
        ..resized(w, v.display_area, horizontal, vertical)
    });
    let a2 = first.active_panes[first.connected_clients[0]];
    let w2 = TiledPanesView {
        entries: first.entries.map_values(
            |e: (PaneId, Pane)| (e.0, unfullscreened_pane(e.1, e.0, first.viewport, a2)),
        ),
        panes_to_hide: Set::empty(),
        ..first
    };
    assert(w2.pane_ids() =~= first.pane_ids());
    lemma_resized_keeps(w2, first.display_area, horizontal_again, vertical_again);
    assert forall|c: ClientId| #[trigger] v.connected_clients.contains(c) implies first.active_panes.contains_key(c)
        && first.active_panes[c] == active by {
        assert(v.connected_clients.to_set().contains(c));
    }
}

/// A pane that was hidden is hidden, a pane shown again is not, and no
/// other pane changes; hiding a pane that was not hidden and showing it
/// again leaves the hidden panes as they were.
pub proof fn law_hidden_read_back(hidden: Set<PaneId>, pid: PaneId, other: PaneId)
    ensures
        hidden.insert(pid).contains(pid),
        !hidden.remove(pid).contains(pid),
        other != pid ==> hidden.insert(pid).contains(other) == hidden.contains(other),
        other != pid ==> hidden.remove(pid).contains(other) == hidden.contains(other),
        !hidden.contains(pid) ==> hidden.insert(pid).remove(pid) == hidden,
{
    if !hidden.contains(pid) {
        assert(hidden.insert(pid).remove(pid) =~= hidden);
    }
}

/// The panes drawn are exactly the panes that are not hidden.
pub proof fn law_render_shows_unhidden(s: Seq<(PaneId, Pane)>, hidden: Set<PaneId>, id: PaneId)
    ensures
        visible_ids(s, hidden).contains(id) <==> !hidden.contains(id) && exists|i: int|
            0 <= i < s.len() && #[trigger] s[i].0 == id,
    decreases s.len(),
{
    if s.len() > 0 {
        let t = s.drop_last();
        law_render_shows_unhidden(t, hidden, id);
        let tail = if hidden.contains(s.last().0) {
            seq![]
        } else {
            seq![s.last().0]
        };
        assert(visible_ids(s, hidden) == visible_ids(t, hidden) + tail);
        if visible_ids(s, hidden).contains(id) {
            let k = choose|k: int| 0 <= k < visible_ids(s, hidden).len() && visible_ids(s, hidden)[k] == id;
            if k < visible_ids(t, hidden).len() {
                assert(visible_ids(t, hidden)[k] == id);
                let i = choose|i: int| 0 <= i < t.len() && #[trigger] t[i].0 == id;
                assert(s[i] == t[i]);
            } else {
                assert(s[s.len() - 1].0 == id);
            }
        }
        if !hidden.contains(id) && exists|i: int| 0 <= i < s.len() && #[trigger] s[i].0 == id {
            let i = choose|i: int| 0 <= i < s.len() && #[trigger] s[i].0 == id;
            if i < s.len() - 1 {
                assert(t[i] == s[i]);
                let k = choose|k: int| 0 <= k < visible_ids(t, hidden).len() && visible_ids(t, hidden)[k] == id;
                assert(visible_ids(s, hidden)[k] == id);
            } else {
                assert(visible_ids(s, hidden)[visible_ids(t, hidden).len() as int] == id);
            }
        }
    }
}

// ----- the cursor's ratio -----

/// The height-to-width ratio of a character cell is rounded to the nearest
/// integer, halves up.
pub proof fn law_ratio_is_nearest(height: usize, width: usize)
    requires
        width > 0,
    ensures
        2 * width * rounded_ratio(height, width) <= 2 * height + width,
        2 * height + width < 2 * width * (rounded_ratio(height, width) + 1),
{
    let h = height as int;
    let w = width as int;
    let q = (2 * h + w) / (2 * w);
    assert(2 * w * q <= 2 * h + w && 2 * h + w < 2 * w * (q + 1)) by (nonlinear_arith)
        requires
            w > 0,
            h >= 0,
            q == (2 * h + w) / (2 * w),
    ;
    assert(0 <= q <= h) by (nonlinear_arith)
        requires
            w > 0,
            h >= 0,
            2 * w * q <= 2 * h + w,
            2 * h + w < 2 * w * (q + 1),
    ;
    assert(rounded_ratio(height, width) == q);
}

// ----- the frame -----

/// A title row that can be drawn spans the frame from the column it starts
/// at: it has as many cells as there are columns up to the right corner,
/// where each part has as many cells as the columns it takes.
pub proof fn law_title_row_spans_frame(
    f: PaneFrame,
    segs: Seq<(int, Seq<TerminalCharacter>, int)>,
    col: int,
)
    requires
        forall|k: int| 0 <= k < segs.len() ==> (#[trigger] segs[k]).1.len() == segs[k].2,
        row_from(f, segs, col) is Some,
    ensures
        row_from(f, segs, col).unwrap().len() == f.geom.x + f.geom.cols - col,
    decreases f.geom.x + f.geom.cols - col,
{
    let last = f.geom.x + f.geom.cols - 1;
    if col == f.geom.x {
        if col != last {
            law_title_row_spans_frame(f, segs, col + 1);
        }
    } else if col != last {
        lemma_seg_at(segs, col, 0);
        match seg_at(segs, col, 0) {
            Some(k) => {
                law_title_row_spans_frame(f, segs, col + segs[k as int].2);
            },
            None => {
                law_title_row_spans_frame(f, segs, col + 1);
            },
        }
    }
}

/// The title row drawn from `col` reaches the right corner wherever every
/// part that starts between the corners takes at least one column and
/// ends at the right corner at the latest.
pub proof fn lemma_row_from_exists(f: PaneFrame, segs: Seq<(int, Seq<TerminalCharacter>, int)>, col: int)
    requires
        f.geom.x <= col <= f.geom.x + f.geom.cols - 1,
        forall|k: int|
            0 <= k < segs.len() && f.geom.x < #[trigger] segs[k].0 < f.geom.x + f.geom.cols - 1 ==> 1 <= segs[k].2
                && segs[k].0 + segs[k].2 <= f.geom.x + f.geom.cols - 1,
    ensures
        row_from(f, segs, col) is Some,
    decreases f.geom.x + f.geom.cols - col,
{
    let last = f.geom.x + f.geom.cols - 1;
    if col == f.geom.x {
        if col != last {
            lemma_row_from_exists(f, segs, col + 1);
        }
    } else if col != last {
        lemma_seg_at(segs, col, 0);
        match seg_at(segs, col, 0) {
            Some(k) => {
                lemma_row_from_exists(f, segs, col + segs[k as int].2);
            },
            None => {
                lemma_row_from_exists(f, segs, col + 1);
            },
        }
    }
}

/// A middle part of the title row takes at least one column and fits in
/// the columns it was given.
proof fn lemma_title_middle_fits(f: PaneFrame, max_length: nat)
    ensures
        title_middle(f, max_length) matches Some((m, ml)) ==> 1 <= ml <= max_length,
{
}

/// The frame's title row can be drawn whenever the frame's columns are
/// numbered within `usize` and the title, wherever it is shown, takes at
/// least one column and no more than it is given.
pub proof fn lemma_title_row_exists(f: PaneFrame)
    requires
        f.geom.x + f.geom.cols <= usize::MAX,
        forall|side: nat|
            #[trigger] title_left_side(f, side) matches Some((l, ll)) ==> 1 <= ll <= side,
    ensures
        title_row(f) is Some,
{
    let inner = inner_width(f);
    lemma_title_middle_fits(f, inner);
    match title_middle(f, inner) {
        Some((m, ml)) => {
            let x = f.geom.x as int;
            let last = f.geom.x + f.geom.cols - 1;
            let side = sat_sub(inner as int, ml + 2int) / 2;
            let ms = middle_start(f, ml);
            assert(ms + ml <= last) by (nonlinear_arith)
                requires
                    ms == x + inner / 2 - ml / 2 + 1,
                    last == x + inner + 1,
                    ml <= inner,
            ;
            assert(side <= inner);
            match title_left_side(f, side) {
                Some((l, ll)) => {
                    assert(1 <= ll <= side);
                    match title_right_side(f, side) {
                        Some((r, rl)) => {
                            let segs = seq![
                                (x + 1, l, ll as int),
                                (ms, m, ml as int),
                                (right_start(f, rl), r, rl as int),
                            ];
                            assert forall|k: int|
                                0 <= k < segs.len() && x < #[trigger] segs[k].0 < last implies 1 <= segs[k].2
                                && segs[k].0 + segs[k].2 <= last by {
                                if k == 0 {
                                } else if k == 1 {
                                } else {
                                    assert(segs[k] == (right_start(f, rl), r, rl as int));
                                }
                            }
                            lemma_row_from_exists(f, segs, x);
                        },
                        None => {
                            let segs = seq![(x + 1, l, ll as int), (ms, m, ml as int)];
                            assert forall|k: int|
                                0 <= k < segs.len() && x < #[trigger] segs[k].0 < last implies 1 <= segs[k].2
                                && segs[k].0 + segs[k].2 <= last by {
                                if k == 0 {
                                } else {
                                }
                            }
                            lemma_row_from_exists(f, segs, x);
                        },
                    }
                },
                None => {
                    let segs = seq![(ms, m, ml as int)];
                    assert forall|k: int|
                        0 <= k < segs.len() && x < #[trigger] segs[k].0 < last implies 1 <= segs[k].2 && segs[k].0
                        + segs[k].2 <= last by {}
                    lemma_row_from_exists(f, segs, x);
                },
            }
        },
        None => {},
    }
}

/// A frame can be drawn whenever its columns and rows are numbered within
/// `usize` and its title, wherever it is shown, takes at least one column
/// and no more than it is given.
pub proof fn lemma_can_render(f: PaneFrame)
    requires
        f.geom.x + f.geom.cols <= usize::MAX,
        f.geom.y + f.geom.rows <= usize::MAX + 1,
        forall|side: nat|
            #[trigger] title_left_side(f, side) matches Some((l, ll)) ==> 1 <= ll <= side,
    ensures
        can_render(f),
{
    lemma_title_row_exists(f);
}

/// The bottom row of a frame spans it: as many cells as the frame has
/// columns, whether it shows the exit status of a held command or not.
pub proof fn law_bottom_row_spans_frame(f: PaneFrame, title: Seq<TerminalCharacter>)
    requires
        f.geom.rows >= 2,
        f.geom.cols >= 2,
    ensures
        row_chunks(f, title, f.geom.rows - 1).len() == 1,
        row_chunks(f, title, f.geom.rows - 1)[0].0.len() == f.geom.cols,
{
    reveal_strlit(" [ ");
    reveal_strlit("EXIT CODE: ");
    reveal_strlit(" ] ");
    reveal_strlit("EXITED");
    reveal_strlit("<");
    reveal_strlit("ENTER");
    reveal_strlit(">");
    reveal_strlit(" to re-run, ");
    reveal_strlit("Ctrl-c");
    reveal_strlit(" to exit ");
    match f.exit_status {
        Some(es) => {
            assert(first_held_part(f, es).0.len() == first_held_part(f, es).1);
            assert(second_held_part(f).0.len() == second_held_part(f).1);
            assert(held_undertitle(f, es).len() == f.geom.cols);
        },
        None => {
            assert(bottom_row(f).len() == f.geom.cols);
        },
    }
}

/// A frame is drawn as one chunk for its title row, two for each row
/// between (one at each side) and one for its bottom row.
pub proof fn law_frame_chunk_count(f: PaneFrame, title: Seq<TerminalCharacter>, n: nat)
    requires
        n <= f.geom.rows,
    ensures
        frame_chunks(f, title, n).len() == if n == 0 {
            0
        } else if n < f.geom.rows {
            2 * n - 1
        } else if n == 1 {
            1
        } else {
            2 * n - 2
        },
    decreases n,
{
    if n > 0 {
        law_frame_chunk_count(f, title, (n - 1) as nat);
    }
}

// ----- setup -----

/// The command line's layout directory wins over the configuration's,
/// which wins over the one inside the configuration directory; the layout
/// given on the command line wins over the options' default layouts.
pub proof fn law_layout_precedence(
    cli_config_options: Option<Options>,
    config_options: Options,
    cli_args: CliArgs,
    found: Option<Seq<char>>,
)
    ensures
        match cli_config_options {
            Some(o) => o.layout_dir is Some ==> chosen_layout_dir(cli_config_options, config_options, cli_args, found)
                == opt_str(o.layout_dir),
            None => true,
        },
        (cli_config_options matches Some(o) ==> o.layout_dir is None) && config_options.layout_dir is Some
            ==> chosen_layout_dir(cli_config_options, config_options, cli_args, found) == opt_str(
            config_options.layout_dir,
        ),
        cli_args.layout is Some ==> chosen_layout(cli_config_options, config_options, cli_args) == opt_str(
            cli_args.layout,
        ),
        match cli_config_options {
            Some(o) => cli_args.layout is None && o.default_layout is Some ==> chosen_layout(
                cli_config_options,
                config_options,
                cli_args,
            ) == opt_str(o.default_layout),
            None => true,
        },
{
}

/// A relative part appended to a path comes after the whole path.
pub proof fn law_join_appends(base: Seq<char>, part: Seq<char>)
    requires
        part.len() == 0 || part[0] != '/',
    ensures
        joined(base, part).take(base.len() as int) == base,
        joined(base, part).skip(joined(base, part).len() - part.len()) == part,
{
    let j = joined(base, part);
    assert(j.take(base.len() as int) =~= base);
    assert(j.skip(j.len() - part.len()) =~= part);
}

// ----- what the operations are for -----

/// Making a pane fullscreen hides only the other panes whose rows lie
/// within the viewport, and all of them: a pane outside the viewport (such
/// as a bar above or below it) stays shown.
pub proof fn law_fullscreen_hides_only_panes_in_viewport(
    v: TiledPanesView,
    active: PaneId,
    horizontal: Option<Seq<GeomUpdate>>,
    vertical: Option<Seq<GeomUpdate>>,
)
    ensures
        forall|k: PaneId|
            #[trigger] toggled_fullscreen(v, active, horizontal, vertical).panes_to_hide.contains(k) ==> {
                &&& v.panes().contains_key(k)
                &&& k != active
                &&& current_geom_of(v.panes()[k]).y >= v.viewport.y
                &&& current_geom_of(v.panes()[k]).y + current_geom_of(v.panes()[k]).rows.inner <= v.viewport.y
                    + v.viewport.rows
            },
        !v.fullscreen_is_active && toggled_fullscreen(v, active, horizontal, vertical).fullscreen_is_active
            ==> forall|k: PaneId|
            #[trigger] v.panes().contains_key(k) && k != active && current_geom_of(v.panes()[k]).y >= v.viewport.y
                && current_geom_of(v.panes()[k]).y + current_geom_of(v.panes()[k]).rows.inner <= v.viewport.y
                + v.viewport.rows ==> toggled_fullscreen(v, active, horizontal, vertical).panes_to_hide.contains(k),
{
}

/// When the screen changes size and the panes were laid out anew, the
/// viewport grows or shrinks by as much as the screen did, and the display
/// area takes the new size.
pub proof fn law_resize_follows_the_screen(
    v: TiledPanesView,
    size: Size,
    horizontal: Option<Seq<GeomUpdate>>,
    vertical: Option<Seq<GeomUpdate>>,
)
    ensures
        horizontal is Some && 0 <= v.viewport.cols + size.cols - v.display_area.cols <= usize::MAX ==> {
            &&& resized(v, size, horizontal, vertical).viewport.cols == v.viewport.cols + size.cols
                - v.display_area.cols
            &&& resized(v, size, horizontal, vertical).display_area.cols == size.cols
        },
        vertical is Some && 0 <= v.viewport.rows + size.rows - v.display_area.rows <= usize::MAX ==> {
            &&& resized(v, size, horizontal, vertical).viewport.rows == v.viewport.rows + size.rows
                - v.display_area.rows
            &&& resized(v, size, horizontal, vertical).display_area.rows == size.rows
        },
        horizontal is None ==> resized(v, size, horizontal, vertical).viewport.cols == v.viewport.cols,
        vertical is None ==> resized(v, size, horizontal, vertical).viewport.rows == v.viewport.rows,
{
}

/// With frames drawn, a borderless pane's content is not offset at all,
/// and every other pane's content is offset by one cell on each side.
pub proof fn law_frames_leave_borderless_panes_unframed(
    s: Seq<(PaneId, Pane)>,
    viewport: Viewport,
)
    ensures
        forall|i: int|
            0 <= i < s.len() && s[i].1.borderless ==> (#[trigger] framed_entries(s, true, viewport)[i]).1.content_offset
                == (Offset { top: 0, bottom: 0, right: 0, left: 0 }),
        forall|i: int|
            0 <= i < s.len() && !s[i].1.borderless ==> (#[trigger] framed_entries(s, true, viewport)[i]).1.content_offset
                == (Offset { top: 1, bottom: 1, right: 1, left: 1 }) && framed_entries(s, true, viewport)[i].1.frame,
{
}

/// A pane that has been scrolled, or has any scrollback at all, shows
/// " SCROLL: " and its position and length, as in " SCROLL:  3/10 ",
/// wherever that fits.
pub proof fn law_scroll_indication_shown(f: PaneFrame, max_length: nat)
    ensures
        ({
            let text = " SCROLL: "@ + seq![' '] + decimal(f.scroll_position.0 as nat) + seq!['/'] + decimal(
                f.scroll_position.1 as nat,
            ) + seq![' '];
            (f.scroll_position.0 > 0 || f.scroll_position.1 > 0) && text.len() <= max_length
                ==> title_right_side(f, max_length) == Some((fg(text, f.color), text.len()))
        }),
        f.scroll_position.0 == 0 && f.scroll_position.1 == 0 ==> title_right_side(f, max_length) is None,
{
    reveal_strlit(" SCROLL: ");
    let text = " SCROLL: "@ + seq![' '] + decimal(f.scroll_position.0 as nat) + seq!['/'] + decimal(
        f.scroll_position.1 as nat,
    ) + seq![' '];
    let full = seq![' '] + decimal(f.scroll_position.0 as nat) + seq!['/'] + decimal(f.scroll_position.1 as nat)
        + seq![' '];
    assert(" SCROLL: "@ + full =~= text);
}

/// The `--check` report names the configuration directory given on the
/// command line, whatever default directory exists, and, where no
/// configuration file is given, the file of that name in it.
pub proof fn law_check_report_names_the_given_config_dir(opts: CliArgs, config_options: Options, env: CheckEnvironment)
    requires
        opts.config_dir is Some,
    ensures
        ({
            let d = opts.config_dir.unwrap()@;
            let head = "[Version]: "@ + debug_str(env.version@) + "\n"@;
            let line = "[CONFIG DIR]: "@ + path_debug_str(d) + "\n"@;
            let file_line = "[CONFIG FILE]: "@ + path_debug_str(joined(d, CONFIG_NAME@)) + "\n"@;
            let report = defaults_report(opts, config_options, env);
            &&& report.subrange(head.len() as int, (head.len() + line.len()) as int) == line
            &&& opts.config is None ==> report.subrange(
                (head.len() + line.len()) as int,
                (head.len() + line.len() + file_line.len()) as int,
            ) == file_line
        }),
{
    let d = opts.config_dir.unwrap()@;
    let head = "[Version]: "@ + debug_str(env.version@) + "\n"@;
    let line = "[CONFIG DIR]: "@ + path_debug_str(d) + "\n"@;
    let file_line = "[CONFIG FILE]: "@ + path_debug_str(joined(d, CONFIG_NAME@)) + "\n"@;
    let report = defaults_report(opts, config_options, env);
    let cfs = config_file_section(opts, env);
    let x = head + line + cfs;
    assert(config_dir_section(opts, env) == line);
    assert(x.len() <= report.len());
    assert forall|i: int| 0 <= i < x.len() implies report[i] == x[i] by {}
    assert(report.subrange(head.len() as int, (head.len() + line.len()) as int) =~= line);
    if opts.config is None {
        let tail = match env.config_file_error {
            None => "[CONFIG FILE]: Well defined.\n"@,
            Some(e) => "[CONFIG ERROR]: "@ + e@ + "\n"@,
        };
        assert(cfs =~= file_line + tail);
        assert(report.subrange(
            (head.len() + line.len()) as int,
            (head.len() + line.len() + file_line.len()) as int,
        ) =~= file_line);
    }
}

} // verus!
