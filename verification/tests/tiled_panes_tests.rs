use zellij_panes::geom::{Constraint, Dimension, Offset, PaneGeom, Size, SizeInPixels, SplitDirection, Viewport};
use zellij_panes::pane::{Pane, PaneId, RunCommand};
use zellij_panes::tiled_panes::{after_draw_step, DrawStep, GeomUpdate, InputMode, PtyResize, TiledPanes};

fn dim(inner: usize) -> Dimension {
    Dimension { constraint: Constraint::Percent(10000), inner }
}

fn geom(x: usize, y: usize, rows: usize, cols: usize) -> PaneGeom {
    PaneGeom { x, y, rows: dim(rows), cols: dim(cols) }
}

fn screen() -> Viewport {
    Viewport { x: 0, y: 0, rows: 20, cols: 80 }
}

fn tab(clients: Vec<u16>, mirrored: bool, frames: bool) -> TiledPanes {
    TiledPanes::new(
        Size { rows: 20, cols: 80 },
        screen(),
        clients.clone(),
        clients,
        Some(SizeInPixels { height: 20, width: 10 }),
        mirrored,
        frames,
        vec![],
        InputMode::Normal,
    )
}

/// Two terminals side by side: 1 on the left, 2 on the right.
fn two_panes(frames: bool) -> TiledPanes {
    let mut t = tab(vec![1, 2], false, frames);
    t.add_pane_with_existing_geom(PaneId::Terminal(1), Pane::new(PaneId::Terminal(1), geom(0, 0, 20, 40), true, false));
    t.add_pane_with_existing_geom(PaneId::Terminal(2), Pane::new(PaneId::Terminal(2), geom(40, 0, 20, 40), true, false));
    t
}

#[test]
fn new_tab_has_no_panes() {
    let t = tab(vec![1], false, true);
    assert!(!t.has_panes());
    assert!(!t.has_active_panes());
    assert!(!t.fullscreen_is_active());
    assert_eq!(t.panes_to_hide_count(), 0);
    assert_eq!(t.first_selectable_pane_id(), None);
}

#[test]
fn panes_are_kept_terminals_first_in_id_order() {
    let mut t = tab(vec![1], false, false);
    t.add_pane_with_existing_geom(PaneId::Plugin(1), Pane::new(PaneId::Plugin(1), geom(0, 0, 5, 5), true, false));
    t.add_pane_with_existing_geom(PaneId::Terminal(7), Pane::new(PaneId::Terminal(7), geom(0, 5, 5, 5), true, false));
    t.add_pane_with_existing_geom(PaneId::Terminal(3), Pane::new(PaneId::Terminal(3), geom(0, 10, 5, 5), true, false));
    assert_eq!(t.pane_ids(), vec![PaneId::Terminal(3), PaneId::Terminal(7), PaneId::Plugin(1)]);
    assert!(t.panes_contain(&PaneId::Terminal(7)));
    assert!(!t.panes_contain(&PaneId::Terminal(4)));
    assert_eq!(t.get_pane(PaneId::Terminal(3)).map(|p| p.position_and_size()), Some(geom(0, 10, 5, 5)));
}

#[test]
fn added_pane_gets_a_frame_offset_when_frames_are_drawn() {
    let t = two_panes(true);
    let p = t.get_pane(PaneId::Terminal(1)).unwrap();
    assert_eq!(p.content_offset, Offset { top: 1, bottom: 1, right: 1, left: 1 });
    let t = two_panes(false);
    let p = t.get_pane(PaneId::Terminal(1)).unwrap();
    assert_eq!(p.content_offset, Offset { top: 0, bottom: 0, right: 0, left: 0 });
}

#[test]
fn focus_read_back() {
    let mut t = two_panes(false);
    t.focus_pane(PaneId::Terminal(2), 1);
    assert_eq!(t.get_active_pane_id(1), Some(PaneId::Terminal(2)));
    assert_eq!(t.focused_pane_id(1), Some(PaneId::Terminal(2)));
    assert_eq!(t.get_active_pane_id(2), None);
    t.focus_pane(PaneId::Terminal(1), 1);
    assert_eq!(t.get_active_pane_id(1), Some(PaneId::Terminal(1)));
}

#[test]
fn mirrored_session_focuses_every_client() {
    let mut t = tab(vec![1, 2, 3], true, false);
    t.add_pane_with_existing_geom(PaneId::Terminal(1), Pane::new(PaneId::Terminal(1), geom(0, 0, 20, 80), true, false));
    t.focus_pane(PaneId::Terminal(1), 2);
    assert_eq!(t.get_active_pane_id(1), Some(PaneId::Terminal(1)));
    assert_eq!(t.get_active_pane_id(2), Some(PaneId::Terminal(1)));
    assert_eq!(t.get_active_pane_id(3), Some(PaneId::Terminal(1)));
    assert_eq!(t.first_active_pane_id(), Some(PaneId::Terminal(1)));
}

#[test]
fn clear_active_panes_unfocuses_everyone() {
    let mut t = two_panes(false);
    t.focus_pane(PaneId::Terminal(1), 1);
    assert!(t.has_active_panes());
    t.clear_active_panes();
    assert!(!t.has_active_panes());
    assert_eq!(t.get_active_pane_id(1), None);
}

#[test]
fn pane_frames_set_offsets_and_ask_for_resizes() {
    let mut t = two_panes(false);
    t.set_pane_frames(true);
    let p = t.get_pane(PaneId::Terminal(2)).unwrap();
    assert!(p.frame);
    assert_eq!(p.content_offset, Offset { top: 1, bottom: 1, right: 1, left: 1 });
    let resizes = t.take_pty_resizes();
    assert_eq!(
        resizes,
        vec![
            PtyResize { terminal_id: 1, columns: 38, rows: 18 },
            PtyResize { terminal_id: 2, columns: 38, rows: 18 },
        ]
    );
    assert!(t.take_pty_resizes().is_empty());
}

#[test]
fn without_frames_the_left_pane_leaves_a_column_for_the_boundary() {
    let mut t = two_panes(true);
    t.set_pane_frames(false);
    let left = t.get_pane(PaneId::Terminal(1)).unwrap();
    assert!(!left.frame);
    assert_eq!(left.content_offset, Offset { top: 0, bottom: 0, right: 1, left: 0 });
    let right = t.get_pane(PaneId::Terminal(2)).unwrap();
    assert_eq!(right.content_offset, Offset { top: 0, bottom: 0, right: 0, left: 0 });
}

#[test]
fn setting_frames_twice_changes_nothing_more() {
    let mut t = two_panes(false);
    t.set_pane_frames(true);
    let once: Vec<Offset> = t.get_panes().iter().map(|(_, p)| p.content_offset).collect();
    t.set_pane_frames(true);
    let twice: Vec<Offset> = t.get_panes().iter().map(|(_, p)| p.content_offset).collect();
    assert_eq!(once, twice);
}

#[test]
fn set_force_render_marks_every_pane() {
    let mut t = two_panes(false);
    t.set_force_render();
    for (_, p) in t.get_panes() {
        assert!(p.should_render && p.should_render_boundaries && p.full_viewport_render_requested);
    }
}

#[test]
fn clients_leave_a_closing_pane() {
    let mut t = two_panes(false);
    t.focus_pane(PaneId::Terminal(1), 1);
    t.focus_pane(PaneId::Terminal(2), 2);
    t.move_clients_out_of_pane(PaneId::Terminal(1));
    assert_eq!(t.get_active_pane_id(1), Some(PaneId::Terminal(2)));
    assert_eq!(t.get_active_pane_id(2), Some(PaneId::Terminal(2)));
}

#[test]
fn clients_are_unfocused_when_no_pane_can_take_them() {
    let mut t = tab(vec![1], false, false);
    t.add_pane_with_existing_geom(PaneId::Terminal(1), Pane::new(PaneId::Terminal(1), geom(0, 0, 20, 40), true, false));
    t.add_pane_with_existing_geom(PaneId::Terminal(2), Pane::new(PaneId::Terminal(2), geom(40, 0, 20, 40), false, false));
    t.focus_pane(PaneId::Terminal(1), 1);
    t.move_clients_out_of_pane(PaneId::Terminal(1));
    assert!(!t.has_active_panes());
}

#[test]
fn hidden_panes_read_back() {
    let mut t = two_panes(false);
    t.add_to_hidden_panels(PaneId::Terminal(2));
    t.add_to_hidden_panels(PaneId::Terminal(2));
    assert!(t.panes_to_hide_contains(PaneId::Terminal(2)));
    assert!(!t.panes_to_hide_contains(PaneId::Terminal(1)));
    assert_eq!(t.panes_to_hide_count(), 1);
    t.remove_from_hidden_panels(PaneId::Terminal(2));
    assert!(!t.panes_to_hide_contains(PaneId::Terminal(2)));
    assert_eq!(t.panes_to_hide_count(), 0);
}

#[test]
fn cursor_ratio_rounds_to_nearest() {
    let t = tab(vec![1], false, false);
    assert_eq!(t.cursor_height_width_ratio(), Some(2));
    let ratio = |height: usize, width: usize| {
        TiledPanes::new(
            Size { rows: 1, cols: 1 },
            screen(),
            vec![],
            vec![],
            Some(SizeInPixels { height, width }),
            false,
            false,
            vec![],
            InputMode::Normal,
        )
        .cursor_height_width_ratio()
    };
    assert_eq!(ratio(15, 10), Some(2));
    assert_eq!(ratio(14, 10), Some(1));
    assert_eq!(ratio(16, 9), Some(2));
    assert_eq!(ratio(10, 0), Some(usize::MAX));
    assert_eq!(ratio(0, 0), Some(0));
    let unknown =
        TiledPanes::new(Size { rows: 1, cols: 1 }, screen(), vec![], vec![], None, false, false, vec![], InputMode::Normal);
    assert_eq!(unknown.cursor_height_width_ratio(), None);
}

#[test]
fn moving_the_active_pane_swaps_places_and_back() {
    let mut t = two_panes(false);
    t.focus_pane(PaneId::Terminal(1), 1);
    t.move_active_pane(1, PaneId::Terminal(2));
    assert_eq!(t.get_pane(PaneId::Terminal(1)).unwrap().position_and_size(), geom(40, 0, 20, 40));
    assert_eq!(t.get_pane(PaneId::Terminal(2)).unwrap().position_and_size(), geom(0, 0, 20, 40));
    t.move_active_pane(1, PaneId::Terminal(2));
    assert_eq!(t.get_pane(PaneId::Terminal(1)).unwrap().position_and_size(), geom(0, 0, 20, 40));
    assert_eq!(t.get_pane(PaneId::Terminal(2)).unwrap().position_and_size(), geom(40, 0, 20, 40));
}

#[test]
fn move_active_pane_right_without_neighbour_changes_nothing() {
    let mut t = two_panes(false);
    t.focus_pane(PaneId::Terminal(2), 1);
    t.move_active_pane_right(1, None);
    assert_eq!(t.get_pane(PaneId::Terminal(2)).unwrap().position_and_size(), geom(40, 0, 20, 40));
    t.move_active_pane_left(1, Some(PaneId::Terminal(1)));
    assert_eq!(t.get_pane(PaneId::Terminal(2)).unwrap().position_and_size(), geom(0, 0, 20, 40));
}

#[test]
fn move_focus_follows_the_neighbour() {
    let mut t = two_panes(false);
    t.focus_pane(PaneId::Terminal(1), 1);
    assert!(t.move_focus_right(1, Some(PaneId::Terminal(2))));
    assert_eq!(t.get_active_pane_id(1), Some(PaneId::Terminal(2)));
    assert!(!t.move_focus_right(1, None));
    assert_eq!(t.get_active_pane_id(1), Some(PaneId::Terminal(2)));
    assert!(t.move_focus_left(1, Some(PaneId::Terminal(1))));
    assert_eq!(t.get_active_pane_id(1), Some(PaneId::Terminal(1)));
}

#[test]
fn focus_next_pane_activates_it() {
    let mut t = two_panes(false);
    t.focus_pane(PaneId::Terminal(1), 1);
    t.focus_next_pane(1, PaneId::Terminal(2));
    assert_eq!(t.get_active_pane_id(1), Some(PaneId::Terminal(2)));
    assert!(t.get_pane(PaneId::Terminal(2)).unwrap().active_at.is_some());
    t.focus_previous_pane(1, PaneId::Terminal(1));
    assert_eq!(t.get_active_pane_id(1), Some(PaneId::Terminal(1)));
}

#[test]
fn fullscreen_hides_the_others_and_toggling_again_shows_them() {
    let mut t = two_panes(false);
    t.focus_pane(PaneId::Terminal(1), 1);
    let full = vec![GeomUpdate { pane_id: PaneId::Terminal(1), geom: geom(0, 0, 20, 80) }];
    t.toggle_active_pane_fullscreen(1, Some(full.clone()), None);
    assert!(t.fullscreen_is_active());
    assert!(t.panes_to_hide_contains(PaneId::Terminal(2)));
    assert!(!t.panes_to_hide_contains(PaneId::Terminal(1)));
    assert_eq!(t.get_active_pane_id(2), Some(PaneId::Terminal(1)));
    let plan = t.render(false);
    assert_eq!(plan.panes, vec![PaneId::Terminal(1)]);
    let back = vec![
        GeomUpdate { pane_id: PaneId::Terminal(1), geom: geom(0, 0, 20, 40) },
        GeomUpdate { pane_id: PaneId::Terminal(2), geom: geom(40, 0, 20, 40) },
    ];
    t.toggle_active_pane_fullscreen(1, Some(back), None);
    assert!(!t.fullscreen_is_active());
    assert_eq!(t.panes_to_hide_count(), 0);
    assert_eq!(t.render(false).panes, vec![PaneId::Terminal(1), PaneId::Terminal(2)]);
}

#[test]
fn a_single_pane_does_not_go_fullscreen() {
    let mut t = tab(vec![1], false, false);
    t.add_pane_with_existing_geom(PaneId::Terminal(1), Pane::new(PaneId::Terminal(1), geom(0, 0, 20, 80), true, false));
    t.focus_pane(PaneId::Terminal(1), 1);
    t.toggle_active_pane_fullscreen(1, None, None);
    assert!(!t.fullscreen_is_active());
}

#[test]
fn unset_fullscreen_shows_all_panes() {
    let mut t = two_panes(false);
    t.focus_pane(PaneId::Terminal(1), 1);
    t.toggle_active_pane_fullscreen(1, None, None);
    assert!(t.fullscreen_is_active());
    t.unset_fullscreen(None, None);
    assert!(!t.fullscreen_is_active());
    assert_eq!(t.panes_to_hide_count(), 0);
}

#[test]
fn render_plan_leaves_out_hidden_panes_and_focus_when_mirrored() {
    let mut t = two_panes(true);
    t.focus_pane(PaneId::Terminal(2), 1);
    t.add_to_hidden_panels(PaneId::Terminal(1));
    let plan = t.render(false);
    assert_eq!(plan.panes, vec![PaneId::Terminal(2)]);
    assert_eq!(plan.clients, vec![1, 2]);
    assert_eq!(plan.active_panes, vec![(1, PaneId::Terminal(2))]);
    assert!(plan.draw_pane_frames);
    assert!(plan.multiple_users_exist_in_session);
    let plan = t.render(true);
    assert!(plan.active_panes.is_empty());
}

#[test]
fn removing_a_pane_hands_it_back() {
    let mut t = two_panes(false);
    let fill = vec![GeomUpdate { pane_id: PaneId::Terminal(1), geom: geom(0, 0, 20, 80) }];
    let removed = t.remove_pane(PaneId::Terminal(2), Some(fill));
    assert_eq!(removed.map(|p| p.pid()), Some(PaneId::Terminal(2)));
    assert!(!t.panes_contain(&PaneId::Terminal(2)));
    assert_eq!(t.get_pane(PaneId::Terminal(1)).unwrap().position_and_size(), geom(0, 0, 20, 80));
    assert!(t.remove_pane(PaneId::Terminal(9), None).is_none());
}

#[test]
fn extract_and_replace_panes() {
    let mut t = two_panes(false);
    let extracted = t.extract_pane(PaneId::Terminal(1));
    assert_eq!(extracted.map(|p| p.pid()), Some(PaneId::Terminal(1)));
    assert_eq!(t.pane_ids(), vec![PaneId::Terminal(2)]);
    let old = t.replace_pane(PaneId::Terminal(2), Pane::new(PaneId::Terminal(5), geom(0, 0, 1, 1), true, false));
    assert_eq!(old.map(|p| p.pid()), Some(PaneId::Terminal(2)));
    assert_eq!(t.pane_ids(), vec![PaneId::Terminal(5)]);
    assert_eq!(t.get_pane(PaneId::Terminal(5)).unwrap().position_and_size(), geom(40, 0, 20, 40));
}

#[test]
fn hold_pane_records_the_exit_status() {
    let mut t = two_panes(false);
    let command = RunCommand { command: String::from("ls"), args: vec![], cwd: None, hold_on_close: true };
    t.hold_pane(PaneId::Terminal(1), Some(3), command);
    let p = t.get_pane(PaneId::Terminal(1)).unwrap();
    assert_eq!(p.exit_status, Some(Some(3)));
    assert!(p.held_command.is_some());
}

#[test]
fn get_pane_mut_changes_a_pane_in_place() {
    let mut t = two_panes(false);
    if let Some(p) = t.get_pane_mut(PaneId::Terminal(2)) {
        p.selectable = false;
    }
    assert!(!t.get_pane(PaneId::Terminal(2)).unwrap().selectable());
    assert!(t.get_pane_mut(PaneId::Plugin(2)).is_none());
    assert_eq!(t.first_selectable_pane_id(), Some(PaneId::Terminal(1)));
}

#[test]
fn fixed_geoms_are_listed() {
    let mut t = tab(vec![1], false, false);
    let fixed = PaneGeom { x: 0, y: 0, rows: Dimension::fixed(3), cols: dim(80) };
    t.add_pane_with_existing_geom(PaneId::Terminal(1), Pane::new(PaneId::Terminal(1), fixed, true, false));
    t.add_pane_with_existing_geom(PaneId::Terminal(2), Pane::new(PaneId::Terminal(2), geom(0, 3, 17, 80), true, false));
    assert_eq!(t.fixed_pane_geoms(), vec![Viewport { x: 0, y: 0, rows: 3, cols: 80 }]);
}

#[test]
fn splitting_needs_room_in_the_active_pane() {
    let mut t = two_panes(false);
    t.focus_pane(PaneId::Terminal(1), 1);
    assert!(t.can_split_pane_horizontally(1, true));
    assert!(!t.can_split_pane_horizontally(1, false));
    assert!(t.can_split_pane_vertically(1, true));
    assert!(!t.can_split_pane_vertically(2, true));
}

#[test]
fn split_pane_adds_the_new_pane_in_the_lower_half() {
    let mut t = two_panes(false);
    t.focus_pane(PaneId::Terminal(1), 1);
    let halves = Some((geom(0, 0, 10, 40), geom(0, 10, 10, 40)));
    t.split_pane_horizontally(PaneId::Terminal(3), Pane::new(PaneId::Terminal(3), geom(0, 0, 1, 1), true, false), 1, halves, None);
    assert_eq!(t.get_pane(PaneId::Terminal(1)).unwrap().position_and_size(), geom(0, 0, 10, 40));
    assert_eq!(t.get_pane(PaneId::Terminal(3)).unwrap().position_and_size(), geom(0, 10, 10, 40));
    assert_eq!(t.get_active_pane_id(1), Some(PaneId::Terminal(1)));
}

#[test]
fn insert_pane_into_room_found_by_the_grid() {
    let mut t = two_panes(false);
    let room = Some((PaneId::Terminal(2), SplitDirection::Vertical));
    let halves = Some((geom(40, 0, 20, 20), geom(60, 0, 20, 20)));
    t.insert_pane(PaneId::Terminal(4), Pane::new(PaneId::Terminal(4), geom(0, 0, 1, 1), true, false), room, halves, None);
    assert_eq!(t.get_pane(PaneId::Terminal(2)).unwrap().position_and_size(), geom(40, 0, 20, 20));
    assert_eq!(t.get_pane(PaneId::Terminal(4)).unwrap().position_and_size(), geom(60, 0, 20, 20));
}

#[test]
fn resize_moves_panes_and_grows_the_viewport() {
    let mut t = two_panes(false);
    let horizontal = vec![
        GeomUpdate { pane_id: PaneId::Terminal(1), geom: geom(0, 0, 20, 50) },
        GeomUpdate { pane_id: PaneId::Terminal(2), geom: geom(50, 0, 20, 50) },
    ];
    t.resize(Size { rows: 20, cols: 100 }, Some(horizontal), None);
    assert_eq!(t.get_pane(PaneId::Terminal(2)).unwrap().position_and_size(), geom(50, 0, 20, 50));
    let resizes = t.take_pty_resizes();
    assert_eq!(resizes.len(), 2);
    assert_eq!(resizes[0], PtyResize { terminal_id: 1, columns: 49, rows: 20 });
}

#[test]
fn relayout_without_layout_only_reframes() {
    let mut t = two_panes(true);
    t.relayout(SplitDirection::Horizontal, None);
    assert_eq!(t.get_pane(PaneId::Terminal(1)).unwrap().position_and_size(), geom(0, 0, 20, 40));
    assert_eq!(t.take_pty_resizes().len(), 2);
}

#[test]
fn resizing_the_active_pane_applies_the_grid_answer() {
    let mut t = two_panes(false);
    t.focus_pane(PaneId::Terminal(1), 1);
    let updates = vec![
        GeomUpdate { pane_id: PaneId::Terminal(1), geom: geom(0, 0, 20, 44) },
        GeomUpdate { pane_id: PaneId::Terminal(2), geom: geom(44, 0, 20, 36) },
    ];
    t.resize_active_pane_right(1, updates);
    assert_eq!(t.get_pane(PaneId::Terminal(1)).unwrap().position_and_size(), geom(0, 0, 20, 44));
    assert_eq!(t.get_pane(PaneId::Terminal(2)).unwrap().position_and_size(), geom(44, 0, 20, 36));
}

#[test]
fn switching_fullscreen_to_the_next_pane() {
    let mut t = two_panes(false);
    t.focus_pane(PaneId::Terminal(1), 1);
    t.toggle_active_pane_fullscreen(1, None, None);
    assert!(t.panes_to_hide_contains(PaneId::Terminal(2)));
    t.switch_next_pane_fullscreen(1, PaneId::Terminal(2), None, None, None, None);
    assert!(t.fullscreen_is_active());
    assert_eq!(t.get_active_pane_id(1), Some(PaneId::Terminal(2)));
    assert!(t.panes_to_hide_contains(PaneId::Terminal(1)));
    assert!(!t.panes_to_hide_contains(PaneId::Terminal(2)));
}

#[test]
fn replace_active_pane_takes_its_place() {
    let mut t = two_panes(false);
    t.focus_pane(PaneId::Terminal(2), 1);
    let old = t.replace_active_pane(Pane::new(PaneId::Terminal(8), geom(0, 0, 1, 1), true, false), 1);
    assert_eq!(old.map(|p| p.pid()), Some(PaneId::Terminal(2)));
    assert_eq!(t.get_active_pane_id(1), Some(PaneId::Terminal(8)));
    assert_eq!(t.get_pane(PaneId::Terminal(8)).unwrap().position_and_size(), geom(40, 0, 20, 40));
}

#[test]
fn connected_clients_and_viewport_are_replaced() {
    let mut t = two_panes(false);
    t.set_connected_clients(vec![4]);
    assert_eq!(t.render(false).clients, vec![4]);
    t.set_viewport(Viewport { x: 0, y: 1, rows: 19, cols: 80 });
    t.set_pane_frames(false);
    let p = t.get_pane(PaneId::Terminal(1)).unwrap();
    assert_eq!(p.content_offset, Offset { top: 0, bottom: 0, right: 0, left: 0 });
}

#[test]
fn room_for_a_new_pane_is_what_the_grid_found() {
    let t = two_panes(false);
    assert!(t.has_room_for_new_pane(Some((PaneId::Terminal(1), SplitDirection::Horizontal))));
    assert!(!t.has_room_for_new_pane(None));
}

#[test]
fn hiding_and_showing_again_restores_the_hidden_panes() {
    let mut t = two_panes(false);
    t.add_to_hidden_panels(PaneId::Terminal(1));
    t.add_to_hidden_panels(PaneId::Terminal(2));
    t.remove_from_hidden_panels(PaneId::Terminal(2));
    assert!(t.panes_to_hide_contains(PaneId::Terminal(1)));
    assert!(!t.panes_to_hide_contains(PaneId::Terminal(2)));
    assert_eq!(t.panes_to_hide_count(), 1);
}

#[test]
fn render_plan_gives_each_client_its_mode() {
    let mut t = two_panes(false);
    t.set_modes(vec![(2, InputMode::Locked), (2, InputMode::Pane)]);
    assert_eq!(t.mode_of(2), InputMode::Locked);
    assert_eq!(t.mode_of(1), InputMode::Normal);
    let plan = t.render(false);
    assert_eq!(plan.client_modes, vec![(1, InputMode::Normal), (2, InputMode::Locked)]);
}

#[test]
fn toggling_twice_keeps_panes_and_focus() {
    let mut t = two_panes(false);
    t.focus_pane(PaneId::Terminal(2), 1);
    t.toggle_active_pane_fullscreen(1, None, None);
    t.toggle_active_pane_fullscreen(2, None, None);
    assert!(!t.fullscreen_is_active());
    assert_eq!(t.pane_ids(), vec![PaneId::Terminal(1), PaneId::Terminal(2)]);
    assert_eq!(t.get_active_pane_id(1), Some(PaneId::Terminal(2)));
    assert_eq!(t.get_active_pane_id(2), Some(PaneId::Terminal(2)));
}

#[test]
fn clients_go_to_the_first_eligible_pane_in_id_order() {
    let mut t = tab(vec![1], false, false);
    for n in [4u32, 2, 3] {
        t.add_pane_with_existing_geom(PaneId::Terminal(n), Pane::new(PaneId::Terminal(n), geom(0, 0, 5, 5), true, false));
    }
    t.focus_pane(PaneId::Terminal(4), 1);
    t.add_to_hidden_panels(PaneId::Terminal(2));
    t.move_clients_out_of_pane(PaneId::Terminal(4));
    assert_eq!(t.get_active_pane_id(1), Some(PaneId::Terminal(3)));
}

#[test]
fn drawing_steps_follow_panes_then_clients() {
    let mut t = tab(vec![1, 2], false, false);
    t.add_pane_with_existing_geom(PaneId::Terminal(1), Pane::new(PaneId::Terminal(1), geom(0, 0, 20, 40), true, false));
    t.add_pane_with_existing_geom(PaneId::Plugin(3), Pane::new(PaneId::Plugin(3), geom(40, 0, 20, 40), true, false));
    t.set_modes(vec![(2, InputMode::Locked)]);
    let steps = t.render(false).draw_steps();
    let (a, b) = (PaneId::Terminal(1), PaneId::Plugin(3));
    let n = InputMode::Normal;
    let l = InputMode::Locked;
    assert_eq!(
        steps,
        vec![
            DrawStep::PaneBoundaries(a, 1, n),
            DrawStep::TerminalTitle(a, 1, n),
            DrawStep::FakeCursor(a, 1),
            DrawStep::PaneBoundaries(a, 2, l),
            DrawStep::TerminalTitle(a, 2, l),
            DrawStep::FakeCursor(a, 2),
            DrawStep::PaneContents(a),
            DrawStep::PaneContentsForClient(b, 1),
            DrawStep::PaneBoundaries(b, 1, n),
            DrawStep::TerminalTitle(b, 1, n),
            DrawStep::FakeCursor(b, 1),
            DrawStep::PaneContentsForClient(b, 2),
            DrawStep::PaneBoundaries(b, 2, l),
            DrawStep::TerminalTitle(b, 2, l),
            DrawStep::FakeCursor(b, 2),
            DrawStep::Boundaries(1),
            DrawStep::Boundaries(2),
        ]
    );
    t.set_pane_frames(true);
    let framed = t.render(false).draw_steps();
    assert_eq!(framed.len(), 15);
    assert_eq!(framed[0], DrawStep::PaneFrame(a, 1, n));
}

#[test]
fn a_failed_drawing_step_stops_with_its_context() {
    assert!(after_draw_step(&DrawStep::PaneContents(PaneId::Terminal(1)), Ok(())).is_ok());
    let e = after_draw_step(&DrawStep::FakeCursor(PaneId::Terminal(1), 12), Err(String::from("boom"))).unwrap_err();
    assert_eq!(e.context, "failed to render tiled panes for client 12");
    assert_eq!(e.cause, "boom");
    let e = after_draw_step(&DrawStep::Boundaries(3), Err(String::from("x"))).unwrap_err();
    assert_eq!(e.context, "failed to render tiled panes");
}
