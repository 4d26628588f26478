use zellij_panes::frame::{
    background_color, chars_of, client_id_to_colors, decimal_chars, foreground_color, signed_decimal_chars,
    CharacterChunk, ExitStatus, FrameParams, Palette, PaletteColor, PaneFrame, Style, TerminalCharacter,
};
use zellij_panes::geom::Viewport;

fn palette() -> Palette {
    let c = PaletteColor::EightBit;
    Palette {
        fg: c(1),
        bg: c(2),
        black: c(3),
        red: c(4),
        green: c(5),
        yellow: c(6),
        blue: c(7),
        magenta: c(8),
        cyan: c(9),
        white: c(10),
        orange: c(11),
        gray: c(12),
        purple: c(13),
        gold: c(14),
        silver: c(15),
        pink: c(16),
        brown: c(17),
    }
}

fn style(rounded: bool) -> Style {
    Style { colors: palette(), rounded_corners: rounded, hide_session_name: false }
}

fn frame(cols: usize, rows: usize, title: &str, main: bool, others: Vec<u16>, cursors: bool) -> PaneFrame {
    PaneFrame::new(
        Viewport { x: 0, y: 0, rows, cols },
        (0, 0),
        String::from(title),
        FrameParams {
            focused_client: Some(1),
            is_main_client: main,
            other_focused_clients: others,
            style: style(false),
            color: Some(PaletteColor::Rgb(1, 2, 3)),
            other_cursors_exist_in_session: cursors,
        },
    )
}

fn text(cells: &[TerminalCharacter]) -> String {
    cells.iter().map(|c| c.character).collect()
}

fn chunks(f: &PaneFrame) -> Vec<CharacterChunk> {
    f.render().unwrap().0
}

#[test]
fn plain_frame_draws_title_sides_and_bottom() {
    let f = frame(10, 3, "ab", true, vec![], false);
    let (cs, extra) = f.render().unwrap();
    assert!(extra.is_none());
    assert_eq!(cs.len(), 4);
    assert_eq!(text(&cs[0].terminal_characters), "┌ ab ────┐");
    assert_eq!((cs[0].x, cs[0].y), (0, 0));
    assert_eq!(text(&cs[1].terminal_characters), "│");
    assert_eq!((cs[1].x, cs[1].y), (0, 1));
    assert_eq!((cs[2].x, cs[2].y), (9, 1));
    assert_eq!(text(&cs[3].terminal_characters), "└────────┘");
    assert_eq!((cs[3].x, cs[3].y), (0, 2));
}

#[test]
fn frame_cells_are_bold_in_the_frame_color() {
    let f = frame(10, 2, "ab", true, vec![], false);
    let cs = chunks(&f);
    let corner = cs[0].terminal_characters[0];
    assert!(corner.styles.bold && corner.styles.reset);
    assert_eq!(corner.styles.foreground, Some(PaletteColor::Rgb(1, 2, 3)));
    assert_eq!(corner.width, 1);
}

#[test]
fn rounded_corners_are_drawn_round() {
    let mut f = frame(6, 2, "", true, vec![], false);
    f.style = style(true);
    let cs = chunks(&f);
    assert_eq!(text(&cs[0].terminal_characters), "╭────╮");
    assert_eq!(text(&cs[1].terminal_characters), "╰────╯");
}

#[test]
fn every_row_of_the_frame_spans_it() {
    let f = frame(23, 5, "a title", true, vec![], false);
    let cs = chunks(&f);
    assert_eq!(cs.len(), 1 + 2 * 3 + 1);
    assert_eq!(cs[0].terminal_characters.len(), 23);
    assert_eq!(cs[7].terminal_characters.len(), 23);
}

#[test]
fn scroll_position_is_shown_on_the_right() {
    let mut f = frame(40, 2, "ab", true, vec![], false);
    f.scroll_position = (3, 10);
    let cs = chunks(&f);
    assert_eq!(text(&cs[0].terminal_characters), "┌ ab ─────────────────── SCROLL:  3/10 ┐");
    let mut narrow = frame(10, 2, "ab", true, vec![], false);
    narrow.scroll_position = (3, 10);
    assert_eq!(text(&chunks(&narrow)[0].terminal_characters), "┌ ab ─ 3 ┐");
}

#[test]
fn long_title_is_cut_in_the_middle() {
    let f = frame(14, 2, "abcdefghijkl", true, vec![], false);
    assert_eq!(text(&chunks(&f)[0].terminal_characters), "┌ abc[..]jkl ┐");
    let f = frame(15, 2, "abcdefghijklm", true, vec![], false);
    assert_eq!(text(&chunks(&f)[0].terminal_characters), "┌ abc[...]klm ┐");
}

#[test]
fn narrow_frame_has_no_title() {
    let f = frame(8, 2, "abcdefgh", true, vec![], false);
    assert_eq!(text(&chunks(&f)[0].terminal_characters), "┌──────┐");
}

#[test]
fn my_focus_is_shown_in_the_middle() {
    let f = frame(30, 2, "ab", true, vec![], true);
    assert_eq!(text(&chunks(&f)[0].terminal_characters), "┌ ab ────┤ MY FOCUS ├────────┐");
}

#[test]
fn short_focus_mark_when_space_is_tight() {
    let f = frame(10, 2, "ab", true, vec![], true);
    assert_eq!(text(&chunks(&f)[0].terminal_characters), "┌─┤ ME ├─┐");
}

#[test]
fn other_focused_users_are_named_with_their_colors() {
    let f = frame(30, 2, "", false, vec![2], false);
    let row = chunks(&f)[0].terminal_characters.clone();
    assert_eq!(text(&row), "┌─────┤ FOCUSED USER:   ├────┐");
    let cursor = row[22];
    assert_eq!(cursor.character, ' ');
    assert_eq!(cursor.styles.background, Some(PaletteColor::EightBit(7)));
}

#[test]
fn my_and_others_focus() {
    let f = frame(40, 2, "", true, vec![1, 3], false);
    let row = chunks(&f)[0].terminal_characters.clone();
    assert_eq!(text(&row), "┌─────────┤ MY FOCUS AND:     ├────────┐");
}

#[test]
fn held_pane_shows_exit_code_and_tips() {
    let mut f = frame(60, 3, "cmd", true, vec![], false);
    f.add_exit_status(Some(0));
    assert_eq!(f.exit_status, Some(ExitStatus::Code(0)));
    let cs = chunks(&f);
    let bottom = &cs[3].terminal_characters;
    assert_eq!(text(bottom), "└ [ EXIT CODE: 0 ] <ENTER> to re-run, <Ctrl-c> to exit ────┘");
    assert_eq!(bottom.len(), 60);
    assert_eq!(bottom[15].character, '0');
    assert_eq!(bottom[15].styles.foreground, Some(PaletteColor::EightBit(5)));
}

#[test]
fn held_pane_of_another_client_shows_only_the_status() {
    let mut f = frame(30, 2, "cmd", false, vec![], false);
    f.add_exit_status(None);
    assert_eq!(f.exit_status, Some(ExitStatus::Exited));
    let cs = chunks(&f);
    assert_eq!(text(&cs[1].terminal_characters), "└ [ EXITED ] ────────────────┘");
    assert_eq!(cs[1].terminal_characters[4].styles.foreground, Some(PaletteColor::EightBit(4)));
}

#[test]
fn negative_exit_code_in_a_narrow_frame_leaves_the_row_empty() {
    let mut f = frame(12, 2, "cmd", true, vec![], false);
    f.add_exit_status(Some(-1));
    assert_eq!(text(&chunks(&f)[1].terminal_characters), "└──────────┘");
}

#[test]
fn frame_that_cannot_be_numbered_is_not_drawn() {
    let f = PaneFrame::new(
        Viewport { x: usize::MAX - 1, y: 0, rows: 3, cols: 5 },
        (0, 0),
        String::from("x"),
        FrameParams {
            focused_client: None,
            is_main_client: true,
            other_focused_clients: vec![],
            style: style(false),
            color: None,
            other_cursors_exist_in_session: false,
        },
    );
    assert!(f.try_render().is_none());
    let ok = frame(10, 3, "ab", true, vec![], false);
    assert_eq!(ok.try_render().unwrap().0.len(), 4);
}

#[test]
fn client_colors_cycle_through_ten() {
    let p = palette();
    assert_eq!(client_id_to_colors(1, p), Some((p.magenta, p.black)));
    assert_eq!(client_id_to_colors(7, p), Some((p.red, p.black)));
    assert_eq!(client_id_to_colors(10, p), Some((p.brown, p.black)));
    assert_eq!(client_id_to_colors(11, p), None);
    assert_eq!(client_id_to_colors(0, p), None);
}

#[test]
fn colored_text_keeps_its_characters_and_widths() {
    let chars = chars_of("a\u{1}b");
    let fg = foreground_color(&chars, None);
    assert_eq!(fg.len(), 3);
    assert_eq!(fg[0].width, 1);
    assert_eq!(fg[1].width, 0);
    assert!(fg[2].styles.bold && fg[2].styles.foreground.is_none());
    let bg = background_color(&chars, None);
    assert!(!bg[0].styles.bold && bg[0].styles.background.is_none());
    let bg = background_color(&chars, Some(PaletteColor::EightBit(9)));
    assert!(bg[0].styles.bold);
    assert_eq!(bg[0].styles.background, Some(PaletteColor::EightBit(9)));
}

#[test]
fn decimal_digits() {
    assert_eq!(decimal_chars(0), vec!['0']);
    assert_eq!(decimal_chars(1203), vec!['1', '2', '0', '3']);
    assert_eq!(signed_decimal_chars(-45), vec!['-', '4', '5']);
    assert_eq!(signed_decimal_chars(i64::MIN).len(), 20);
}

#[test]
fn only_the_cursors_of_other_users_when_space_is_tightest() {
    let f = frame(7, 2, "", false, vec![2], false);
    let row = chunks(&f)[0].terminal_characters.clone();
    assert_eq!(text(&row), "┌┤   ├┐");
    assert_eq!(row.len(), 7);
    assert_eq!(row[3].styles.background, Some(PaletteColor::EightBit(7)));
}
