//! The frame drawn around a pane: its title row, its side boundaries and
//! its bottom row, which shows the exit status of a held command.

use vstd::prelude::*;
use vstd::string::StringExecFns;
use crate::geom::Viewport;
use crate::pane::ClientId;

verus! {

// ----- display widths, from the unicode-width crate -----

/// The display width `UnicodeWidthChar::width` gives a character.
pub uninterp spec fn unicode_char_width(c: char) -> Option<usize>;

/// The display width `UnicodeWidthStr::width` gives a string.
pub uninterp spec fn unicode_str_width(s: Seq<char>) -> usize;

/// Calls `UnicodeWidthChar::width` of unicode-width. Claims that the result
/// is the character's named width, that a printable ASCII character
/// (`' '` to `'~'`) is one column wide, and that an ASCII control character
/// or a C1 control (`'\u{7f}'` to `'\u{9f}'`) has no width; the crate's
/// `single_char_width` returns exactly these for those ranges. Nothing is
/// claimed of other characters beyond the name.
#[verifier::external_body]
fn char_width(c: char) -> (w: Option<usize>)
    ensures
        w == unicode_char_width(c),
        (' ' <= c && c <= '~') ==> w == Some(1usize),
        (c < ' ' || ('\u{7f}' <= c && c < '\u{a0}')) ==> w is None,
{
    unicode_width::UnicodeWidthChar::width(c)
}

/// Calls `UnicodeWidthStr::width` of unicode-width on the string made of
/// `s`. Claims that the result is the named width of `s`, and that a string
/// of printable ASCII characters is as wide as it is long (the crate's
/// `str_width` adds one column per such character). Nothing is claimed of
/// other strings beyond the name.
#[verifier::external_body]
fn str_width(s: &Vec<char>) -> (w: usize)
    ensures
        w == unicode_str_width(s@),
        (forall|i: int| 0 <= i < s@.len() ==> ' ' <= #[trigger] s@[i] && s@[i] <= '~') ==> w == s@.len(),
{
    let text: String = s.iter().collect();
    unicode_width::UnicodeWidthStr::width(text.as_str())
}

/// The characters of a string, in order.
pub fn chars_of(s: &str) -> (r: Vec<char>)
    ensures
        r@ == s@,
{
    let mut r: Vec<char> = Vec::new();
    for c in it: s.chars()
        invariant
            r@ == it.seq().take(it.index() as int),
    {
        r.push(c);
    }
    r
}

/// Every character of the text is printable ASCII.
pub open spec fn printable_ascii(s: Seq<char>) -> bool {
    forall|i: int| 0 <= i < s.len() ==> ' ' <= #[trigger] s[i] && s[i] <= '~'
}

// ----- decimal numbers -----

pub open spec fn digit_char(d: int) -> char {
    (48 + d) as char
}

/// The decimal digits of `n`.
pub open spec fn decimal(n: nat) -> Seq<char>
    decreases n,
{
    if n < 10 {
        seq![digit_char(n as int)]
    } else {
        decimal(n / 10).push(digit_char((n % 10) as int))
    }
}

/// `n` in decimal, with a minus sign if it is negative.
pub open spec fn signed_decimal(n: int) -> Seq<char> {
    if n < 0 {
        seq!['-'] + decimal((-n) as nat)
    } else {
        decimal(n as nat)
    }
}

pub open spec fn pow10(k: nat) -> nat
    decreases k,
{
    if k == 0 {
        1
    } else {
        10 * pow10((k - 1) as nat)
    }
}

/// The decimal digits of a number are printable, and there are at most
/// `k` of them if the number is below `10^k`.
pub proof fn lemma_decimal(n: nat, k: nat)
    ensures
        printable_ascii(decimal(n)),
        decimal(n).len() >= 1,
        k >= 1 && n < pow10(k) ==> decimal(n).len() <= k,
    decreases n,
{
    if n >= 10 {
        if k >= 1 {
            lemma_decimal(n / 10, (k - 1) as nat);
            if n < pow10(k) {
                let p = pow10((k - 1) as nat);
                assert(pow10(k) == 10 * p);
                assert(n / 10 < p) by (nonlinear_arith)
                    requires
                        n < 10 * p,
                ;
                if k == 1 {
                    assert(pow10(0) == 1);
                    assert(false);
                }
            }
        } else {
            lemma_decimal(n / 10, 0);
        }
    }
}

/// A number of 64 bits has at most 20 decimal digits.
pub proof fn lemma_decimal_u64(n: nat)
    requires
        n <= u64::MAX,
    ensures
        printable_ascii(decimal(n)),
        1 <= decimal(n).len() <= 20,
{
    assert(pow10(20) == 100000000000000000000) by {
        reveal_with_fuel(pow10, 21);
    }
    lemma_decimal(n, 20);
}

/// The decimal digits of `n`.
pub fn decimal_chars(n: u64) -> (r: Vec<char>)
    ensures
        r@ == decimal(n as nat),
    decreases n,
{
    if n < 10 {
        let mut r: Vec<char> = Vec::new();
        r.push(((48 + n) as u8) as char);
        r
    } else {
        let mut r = decimal_chars(n / 10);
        r.push(((48 + n % 10) as u8) as char);
        r
    }
}

/// `n` in decimal, with a minus sign if it is negative.
pub fn signed_decimal_chars(n: i64) -> (r: Vec<char>)
    ensures
        r@ == signed_decimal(n as int),
{
    if n < 0 {
        let magnitude: u64 = if n == i64::MIN {
            0x8000_0000_0000_0000u64
        } else {
            (-n) as u64
        };
        let mut r: Vec<char> = Vec::new();
        r.push('-');
        let digits = decimal_chars(magnitude);
        r.append(&mut digits.clone());
        proof {
            assert(r@ =~= seq!['-'] + decimal((-(n as int)) as nat));
        }
        r
    } else {
        decimal_chars(n as u64)
    }
}

// ----- colors and styled characters -----

/// A color of the palette.
#[derive(Clone, Copy, Debug, PartialEq, Eq, Structural)]
pub enum PaletteColor {
    Rgb(u8, u8, u8),
    EightBit(u8),
}

/// The colors of a theme.
#[derive(Clone, Copy, Debug, PartialEq, Eq, Structural)]
pub struct Palette {
    pub fg: PaletteColor,
    pub bg: PaletteColor,
    pub black: PaletteColor,
    pub red: PaletteColor,
    pub green: PaletteColor,
    pub yellow: PaletteColor,
    pub blue: PaletteColor,
    pub magenta: PaletteColor,
    pub cyan: PaletteColor,
    pub white: PaletteColor,
    pub orange: PaletteColor,
    pub gray: PaletteColor,
    pub purple: PaletteColor,
    pub gold: PaletteColor,
    pub silver: PaletteColor,
    pub pink: PaletteColor,
    pub brown: PaletteColor,
}

/// How frames are drawn.
#[derive(Clone, Copy, Debug, PartialEq, Eq, Structural)]
pub struct Style {
    pub colors: Palette,
    pub rounded_corners: bool,
    pub hide_session_name: bool,
}

/// The styles of a character on the screen: whether all earlier styles are
/// reset first, its colors, and whether it is bold.
#[derive(Clone, Copy, Debug, PartialEq, Eq, Structural)]
pub struct CharacterStyles {
    pub reset: bool,
    pub foreground: Option<PaletteColor>,
    pub background: Option<PaletteColor>,
    pub bold: bool,
}

/// One character cell: the character, its styles and its display width.
#[derive(Clone, Copy, Debug, PartialEq, Eq, Structural)]
pub struct TerminalCharacter {
    pub character: char,
    pub styles: CharacterStyles,
    pub width: usize,
}

/// Characters to draw from position `(x, y)` onwards.
#[derive(Clone, Debug)]
pub struct CharacterChunk {
    pub terminal_characters: Vec<TerminalCharacter>,
    pub x: usize,
    pub y: usize,
}

pub open spec fn plain_styles() -> CharacterStyles {
    CharacterStyles { reset: false, foreground: None, background: None, bold: false }
}

/// Bold text, in `color` if one is given.
pub open spec fn fg_styles(color: Option<PaletteColor>) -> CharacterStyles {
    CharacterStyles { reset: true, foreground: color, background: None, bold: true }
}

/// Bold text on a `color` background if one is given; else plain text.
pub open spec fn bg_styles(color: Option<PaletteColor>) -> CharacterStyles {
    match color {
        Some(c) => CharacterStyles { reset: true, foreground: None, background: Some(c), bold: true },
        None => CharacterStyles { reset: true, foreground: None, background: None, bold: false },
    }
}

/// The display width of a character, zero for a control character.
pub open spec fn width_or_zero(c: char) -> usize {
    match unicode_char_width(c) {
        Some(w) => w,
        None => 0,
    }
}

pub open spec fn cell(c: char, styles: CharacterStyles) -> TerminalCharacter {
    TerminalCharacter { character: c, styles, width: width_or_zero(c) }
}

/// The characters of `s`, each in the given styles.
pub open spec fn styled(s: Seq<char>, styles: CharacterStyles) -> Seq<TerminalCharacter> {
    s.map_values(|c: char| cell(c, styles))
}

/// `s` in bold, in `color` if one is given.
pub open spec fn fg(s: Seq<char>, color: Option<PaletteColor>) -> Seq<TerminalCharacter> {
    styled(s, fg_styles(color))
}

/// The blank cell.
pub open spec fn empty_cell() -> TerminalCharacter {
    TerminalCharacter { character: ' ', styles: plain_styles(), width: 1 }
}

/// `n` times the character `c`.
pub open spec fn repeat(c: char, n: nat) -> Seq<char> {
    Seq::new(n, |i: int| c)
}

/// The blank cell.
pub fn empty_terminal_character() -> (t: TerminalCharacter)
    ensures
        t == empty_cell(),
{
    TerminalCharacter {
        character: ' ',
        styles: CharacterStyles { reset: false, foreground: None, background: None, bold: false },
        width: 1,
    }
}

/// The characters in the given styles.
fn style_characters(characters: &Vec<char>, styles: CharacterStyles) -> (r: Vec<TerminalCharacter>)
    ensures
        r@ == styled(characters@, styles),
{
    let mut colored_string: Vec<TerminalCharacter> = Vec::new();
    let mut i: usize = 0;
    while i < characters.len()
        invariant
            i <= characters@.len(),
            colored_string@ == styled(characters@.take(i as int), styles),
        decreases characters@.len() - i,
    {
        let character = characters[i];
        let width = match char_width(character) {
            Some(w) => w,
            None => 0,
        };
        colored_string.push(TerminalCharacter { character, styles, width });
        proof {
            assert(styled(characters@.take(i + 1), styles) =~= styled(characters@.take(i as int), styles).push(
                cell(character, styles),
            ));
        }
        i = i + 1;
    }
    proof {
        assert(characters@.take(characters@.len() as int) == characters@);
    }
    colored_string
}

/// The characters in bold, in `color` if one is given.
pub fn foreground_color(characters: &Vec<char>, color: Option<PaletteColor>) -> (r: Vec<TerminalCharacter>)
    ensures
        r@ == fg(characters@, color),
{
    style_characters(characters, CharacterStyles { reset: true, foreground: color, background: None, bold: true })
}

/// The characters on a `color` background, in bold, if a color is given;
/// else plain.
pub fn background_color(characters: &Vec<char>, color: Option<PaletteColor>) -> (r: Vec<TerminalCharacter>)
    ensures
        r@ == styled(characters@, bg_styles(color)),
{
    let styles = match color {
        Some(palette_color) => CharacterStyles {
            reset: true,
            foreground: None,
            background: Some(palette_color),
            bold: true,
        },
        None => CharacterStyles { reset: true, foreground: None, background: None, bold: false },
    };
    style_characters(characters, styles)
}

/// One character in bold, in `color` if one is given.
fn foreground_char(c: char, color: Option<PaletteColor>) -> (r: Vec<TerminalCharacter>)
    ensures
        r@ == fg(seq![c], color),
{
    let mut v: Vec<char> = Vec::new();
    v.push(c);
    foreground_color(&v, color)
}

/// `n` times the character `c`, in bold, in `color` if one is given.
fn foreground_repeat(c: char, n: usize, color: Option<PaletteColor>) -> (r: Vec<TerminalCharacter>)
    ensures
        r@ == fg(repeat(c, n as nat), color),
{
    let mut v: Vec<char> = Vec::new();
    let mut i: usize = 0;
    while i < n
        invariant
            i <= n,
            v@ == repeat(c, i as nat),
        decreases n - i,
    {
        v.push(c);
        proof {
            assert(v@ =~= repeat(c, (i + 1) as nat));
        }
        i = i + 1;
    }
    foreground_color(&v, color)
}

/// The primary and secondary colors by which a client is told apart from
/// the others; the first ten clients have one.
pub open spec fn spec_client_id_to_colors(client_id: ClientId, colors: Palette) -> Option<
    (PaletteColor, PaletteColor),
> {
    if client_id == 1 {
        Some((colors.magenta, colors.black))
    } else if client_id == 2 {
        Some((colors.blue, colors.black))
    } else if client_id == 3 {
        Some((colors.purple, colors.black))
    } else if client_id == 4 {
        Some((colors.yellow, colors.black))
    } else if client_id == 5 {
        Some((colors.cyan, colors.black))
    } else if client_id == 6 {
        Some((colors.gold, colors.black))
    } else if client_id == 7 {
        Some((colors.red, colors.black))
    } else if client_id == 8 {
        Some((colors.silver, colors.black))
    } else if client_id == 9 {
        Some((colors.pink, colors.black))
    } else if client_id == 10 {
        Some((colors.brown, colors.black))
    } else {
        None
    }
}

/// The primary and secondary colors by which a client is told apart from
/// the others; the first ten clients have one.
pub fn client_id_to_colors(client_id: ClientId, colors: Palette) -> (r: Option<(PaletteColor, PaletteColor)>)
    ensures
        r == spec_client_id_to_colors(client_id, colors),
{
    match client_id {
        1 => Some((colors.magenta, colors.black)),
        2 => Some((colors.blue, colors.black)),
        3 => Some((colors.purple, colors.black)),
        4 => Some((colors.yellow, colors.black)),
        5 => Some((colors.cyan, colors.black)),
        6 => Some((colors.gold, colors.black)),
        7 => Some((colors.red, colors.black)),
        8 => Some((colors.silver, colors.black)),
        9 => Some((colors.pink, colors.black)),
        10 => Some((colors.brown, colors.black)),
        _ => None,
    }
}

// ----- boundary characters -----

pub const TOP_RIGHT: char = '\u{2510}';
pub const TOP_RIGHT_ROUND: char = '\u{256e}';
pub const VERTICAL: char = '\u{2502}';
pub const HORIZONTAL: char = '\u{2500}';
pub const TOP_LEFT: char = '\u{250c}';
pub const TOP_LEFT_ROUND: char = '\u{256d}';
pub const BOTTOM_RIGHT: char = '\u{2518}';
pub const BOTTOM_RIGHT_ROUND: char = '\u{256f}';
pub const BOTTOM_LEFT: char = '\u{2514}';
pub const BOTTOM_LEFT_ROUND: char = '\u{2570}';
pub const VERTICAL_LEFT: char = '\u{2524}';
pub const VERTICAL_RIGHT: char = '\u{251c}';

/// The corner to draw: its rounded form if the style asks for rounded
/// corners.
pub open spec fn corner_for(style: Style, corner: char) -> char {
    if style.rounded_corners {
        if corner == TOP_RIGHT {
            TOP_RIGHT_ROUND
        } else if corner == TOP_LEFT {
            TOP_LEFT_ROUND
        } else if corner == BOTTOM_RIGHT {
            BOTTOM_RIGHT_ROUND
        } else if corner == BOTTOM_LEFT {
            BOTTOM_LEFT_ROUND
        } else {
            corner
        }
    } else {
        corner
    }
}

// ----- the frame -----

/// How the command of a held pane ended.
#[derive(Clone, Copy, Debug, PartialEq, Eq, Structural)]
pub enum ExitStatus {
    Code(i32),
    Exited,
}

/// What a pane frame shows besides its place, size and title.
#[derive(Clone, Debug)]
pub struct FrameParams {
    pub focused_client: Option<ClientId>,
    pub is_main_client: bool,
    pub other_focused_clients: Vec<ClientId>,
    pub style: Style,
    pub color: Option<PaletteColor>,
    pub other_cursors_exist_in_session: bool,
}

/// The frame around a pane.
#[derive(Debug, PartialEq)]
pub struct PaneFrame {
    pub geom: Viewport,
    pub title: String,
    /// Scroll position and scroll length.
    pub scroll_position: (usize, usize),
    pub style: Style,
    pub color: Option<PaletteColor>,
    pub focused_client: Option<ClientId>,
    pub is_main_client: bool,
    pub other_cursors_exist_in_session: bool,
    pub other_focused_clients: Vec<ClientId>,
    pub exit_status: Option<ExitStatus>,
}

pub open spec fn sat_sub(a: int, b: int) -> nat {
    if a >= b {
        (a - b) as nat
    } else {
        0
    }
}

/// Columns between the two corners of a row.
pub open spec fn inner_width(f: PaneFrame) -> nat {
    sat_sub(f.geom.cols as int, 2)
}

/// A corner of the frame, in the frame's color.
pub open spec fn corner_cell(f: PaneFrame, corner: char) -> Seq<TerminalCharacter> {
    fg(seq![corner_for(f.style, corner)], f.color)
}

/// `n` horizontal boundary characters in the frame's color.
pub open spec fn h_fill(f: PaneFrame, n: nat) -> Seq<TerminalCharacter> {
    fg(repeat(HORIZONTAL, n), f.color)
}

/// The colored blank that marks the cursor of another client.
pub open spec fn client_cursor_cells(f: PaneFrame, client_id: ClientId) -> Seq<TerminalCharacter> {
    styled(
        seq![' '],
        bg_styles(
            match spec_client_id_to_colors(client_id, f.style.colors) {
                Some(c) => Some(c.0),
                None => None,
            },
        ),
    )
}

/// The first part of the bottom row of a held pane: its exit status.
pub open spec fn first_held_part(f: PaneFrame, exit_status: ExitStatus) -> (Seq<TerminalCharacter>, nat) {
    match exit_status {
        ExitStatus::Code(code) => {
            let code_text = signed_decimal(code as int);
            let code_color = if code == 0 {
                f.style.colors.green
            } else {
                f.style.colors.red
            };
            (
                fg(" [ "@, f.color) + fg("EXIT CODE: "@, f.color) + fg(code_text, Some(code_color)) + fg(
                    " ] "@,
                    f.color,
                ),
                17 + code_text.len(),
            )
        },
        ExitStatus::Exited => (
            fg(" [ "@, f.color) + fg("EXITED"@, Some(f.style.colors.red)) + fg(" ] "@, f.color),
            12,
        ),
    }
}

/// The second part of the bottom row of a held pane: how to run the
/// command again or close the pane.
pub open spec fn second_held_part(f: PaneFrame) -> (Seq<TerminalCharacter>, nat) {
    let orange = Some(f.style.colors.orange);
    (
        fg("<"@, f.color) + fg("ENTER"@, orange) + fg(">"@, f.color) + fg(" to re-run, "@, f.color)
            + fg("<"@, f.color) + fg("Ctrl-c"@, orange) + fg(">"@, f.color) + fg(" to exit "@, f.color),
        36,
    )
}

/// A bottom row with nothing in it.
pub open spec fn empty_undertitle_row(f: PaneFrame, max_length: nat) -> Seq<TerminalCharacter> {
    corner_cell(f, BOTTOM_LEFT) + h_fill(f, max_length) + corner_cell(f, BOTTOM_RIGHT)
}

/// The bottom row of a held pane: the exit status, and for the main client
/// the tips too, as far as they fit between the corners.
pub open spec fn held_undertitle(f: PaneFrame, exit_status: ExitStatus) -> Seq<TerminalCharacter> {
    let max = inner_width(f);
    let (first, first_len) = first_held_part(f, exit_status);
    let (second, second_len) = second_held_part(f);
    if f.is_main_client && first_len + second_len <= max {
        corner_cell(f, BOTTOM_LEFT) + first + second + h_fill(f, (max - first_len - second_len) as nat)
            + corner_cell(f, BOTTOM_RIGHT)
    } else if first_len <= max {
        corner_cell(f, BOTTOM_LEFT) + first + h_fill(f, (max - first_len) as nat) + corner_cell(
            f,
            BOTTOM_RIGHT,
        )
    } else {
        empty_undertitle_row(f, max)
    }
}

/// A title row with a left and a right part and boundary between them.
pub open spec fn two_part_row(
    f: PaneFrame,
    left: Seq<TerminalCharacter>,
    left_len: nat,
    right: Seq<TerminalCharacter>,
    right_len: nat,
) -> Seq<TerminalCharacter> {
    corner_cell(f, TOP_LEFT) + left + h_fill(f, sat_sub(inner_width(f) as int, (left_len + right_len) as int))
        + right + corner_cell(f, TOP_RIGHT)
}

/// A title row with a left part only.
pub open spec fn left_only_row(f: PaneFrame, left: Seq<TerminalCharacter>, left_len: nat) -> Seq<
    TerminalCharacter,
> {
    corner_cell(f, TOP_LEFT) + left + h_fill(f, sat_sub(inner_width(f) as int, left_len as int))
        + corner_cell(f, TOP_RIGHT)
}

/// A title row with nothing in it.
pub open spec fn empty_title_row(f: PaneFrame) -> Seq<TerminalCharacter> {
    corner_cell(f, TOP_LEFT) + h_fill(f, inner_width(f)) + corner_cell(f, TOP_RIGHT)
}

/// The scroll indication: `" position/length "` in full, `" position "` short.
pub open spec fn scroll_texts(f: PaneFrame) -> (Seq<char>, Seq<char>) {
    let position = decimal(f.scroll_position.0 as nat);
    let length = decimal(f.scroll_position.1 as nat);
    (seq![' '] + position + seq!['/'] + length + seq![' '], seq![' '] + position + seq![' '])
}

/// The right part of the title row: the scroll position, if the pane is
/// scrolled, in the longest form that fits in `max_length` columns.
pub open spec fn title_right_side(f: PaneFrame, max_length: nat) -> Option<(Seq<TerminalCharacter>, nat)> {
    if f.scroll_position.0 > 0 || f.scroll_position.1 > 0 {
        let prefix = " SCROLL: "@;
        let (full, short) = scroll_texts(f);
        if 9 + full.len() <= max_length {
            Some((fg(prefix + full, f.color), 9 + full.len()))
        } else if full.len() <= max_length {
            Some((fg(full, f.color), full.len()))
        } else if short.len() <= max_length {
            Some((fg(short, f.color), short.len()))
        } else {
            None
        }
    } else {
        None
    }
}

pub open spec fn left_separator(f: PaneFrame) -> Seq<TerminalCharacter> {
    fg(seq![VERTICAL_LEFT], f.color)
}

pub open spec fn right_separator(f: PaneFrame) -> Seq<TerminalCharacter> {
    fg(seq![VERTICAL_RIGHT], f.color)
}

/// `text` between the separators, with a blank on each side.
pub open spec fn framed_text(f: PaneFrame, text: Seq<TerminalCharacter>) -> Seq<TerminalCharacter> {
    left_separator(f) + seq![empty_cell()] + text + seq![empty_cell()] + right_separator(f)
}

/// The middle of the title row of the main client when other clients have
/// cursors in the session: "MY FOCUS", or "ME" if that is all that fits,
/// between separators.
pub open spec fn my_focus(f: PaneFrame, max_length: nat) -> Option<(Seq<TerminalCharacter>, nat)> {
    if 12 <= max_length {
        Some((framed_text(f, fg("MY FOCUS"@, f.color)), 12))
    } else if 6 <= max_length {
        Some((framed_text(f, fg("ME"@, f.color)), 6))
    } else {
        None
    }
}

/// The cursors of the given clients, each after a blank if `gap` holds.
pub open spec fn cursors(f: PaneFrame, clients: Seq<ClientId>, gap: bool) -> Seq<TerminalCharacter>
    decreases clients.len(),
{
    if clients.len() == 0 {
        seq![]
    } else {
        cursors(f, clients.drop_last(), gap) + (if gap {
            seq![empty_cell()]
        } else {
            seq![]
        }) + client_cursor_cells(f, clients.last())
    }
}

/// The middle of the title row of the main client when other clients focus
/// this pane too: "MY FOCUS AND:" and their cursors, or "+" and their
/// cursors if that is all that fits.
pub open spec fn my_and_others_focus(f: PaneFrame, max_length: nat) -> Option<
    (Seq<TerminalCharacter>, nat),
> {
    let others = f.other_focused_clients@;
    let full_len = 13 + 2 * others.len();
    let short_len = 1 + 2 * others.len();
    if full_len + 4 <= max_length {
        Some((framed_text(f, fg("MY FOCUS AND:"@, f.color) + cursors(f, others, true)), full_len + 4))
    } else if short_len + 4 <= max_length {
        Some((framed_text(f, fg("+"@, f.color) + cursors(f, others, false)), short_len + 4))
    } else {
        None
    }
}

/// The middle of the title row of another client: who focuses this pane,
/// as "FOCUSED USER:" (or "USERS:") and their cursors between separators,
/// "U:" and their cursors if that is all that fits, or only their cursors
/// and a blank.
pub open spec fn other_focused_users(f: PaneFrame, max_length: nat) -> Option<
    (Seq<TerminalCharacter>, nat),
> {
    let others = f.other_focused_clients@;
    let full_text = if others.len() == 1 {
        "FOCUSED USER:"@
    } else {
        "FOCUSED USERS:"@
    };
    let full_len = full_text.len() + 2 * others.len();
    let middle_len = 2 + 2 * others.len();
    let short_len = 2 * others.len();
    if full_len + 4 <= max_length {
        Some((framed_text(f, fg(full_text, f.color) + cursors(f, others, true)), full_len + 4))
    } else if middle_len + 4 <= max_length {
        Some((framed_text(f, fg("U:"@, f.color) + cursors(f, others, true)), middle_len + 4))
    } else if short_len + 3 <= max_length {
        Some((left_separator(f) + cursors(f, others, true) + seq![empty_cell()] + right_separator(f), short_len + 3))
    } else {
        None
    }
}

/// The middle of the title row: whose focus the pane has.
pub open spec fn title_middle(f: PaneFrame, max_length: nat) -> Option<(Seq<TerminalCharacter>, nat)> {
    let no_others = f.other_focused_clients@.len() == 0;
    if f.is_main_client && no_others && !f.other_cursors_exist_in_session {
        None
    } else if f.is_main_client && no_others && f.other_cursors_exist_in_session {
        my_focus(f, max_length)
    } else if f.is_main_client && !no_others {
        my_and_others_focus(f, max_length)
    } else if !no_others {
        other_focused_users(f, max_length)
    } else {
        None
    }
}

/// How many characters from the start of `s`, taken one by one while the
/// width of those taken plus the next one stays within `limit`.
pub open spec fn fitting_prefix_len(s: Seq<char>, limit: int, i: nat) -> nat
    decreases s.len() - i,
{
    if i >= s.len() {
        i
    } else if unicode_str_width(s.take(i as int)) + width_or_zero(s[i as int]) > limit {
        i
    } else {
        fitting_prefix_len(s, limit, i + 1)
    }
}

/// How many characters from the end of `s`, taken one by one while the
/// width of those taken plus the next one stays within `limit`.
pub open spec fn fitting_suffix_len(s: Seq<char>, limit: int, i: nat) -> nat
    decreases s.len() - i,
{
    if i >= s.len() {
        i
    } else if unicode_str_width(s.skip(s.len() - i)) + width_or_zero(s[s.len() - 1 - i]) > limit {
        i
    } else {
        fitting_suffix_len(s, limit, i + 1)
    }
}

/// The left part of the title row: the title between blanks, or, if it
/// is too wide, its start and its end around "[..]" (or "[...]" where a
/// column is left over). Nothing if at most six columns are free or the
/// title is empty. The width of a cut title is summed as `usize`
/// arithmetic does, wrapping around.
pub open spec fn title_left_side(f: PaneFrame, max_length: nat) -> Option<(Seq<TerminalCharacter>, nat)> {
    let full_text = seq![' '] + f.title@ + seq![' '];
    if max_length <= 6 || f.title@.len() == 0 {
        None
    } else if unicode_str_width(full_text) <= max_length {
        Some((fg(full_text, f.color), unicode_str_width(full_text) as nat))
    } else {
        let half = (max_length - 4) / 2;
        let first = full_text.take(fitting_prefix_len(full_text, half, 0) as int);
        let second = full_text.skip(full_text.len() - fitting_suffix_len(full_text, half, 0));
        let first_width = unicode_str_width(first);
        let second_width = unicode_str_width(second);
        if first_width + 4 + second_width < max_length {
            Some((fg(first + "[...]"@ + second, f.color), (first_width + 5 + second_width) as nat))
        } else {
            Some((fg(first + "[..]"@ + second, f.color), ((first_width + 4 + second_width) as usize) as nat))
        }
    }
}

impl PaneFrame {
    /// A frame at `geom` with the given title and parameters, for a pane
    /// whose command has not ended.
    pub fn new(
        geom: Viewport,
        scroll_position: (usize, usize),
        main_title: String,
        frame_params: FrameParams,
    ) -> (f: PaneFrame)
        ensures
            f.geom == geom,
            f.title@ == main_title@,
            f.scroll_position == scroll_position,
            f.style == frame_params.style,
            f.color == frame_params.color,
            f.focused_client == frame_params.focused_client,
            f.is_main_client == frame_params.is_main_client,
            f.other_focused_clients@ == frame_params.other_focused_clients@,
            f.other_cursors_exist_in_session == frame_params.other_cursors_exist_in_session,
            f.exit_status is None,
    {
        PaneFrame {
            geom,
            title: main_title,
            scroll_position,
            style: frame_params.style,
            color: frame_params.color,
            focused_client: frame_params.focused_client,
            is_main_client: frame_params.is_main_client,
            other_focused_clients: frame_params.other_focused_clients,
            other_cursors_exist_in_session: frame_params.other_cursors_exist_in_session,
            exit_status: None,
        }
    }

    /// Records how the pane's command ended: with an exit code, or without
    /// one.
    pub fn add_exit_status(&mut self, exit_status: Option<i32>)
        ensures
            final(self).exit_status == (match exit_status {
                Some(code) => Some(ExitStatus::Code(code)),
                None => Some(ExitStatus::Exited),
            }),
            final(self).geom == old(self).geom,
            final(self).title@ == old(self).title@,
            final(self).scroll_position == old(self).scroll_position,
            final(self).style == old(self).style,
            final(self).color == old(self).color,
            final(self).focused_client == old(self).focused_client,
            final(self).is_main_client == old(self).is_main_client,
            final(self).other_focused_clients@ == old(self).other_focused_clients@,
            final(self).other_cursors_exist_in_session == old(self).other_cursors_exist_in_session,
    {
        self.exit_status = match exit_status {
            Some(exit_status) => Some(ExitStatus::Code(exit_status)),
            None => Some(ExitStatus::Exited),
        };
    }

    /// The colored blank that marks the cursor of `client_id`.
    fn client_cursor(&self, client_id: ClientId) -> (r: Vec<TerminalCharacter>)
        ensures
            r@ == client_cursor_cells(*self, client_id),
    {
        let color = client_id_to_colors(client_id, self.style.colors);
        let mut blank: Vec<char> = Vec::new();
        blank.push(' ');
        background_color(
            &blank,
            match color {
                Some(c) => Some(c.0),
                None => None,
            },
        )
    }

    /// The corner to draw: its rounded form if the style asks for it.
    fn get_corner(&self, corner: char) -> (c: char)
        ensures
            c == corner_for(self.style, corner),
    {
        if self.style.rounded_corners {
            if corner == TOP_RIGHT {
                TOP_RIGHT_ROUND
            } else if corner == TOP_LEFT {
                TOP_LEFT_ROUND
            } else if corner == BOTTOM_RIGHT {
                BOTTOM_RIGHT_ROUND
            } else if corner == BOTTOM_LEFT {
                BOTTOM_LEFT_ROUND
            } else {
                corner
            }
        } else {
            corner
        }
    }

    fn corner_cells(&self, corner: char) -> (r: Vec<TerminalCharacter>)
        ensures
            r@ == corner_cell(*self, corner),
    {
        foreground_char(self.get_corner(corner), self.color)
    }

    fn horizontal_fill(&self, n: usize) -> (r: Vec<TerminalCharacter>)
        ensures
            r@ == h_fill(*self, n as nat),
    {
        foreground_repeat(HORIZONTAL, n, self.color)
    }

    fn inner_width(&self) -> (n: usize)
        ensures
            n == inner_width(*self),
    {
        if self.geom.cols >= 2 {
            self.geom.cols - 2
        } else {
            0
        }
    }

    /// The exit status part of the bottom row of a held pane, and its length.
    fn first_held_title_part_full(&self, exit_status: ExitStatus) -> (r: (Vec<TerminalCharacter>, usize))
        ensures
            r.0@ == first_held_part(*self, exit_status).0,
            r.1 == first_held_part(*self, exit_status).1,
            r.1 <= 40,
    {
        proof {
            reveal_strlit(" [ ");
            reveal_strlit("EXIT CODE: ");
            reveal_strlit(" ] ");
            reveal_strlit("EXITED");
        }
        match exit_status {
            ExitStatus::Code(exit_code) => {
                let left_bracket = chars_of(" [ ");
                let exited_text = chars_of("EXIT CODE: ");
                let exit_code_text = signed_decimal_chars(exit_code as i64);
                let exit_code_color = if exit_code == 0 {
                    self.style.colors.green
                } else {
                    self.style.colors.red
                };
                let right_bracket = chars_of(" ] ");
                let mut first_part: Vec<TerminalCharacter> = Vec::new();
                first_part.append(&mut foreground_color(&left_bracket, self.color));
                first_part.append(&mut foreground_color(&exited_text, self.color));
                first_part.append(&mut foreground_color(&exit_code_text, Some(exit_code_color)));
                first_part.append(&mut foreground_color(&right_bracket, self.color));
                proof {
                    if exit_code < 0 {
                        lemma_decimal_u64((-(exit_code as int)) as nat);
                    } else {
                        lemma_decimal_u64(exit_code as nat);
                    }
                }
                let len = left_bracket.len() + exited_text.len() + exit_code_text.len() + right_bracket.len();
                (first_part, len)
            },
            ExitStatus::Exited => {
                let left_bracket = chars_of(" [ ");
                let exited_text = chars_of("EXITED");
                let right_bracket = chars_of(" ] ");
                let mut first_part: Vec<TerminalCharacter> = Vec::new();
                first_part.append(&mut foreground_color(&left_bracket, self.color));
                first_part.append(&mut foreground_color(&exited_text, Some(self.style.colors.red)));
                first_part.append(&mut foreground_color(&right_bracket, self.color));
                let len = left_bracket.len() + exited_text.len() + right_bracket.len();
                (first_part, len)
            },
        }
    }

    /// The tips part of the bottom row of a held pane, and its length.
    fn second_held_title_part_full(&self) -> (r: (Vec<TerminalCharacter>, usize))
        ensures
            r.0@ == second_held_part(*self).0,
            r.1 == second_held_part(*self).1,
    {
        proof {
            reveal_strlit("<");
            reveal_strlit("ENTER");
            reveal_strlit(">");
            reveal_strlit(" to re-run, ");
            reveal_strlit("Ctrl-c");
            reveal_strlit(" to exit ");
        }
        let left_enter_bracket = chars_of("<");
        let enter_text = chars_of("ENTER");
        let right_enter_bracket = chars_of(">");
        let enter_tip = chars_of(" to re-run, ");
        let left_break_bracket = chars_of("<");
        let break_text = chars_of("Ctrl-c");
        let right_break_bracket = chars_of(">");
        let break_tip = chars_of(" to exit ");
        let orange = Some(self.style.colors.orange);
        let mut second_part: Vec<TerminalCharacter> = Vec::new();
        second_part.append(&mut foreground_color(&left_enter_bracket, self.color));
        second_part.append(&mut foreground_color(&enter_text, orange));
        second_part.append(&mut foreground_color(&right_enter_bracket, self.color));
        second_part.append(&mut foreground_color(&enter_tip, self.color));
        second_part.append(&mut foreground_color(&left_break_bracket, self.color));
        second_part.append(&mut foreground_color(&break_text, orange));
        second_part.append(&mut foreground_color(&right_break_bracket, self.color));
        second_part.append(&mut foreground_color(&break_tip, self.color));
        let len = left_enter_bracket.len() + enter_text.len() + right_enter_bracket.len() + enter_tip.len()
            + left_break_bracket.len() + break_text.len() + right_break_bracket.len() + break_tip.len();
        (second_part, len)
    }

    /// A bottom row with nothing in it.
    fn empty_undertitle(&self, max_undertitle_length: usize) -> (r: Vec<TerminalCharacter>)
        ensures
            r@ == empty_undertitle_row(*self, max_undertitle_length as nat),
    {
        let mut ret = self.corner_cells(BOTTOM_LEFT);
        ret.append(&mut self.horizontal_fill(max_undertitle_length));
        ret.append(&mut self.corner_cells(BOTTOM_RIGHT));
        ret
    }

    /// The bottom row of a held pane; an error naming the pane's title if
    /// the pane's command has not ended.
    fn render_held_undertitle(&self) -> (r: Result<Vec<TerminalCharacter>, String>)
        ensures
            match self.exit_status {
                Some(es) => r matches Ok(row) && row@ == held_undertitle(*self, es),
                None => r matches Err(e) && e@ == "failed to render command pane status '"@ + self.title@
                    + "'"@,
            },
    {
        let max_undertitle_length = self.inner_width();
        let exit_status = match self.exit_status {
            Some(es) => es,
            None => {
                let mut message = String::from_str("failed to render command pane status '");
                message.append(self.title.as_str());
                message.append("'");
                return Err(message);
            },
        };
        let (mut first_part, first_part_len) = self.first_held_title_part_full(exit_status);
        let mut left_boundary = self.corner_cells(BOTTOM_LEFT);
        let mut right_boundary = self.corner_cells(BOTTOM_RIGHT);
        let res = if self.is_main_client {
            let (mut second_part, second_part_len) = self.second_held_title_part_full();
            let full_text_len = first_part_len + second_part_len;
            if full_text_len <= max_undertitle_length {
                let mut ret: Vec<TerminalCharacter> = Vec::new();
                ret.append(&mut left_boundary);
                ret.append(&mut first_part);
                ret.append(&mut second_part);
                ret.append(&mut self.horizontal_fill(max_undertitle_length - full_text_len));
                ret.append(&mut right_boundary);
                ret
            } else if first_part_len <= max_undertitle_length {
                let mut ret: Vec<TerminalCharacter> = Vec::new();
                ret.append(&mut left_boundary);
                ret.append(&mut first_part);
                ret.append(&mut self.horizontal_fill(max_undertitle_length - first_part_len));
                ret.append(&mut right_boundary);
                ret
            } else {
                self.empty_undertitle(max_undertitle_length)
            }
        } else {
            if first_part_len <= max_undertitle_length {
                let mut ret: Vec<TerminalCharacter> = Vec::new();
                ret.append(&mut left_boundary);
                ret.append(&mut first_part);
                ret.append(&mut self.horizontal_fill(max_undertitle_length - first_part_len));
                ret.append(&mut right_boundary);
                ret
            } else {
                self.empty_undertitle(max_undertitle_length)
            }
        };
        Ok(res)
    }

    /// A title row with a left and a right part.
    fn two_part_title_line(
        &self,
        left_side: Vec<TerminalCharacter>,
        left_side_len: usize,
        right_side: Vec<TerminalCharacter>,
        right_side_len: usize,
    ) -> (r: Vec<TerminalCharacter>)
        ensures
            r@ == two_part_row(*self, left_side@, left_side_len as nat, right_side@, right_side_len as nat),
    {
        let mut left_side = left_side;
        let mut right_side = right_side;
        let total_title_length = self.inner_width();
        let used = left_side_len as u128 + right_side_len as u128;
        let padding: usize = if used < total_title_length as u128 {
            (total_title_length as u128 - used) as usize
        } else {
            0
        };
        let mut ret = self.corner_cells(TOP_LEFT);
        ret.append(&mut left_side);
        ret.append(&mut self.horizontal_fill(padding));
        ret.append(&mut right_side);
        ret.append(&mut self.corner_cells(TOP_RIGHT));
        ret
    }

    /// A title row with a left part only.
    fn left_only_title_line(&self, left_side: Vec<TerminalCharacter>, left_side_len: usize) -> (r: Vec<
        TerminalCharacter,
    >)
        ensures
            r@ == left_only_row(*self, left_side@, left_side_len as nat),
    {
        let mut left_side = left_side;
        let total_title_length = self.inner_width();
        let padding: usize = if left_side_len < total_title_length {
            total_title_length - left_side_len
        } else {
            0
        };
        let mut ret = self.corner_cells(TOP_LEFT);
        ret.append(&mut left_side);
        ret.append(&mut self.horizontal_fill(padding));
        ret.append(&mut self.corner_cells(TOP_RIGHT));
        ret
    }

    /// A title row with nothing in it.
    fn empty_title_line(&self) -> (r: Vec<TerminalCharacter>)
        ensures
            r@ == empty_title_row(*self),
    {
        let mut ret = self.corner_cells(TOP_LEFT);
        ret.append(&mut self.horizontal_fill(self.inner_width()));
        ret.append(&mut self.corner_cells(TOP_RIGHT));
        ret
    }

    /// The right part of the title row (see `title_right_side`).
    fn render_title_right_side(&self, max_length: usize) -> (r: Option<(Vec<TerminalCharacter>, usize)>)
        ensures
            match title_right_side(*self, max_length as nat) {
                Some((cells, len)) => r matches Some(p) && p.0@ == cells && p.1 == len,
                None => r is None,
            },
    {
        if self.scroll_position.0 > 0 || self.scroll_position.1 > 0 {
            proof {
                reveal_strlit(" SCROLL: ");
                lemma_decimal_u64(self.scroll_position.0 as nat);
                lemma_decimal_u64(self.scroll_position.1 as nat);
            }
            let prefix = chars_of(" SCROLL: ");
            let position = decimal_chars(self.scroll_position.0 as u64);
            let length = decimal_chars(self.scroll_position.1 as u64);
            let mut full_indication: Vec<char> = Vec::new();
            full_indication.push(' ');
            full_indication.append(&mut position.clone());
            full_indication.push('/');
            full_indication.append(&mut length.clone());
            full_indication.push(' ');
            let mut short_indication: Vec<char> = Vec::new();
            short_indication.push(' ');
            short_indication.append(&mut position.clone());
            short_indication.push(' ');
            proof {
                assert(full_indication@ =~= scroll_texts(*self).0);
                assert(short_indication@ =~= scroll_texts(*self).1);
            }
            let full_indication_len = full_indication.len();
            let short_indication_len = short_indication.len();
            let prefix_len = prefix.len();
            if prefix_len + full_indication_len <= max_length {
                let mut text = prefix.clone();
                text.append(&mut full_indication.clone());
                Some((foreground_color(&text, self.color), prefix_len + full_indication_len))
            } else if full_indication_len <= max_length {
                Some((foreground_color(&full_indication, self.color), full_indication_len))
            } else if short_indication_len <= max_length {
                Some((foreground_color(&short_indication, self.color), short_indication_len))
            } else {
                None
            }
        } else {
            None
        }
    }

    /// `text` between the separators, with a blank on each side.
    fn separated(&self, text: Vec<TerminalCharacter>) -> (r: Vec<TerminalCharacter>)
        ensures
            r@ == framed_text(*self, text@),
    {
        let mut text = text;
        let mut ret = foreground_char(VERTICAL_LEFT, self.color);
        ret.push(empty_terminal_character());
        ret.append(&mut text);
        ret.push(empty_terminal_character());
        ret.append(&mut foreground_char(VERTICAL_RIGHT, self.color));
        ret
    }

    /// The middle of the title row of the main client when other clients
    /// have cursors in the session (see `my_focus`).
    fn render_my_focus(&self, max_length: usize) -> (r: Option<(Vec<TerminalCharacter>, usize)>)
        ensures
            match my_focus(*self, max_length as nat) {
                Some((cells, len)) => r matches Some(p) && p.0@ == cells && p.1 == len,
                None => r is None,
            },
    {
        proof {
            reveal_strlit("MY FOCUS");
            reveal_strlit("ME");
        }
        let full_indication_text = chars_of("MY FOCUS");
        let full_indication = self.separated(foreground_color(&full_indication_text, self.color));
        let full_indication_len = str_width(&full_indication_text) + 4;
        let short_indication_text = chars_of("ME");
        let short_indication = self.separated(foreground_color(&short_indication_text, self.color));
        let short_indication_len = str_width(&short_indication_text) + 4;
        if full_indication_len <= max_length {
            Some((full_indication, full_indication_len))
        } else if short_indication_len <= max_length {
            Some((short_indication, short_indication_len))
        } else {
            None
        }
    }

    /// The cursors of the other focused clients, each after a blank if
    /// `gap` holds.
    fn other_cursors(&self, gap: bool) -> (r: Vec<TerminalCharacter>)
        ensures
            r@ == cursors(*self, self.other_focused_clients@, gap),
    {
        let mut r: Vec<TerminalCharacter> = Vec::new();
        let mut i: usize = 0;
        while i < self.other_focused_clients.len()
            invariant
                i <= self.other_focused_clients@.len(),
                r@ == cursors(*self, self.other_focused_clients@.take(i as int), gap),
            decreases self.other_focused_clients@.len() - i,
        {
            let client_id = self.other_focused_clients[i];
            if gap {
                r.push(empty_terminal_character());
            }
            r.append(&mut self.client_cursor(client_id));
            proof {
                let t = self.other_focused_clients@.take(i + 1);
                assert(t.drop_last() == self.other_focused_clients@.take(i as int));
                assert(t.last() == client_id);
            }
            i = i + 1;
        }
        proof {
            assert(self.other_focused_clients@.take(self.other_focused_clients@.len() as int)
                == self.other_focused_clients@);
        }
        r
    }

    /// The middle of the title row of the main client when other clients
    /// focus this pane too (see `my_and_others_focus`).
    fn render_my_and_others_focus(&self, max_length: usize) -> (r: Option<(Vec<TerminalCharacter>, usize)>)
        ensures
            match my_and_others_focus(*self, max_length as nat) {
                Some((cells, len)) => r matches Some(p) && p.0@ == cells && p.1 == len,
                None => r is None,
            },
    {
        proof {
            reveal_strlit("MY FOCUS AND:");
            reveal_strlit("+");
        }
        let full_indication_text = chars_of("MY FOCUS AND:");
        let short_indication_text = chars_of("+");
        let n = self.other_focused_clients.len() as u128;
        let full_indication_len = str_width(&full_indication_text) as u128 + 2 * n;
        let short_indication_len = str_width(&short_indication_text) as u128 + 2 * n;
        if full_indication_len + 4 <= max_length as u128 {
            let mut full_indication = foreground_color(&full_indication_text, self.color);
            full_indication.append(&mut self.other_cursors(true));
            Some((self.separated(full_indication), (full_indication_len + 4) as usize))
        } else if short_indication_len + 4 <= max_length as u128 {
            let mut short_indication = foreground_color(&short_indication_text, self.color);
            short_indication.append(&mut self.other_cursors(false));
            Some((self.separated(short_indication), (short_indication_len + 4) as usize))
        } else {
            None
        }
    }

    /// The middle of the title row of another client (see
    /// `other_focused_users`).
    fn render_other_focused_users(&self, max_length: usize) -> (r: Option<(Vec<TerminalCharacter>, usize)>)
        ensures
            match other_focused_users(*self, max_length as nat) {
                Some((cells, len)) => r matches Some(p) && p.0@ == cells && p.1 == len,
                None => r is None,
            },
    {
        proof {
            reveal_strlit("FOCUSED USER:");
            reveal_strlit("FOCUSED USERS:");
            reveal_strlit("U:");
        }
        let full_indication_text = if self.other_focused_clients.len() == 1 {
            chars_of("FOCUSED USER:")
        } else {
            chars_of("FOCUSED USERS:")
        };
        let middle_indication_text = chars_of("U:");
        let n = self.other_focused_clients.len() as u128;
        let full_indication_len = str_width(&full_indication_text) as u128 + 2 * n;
        let middle_indication_len = str_width(&middle_indication_text) as u128 + 2 * n;
        let short_indication_len = 2 * n;
        if full_indication_len + 4 <= max_length as u128 {
            let mut full_indication = foreground_color(&full_indication_text, self.color);
            full_indication.append(&mut self.other_cursors(true));
            Some((self.separated(full_indication), (full_indication_len + 4) as usize))
        } else if middle_indication_len + 4 <= max_length as u128 {
            let mut middle_indication = foreground_color(&middle_indication_text, self.color);
            middle_indication.append(&mut self.other_cursors(true));
            Some((self.separated(middle_indication), (middle_indication_len + 4) as usize))
        } else if short_indication_len + 3 <= max_length as u128 {
            let mut short_indication = foreground_char(VERTICAL_LEFT, self.color);
            short_indication.append(&mut self.other_cursors(true));
            short_indication.push(empty_terminal_character());
            short_indication.append(&mut foreground_char(VERTICAL_RIGHT, self.color));
            Some((short_indication, (short_indication_len + 3) as usize))
        } else {
            None
        }
    }

    /// The middle of the title row (see `title_middle`).
    fn render_title_middle(&self, max_length: usize) -> (r: Option<(Vec<TerminalCharacter>, usize)>)
        ensures
            match title_middle(*self, max_length as nat) {
                Some((cells, len)) => r matches Some(p) && p.0@ == cells && p.1 == len,
                None => r is None,
            },
    {
        let no_others = self.other_focused_clients.len() == 0;
        if self.is_main_client && no_others && !self.other_cursors_exist_in_session {
            None
        } else if self.is_main_client && no_others && self.other_cursors_exist_in_session {
            self.render_my_focus(max_length)
        } else if self.is_main_client && !no_others {
            self.render_my_and_others_focus(max_length)
        } else if !no_others {
            self.render_other_focused_users(max_length)
        } else {
            None
        }
    }

    /// The left part of the title row (see `title_left_side`).
    fn render_title_left_side(&self, max_length: usize) -> (r: Option<(Vec<TerminalCharacter>, usize)>)
        ensures
            match title_left_side(*self, max_length as nat) {
                Some((cells, len)) => r matches Some(p) && p.0@ == cells && p.1 == len,
                None => r is None,
            },
            printable_ascii(self.title@) ==> match r {
                Some(p) => p.0@.len() == p.1 && p.1 <= max_length,
                None => true,
            },
    {
        proof {
            reveal_strlit("[..]");
            reveal_strlit("[...]");
        }
        let middle_truncated_sign = chars_of("[..]");
        let middle_truncated_sign_long = chars_of("[...]");
        let title = chars_of(self.title.as_str());
        let mut full_text: Vec<char> = Vec::new();
        full_text.push(' ');
        full_text.append(&mut title.clone());
        full_text.push(' ');
        let ghost s = full_text@;
        proof {
            assert(s =~= seq![' '] + self.title@ + seq![' ']);
            if printable_ascii(self.title@) {
                assert forall|k: int| 0 <= k < s.len() implies ' ' <= #[trigger] s[k] && s[k] <= '~' by {
                    if 0 < k < s.len() - 1 {
                        assert(s[k] == self.title@[k - 1]);
                    }
                }
            }
        }
        if max_length <= 6 || title.len() == 0 {
            return None;
        }
        let full_width = str_width(&full_text);
        if full_width <= max_length {
            return Some((foreground_color(&full_text, self.color), full_width));
        }
        let length_of_each_half = (max_length - str_width(&middle_truncated_sign)) / 2;

        let mut first_part: Vec<char> = Vec::new();
        let mut i: usize = 0;
        while i < full_text.len()
            invariant
                full_text@ == s,
                i <= s.len(),
                first_part@ == s.take(i as int),
                fitting_prefix_len(s, length_of_each_half as int, i as nat) == fitting_prefix_len(
                    s,
                    length_of_each_half as int,
                    0,
                ),
                printable_ascii(s) ==> i <= length_of_each_half,
            ensures
                first_part@ == s.take(fitting_prefix_len(s, length_of_each_half as int, 0) as int),
                printable_ascii(s) ==> first_part@.len() <= length_of_each_half,
            decreases s.len() - i,
        {
            let c = full_text[i];
            let c_width: usize = match char_width(c) {
                Some(w) => w,
                None => 0,
            };
            proof {
                if printable_ascii(s) {
                    assert(' ' <= s[i as int] && s[i as int] <= '~');
                    assert forall|k: int| 0 <= k < first_part@.len() implies ' ' <= #[trigger] first_part@[k]
                        && first_part@[k] <= '~' by {
                        assert(first_part@[k] == s[k]);
                    }
                }
            }
            if str_width(&first_part) as u128 + c_width as u128 > length_of_each_half as u128 {
                break;
            }
            first_part.push(c);
            proof {
                assert(first_part@ =~= s.take(i + 1));
            }
            i = i + 1;
        }

        let mut second_part: Vec<char> = Vec::new();
        let mut k: usize = 0;
        while k < full_text.len()
            invariant
                full_text@ == s,
                k <= s.len(),
                second_part@ == s.skip(s.len() - k),
                fitting_suffix_len(s, length_of_each_half as int, k as nat) == fitting_suffix_len(
                    s,
                    length_of_each_half as int,
                    0,
                ),
                printable_ascii(s) ==> k <= length_of_each_half,
            ensures
                second_part@ == s.skip(s.len() - fitting_suffix_len(s, length_of_each_half as int, 0)),
                printable_ascii(s) ==> second_part@.len() <= length_of_each_half,
            decreases s.len() - k,
        {
            let c = full_text[full_text.len() - 1 - k];
            let c_width: usize = match char_width(c) {
                Some(w) => w,
                None => 0,
            };
            proof {
                if printable_ascii(s) {
                    assert(' ' <= s[s.len() - 1 - k] && s[s.len() - 1 - k] <= '~');
                    assert forall|m: int| 0 <= m < second_part@.len() implies ' ' <= #[trigger] second_part@[m]
                        && second_part@[m] <= '~' by {
                        assert(second_part@[m] == s[s.len() - k + m]);
                    }
                }
            }
            if str_width(&second_part) as u128 + c_width as u128 > length_of_each_half as u128 {
                break;
            }
            second_part.insert(0, c);
            proof {
                assert(second_part@ =~= s.skip(s.len() - (k + 1)));
            }
            k = k + 1;
        }

        proof {
            if printable_ascii(s) {
                assert forall|m: int| 0 <= m < first_part@.len() implies ' ' <= #[trigger] first_part@[m]
                    && first_part@[m] <= '~' by {
                    assert(first_part@[m] == s[m]);
                }
                assert forall|m: int| 0 <= m < second_part@.len() implies ' ' <= #[trigger] second_part@[m]
                    && second_part@[m] <= '~' by {
                    assert(second_part@[m] == s[s.len() - second_part@.len() + m]);
                }
            }
        }
        let first_width = str_width(&first_part) as u128;
        let second_width = str_width(&second_part) as u128;
        let mut text = first_part.clone();
        if first_width + 4 + second_width < max_length as u128 {
            text.append(&mut middle_truncated_sign_long.clone());
            text.append(&mut second_part.clone());
            Some((foreground_color(&text, self.color), (first_width + 5 + second_width) as usize))
        } else {
            text.append(&mut middle_truncated_sign.clone());
            text.append(&mut second_part.clone());
            Some((foreground_color(&text, self.color), (first_width + 4 + second_width) as usize))
        }
    }
}

// ----- the title row -----

/// The parts of a title row: the column each starts at, its cells and the
/// columns it takes, in the order in which they are tried.
pub open spec fn segments(v: Seq<(usize, Vec<TerminalCharacter>, usize)>) -> Seq<
    (int, Seq<TerminalCharacter>, int),
> {
    v.map_values(|s: (usize, Vec<TerminalCharacter>, usize)| (s.0 as int, s.1@, s.2 as int))
}

/// The first part, from the `k`-th on, that starts at column `col`.
pub open spec fn seg_at(segs: Seq<(int, Seq<TerminalCharacter>, int)>, col: int, k: nat) -> Option<nat>
    decreases segs.len() - k,
{
    if k >= segs.len() {
        None
    } else if segs[k as int].0 == col {
        Some(k)
    } else {
        seg_at(segs, col, k + 1)
    }
}

/// The title row drawn column by column from `col` to the right corner: the
/// left corner at the frame's first column, the right corner at its last,
/// a part wherever one starts (then the drawing goes on after it), and a
/// horizontal boundary elsewhere. `None` where the drawing never reaches
/// the right corner: a part that takes no columns, or one that runs past
/// the corner.
pub open spec fn row_from(f: PaneFrame, segs: Seq<(int, Seq<TerminalCharacter>, int)>, col: int) -> Option<
    Seq<TerminalCharacter>,
>
    decreases f.geom.x + f.geom.cols - col,
{
    let last = f.geom.x + f.geom.cols - 1;
    if col < f.geom.x || col > last {
        None
    } else if col == f.geom.x {
        if col == last {
            Some(corner_cell(f, TOP_LEFT))
        } else {
            match row_from(f, segs, col + 1) {
                Some(rest) => Some(corner_cell(f, TOP_LEFT) + rest),
                None => None,
            }
        }
    } else if col == last {
        Some(corner_cell(f, TOP_RIGHT))
    } else {
        match seg_at(segs, col, 0) {
            Some(k) => {
                let len = segs[k as int].2;
                if len <= 0 || col + len > last {
                    None
                } else {
                    match row_from(f, segs, col + len) {
                        Some(rest) => Some(segs[k as int].1 + rest),
                        None => None,
                    }
                }
            },
            None => match row_from(f, segs, col + 1) {
                Some(rest) => Some(h_fill(f, 1) + rest),
                None => None,
            },
        }
    }
}

pub(crate) proof fn lemma_seg_at(segs: Seq<(int, Seq<TerminalCharacter>, int)>, col: int, k: nat)
    ensures
        seg_at(segs, col, k) matches Some(i) ==> k <= i < segs.len() && segs[i as int].0 == col,
    decreases segs.len() - k,
{
    if k < segs.len() && segs[k as int].0 != col {
        lemma_seg_at(segs, col, k + 1);
    }
}

/// The frame's columns end within the integers that a column can be.
pub open spec fn row_fits(f: PaneFrame) -> bool {
    1 <= f.geom.x + f.geom.cols <= usize::MAX
}

/// The column at which the middle of the title row starts.
pub open spec fn middle_start(f: PaneFrame, middle_len: nat) -> int {
    f.geom.x + inner_width(f) / 2 - middle_len / 2 + 1
}

/// The column at which the right part of the title row starts.
pub open spec fn right_start(f: PaneFrame, right_len: nat) -> int {
    sat_sub(f.geom.x + f.geom.cols - 1, right_len as int) as int
}

/// A title row with a left part, a middle and a right part; `None` where
/// the columns cannot be computed or the row cannot be drawn.
pub open spec fn three_part_row(
    f: PaneFrame,
    left: Seq<TerminalCharacter>,
    left_len: nat,
    middle: Seq<TerminalCharacter>,
    middle_len: nat,
    right: Seq<TerminalCharacter>,
    right_len: nat,
) -> Option<Seq<TerminalCharacter>> {
    if !row_fits(f) || f.geom.x + inner_width(f) / 2 < middle_len / 2 {
        None
    } else {
        row_from(
            f,
            seq![
                (f.geom.x + 1, left, left_len as int),
                (middle_start(f, middle_len), middle, middle_len as int),
                (right_start(f, right_len), right, right_len as int),
            ],
            f.geom.x as int,
        )
    }
}

/// A title row with a left part and a middle.
pub open spec fn left_and_middle_row(
    f: PaneFrame,
    left: Seq<TerminalCharacter>,
    left_len: nat,
    middle: Seq<TerminalCharacter>,
    middle_len: nat,
) -> Option<Seq<TerminalCharacter>> {
    if !row_fits(f) || f.geom.x + inner_width(f) / 2 < middle_len / 2 {
        None
    } else {
        row_from(
            f,
            seq![
                (f.geom.x + 1, left, left_len as int),
                (middle_start(f, middle_len), middle, middle_len as int),
            ],
            f.geom.x as int,
        )
    }
}

/// A title row with a middle only.
pub open spec fn middle_only_row(f: PaneFrame, middle: Seq<TerminalCharacter>, middle_len: nat) -> Option<
    Seq<TerminalCharacter>,
> {
    if !row_fits(f) || f.geom.x + inner_width(f) / 2 < middle_len / 2 {
        None
    } else {
        row_from(f, seq![(middle_start(f, middle_len), middle, middle_len as int)], f.geom.x as int)
    }
}

/// The title row around a middle part: the left and right parts get what
/// is left on either side of it.
pub open spec fn title_with_middle(f: PaneFrame, middle: Seq<TerminalCharacter>, middle_len: nat) -> Option<
    Seq<TerminalCharacter>,
> {
    let side = sat_sub(inner_width(f) as int, middle_len + 2int) / 2;
    match title_left_side(f, side) {
        Some((left, left_len)) => match title_right_side(f, side) {
            Some((right, right_len)) => three_part_row(f, left, left_len, middle, middle_len, right, right_len),
            None => left_and_middle_row(f, left, left_len, middle, middle_len),
        },
        None => middle_only_row(f, middle, middle_len),
    }
}

/// The columns left for the right part of a title row without a middle,
/// one column apart from a left part of `left_len` columns (the sum wraps
/// as `usize` arithmetic does).
pub open spec fn space_after_left(f: PaneFrame, left_len: nat) -> nat {
    sat_sub(
        inner_width(f) as int,
        if left_len < usize::MAX {
            left_len + 1int
        } else {
            0int
        },
    )
}

/// The title row when nobody else focuses the pane: the title, and the
/// scroll position if there is room for it.
pub open spec fn title_without_middle(f: PaneFrame) -> Seq<TerminalCharacter> {
    match title_left_side(f, inner_width(f)) {
        Some((left, left_len)) => match title_right_side(f, space_after_left(f, left_len)) {
            Some((right, right_len)) => two_part_row(f, left, left_len, right, right_len),
            None => left_only_row(f, left, left_len),
        },
        None => empty_title_row(f),
    }
}

/// The frame's title row has no middle part, its title is printable ASCII
/// and the frame has room for its two corners: then the title row spans
/// the frame.
pub open spec fn spans_without_middle(f: PaneFrame) -> bool {
    &&& title_middle(f, inner_width(f)) is None
    &&& printable_ascii(f.title@)
    &&& f.geom.cols >= 2
}

/// The title row of the frame; `None` where it cannot be drawn.
pub open spec fn title_row(f: PaneFrame) -> Option<Seq<TerminalCharacter>> {
    match title_middle(f, inner_width(f)) {
        Some((middle, middle_len)) => title_with_middle(f, middle, middle_len),
        None => Some(title_without_middle(f)),
    }
}

/// The index of the first part of `segs` that starts at `col`.
fn find_segment(segs: &Vec<(usize, Vec<TerminalCharacter>, usize)>, col: usize) -> (r: Option<usize>)
    ensures
        match r {
            Some(k) => seg_at(segments(segs@), col as int, 0) == Some(k as nat),
            None => seg_at(segments(segs@), col as int, 0) is None,
        },
{
    let ghost s = segments(segs@);
    let mut i: usize = 0;
    while i < segs.len()
        invariant
            s == segments(segs@),
            i <= segs@.len(),
            seg_at(s, col as int, i as nat) == seg_at(s, col as int, 0),
        decreases segs@.len() - i,
    {
        if segs[i].0 == col {
            return Some(i);
        }
        i = i + 1;
    }
    None
}

/// Appends a copy of `cells` to `out`.
fn append_cells(out: &mut Vec<TerminalCharacter>, cells: &Vec<TerminalCharacter>)
    ensures
        final(out)@ == old(out)@ + cells@,
{
    let ghost start = out@;
    let mut i: usize = 0;
    while i < cells.len()
        invariant
            i <= cells@.len(),
            out@ == start + cells@.take(i as int),
        decreases cells@.len() - i,
    {
        out.push(cells[i]);
        proof {
            assert(start + cells@.take(i + 1) =~= (start + cells@.take(i as int)).push(cells@[i as int]));
        }
        i = i + 1;
    }
    proof {
        assert(cells@.take(cells@.len() as int) =~= cells@);
    }
}

impl PaneFrame {
    /// Draws the title row with the given parts (see `row_from`).
    fn draw_title_row(&self, segs: &Vec<(usize, Vec<TerminalCharacter>, usize)>) -> (r: Option<
        Vec<TerminalCharacter>,
    >)
        requires
            row_fits(*self),
        ensures
            match row_from(*self, segments(segs@), self.geom.x as int) {
                Some(cells) => r matches Some(v) && v@ == cells,
                None => r is None,
            },
    {
        let ghost s = segments(segs@);
        let x = self.geom.x;
        if self.geom.cols == 0 {
            return None;
        }
        let last = x + self.geom.cols - 1;
        let mut out: Vec<TerminalCharacter> = Vec::new();
        let mut col = x;
        proof {
            match row_from(*self, s, x as int) {
                Some(rest) => {
                    assert(out@ + rest =~= rest);
                },
                None => {},
            }
        }
        loop
            invariant
                s == segments(segs@),
                x == self.geom.x,
                last == self.geom.x + self.geom.cols - 1,
                x <= col <= last,
                row_from(*self, s, x as int) == (match row_from(*self, s, col as int) {
                    Some(rest) => Some(out@ + rest),
                    None => None,
                }),
            decreases last - col,
        {
            let ghost before = out@;
            if col == x {
                out.append(&mut self.corner_cells(TOP_LEFT));
                if col == last {
                    return Some(out);
                }
                proof {
                    match row_from(*self, s, col + 1) {
                        Some(rest) => {
                            assert(before + (corner_cell(*self, TOP_LEFT) + rest) =~= out@ + rest);
                        },
                        None => {},
                    }
                }
                col = col + 1;
            } else if col == last {
                out.append(&mut self.corner_cells(TOP_RIGHT));
                return Some(out);
            } else {
                proof {
                    lemma_seg_at(s, col as int, 0);
                }
                match find_segment(segs, col) {
                    Some(k) => {
                        let len = segs[k].2;
                        proof {
                            assert(s[k as int] == (segs@[k as int].0 as int, segs@[k as int].1@, len as int));
                        }
                        if len == 0 || len > last - col {
                            return None;
                        }
                        append_cells(&mut out, &segs[k].1);
                        proof {
                            assert(s[k as int].1 == segs@[k as int].1@);
                            match row_from(*self, s, col + len) {
                                Some(rest) => {
                                    assert(before + (s[k as int].1 + rest) =~= out@ + rest);
                                },
                                None => {},
                            }
                        }
                        col = col + len;
                    },
                    None => {
                        out.append(&mut self.horizontal_fill(1));
                        proof {
                            match row_from(*self, s, col + 1) {
                                Some(rest) => {
                                    assert(before + (h_fill(*self, 1) + rest) =~= out@ + rest);
                                },
                                None => {},
                            }
                        }
                        col = col + 1;
                    },
                }
            }
        }
    }

    /// The columns at which a middle of `middle_len` columns starts;
    /// `None` where the frame's columns do not fit or the middle is wider
    /// than the frame's left half allows.
    fn middle_start_position(&self, middle_len: usize) -> (r: Option<usize>)
        ensures
            match r {
                Some(m) => row_fits(*self) && self.geom.cols >= 1 && self.geom.x + inner_width(*self) / 2
                    >= middle_len / 2 && m == middle_start(*self, middle_len as nat),
                None => !row_fits(*self) || self.geom.cols == 0 || self.geom.x + inner_width(*self) / 2
                    < middle_len / 2,
            },
    {
        let x = self.geom.x;
        let cols = self.geom.cols;
        if cols == 0 || x > usize::MAX - cols {
            return None;
        }
        let total = self.inner_width();
        if x + total / 2 < middle_len / 2 {
            return None;
        }
        Some(x + total / 2 - middle_len / 2 + 1)
    }

    /// A title row with a left part, a middle and a right part.
    fn three_part_title_line(
        &self,
        left_side: Vec<TerminalCharacter>,
        left_side_len: usize,
        middle: Vec<TerminalCharacter>,
        middle_len: usize,
        right_side: Vec<TerminalCharacter>,
        right_side_len: usize,
    ) -> (r: Option<Vec<TerminalCharacter>>)
        ensures
            match three_part_row(
                *self,
                left_side@,
                left_side_len as nat,
                middle@,
                middle_len as nat,
                right_side@,
                right_side_len as nat,
            ) {
                Some(cells) => r matches Some(v) && v@ == cells,
                None => r is None,
            },
    {
        let middle_start_position = match self.middle_start_position(middle_len) {
            Some(m) => m,
            None => {
                return None;
            },
        };
        let x = self.geom.x;
        let last = x + self.geom.cols - 1;
        let right_side_start_position = if last >= right_side_len {
            last - right_side_len
        } else {
            0
        };
        let ghost l = left_side@;
        let ghost m = middle@;
        let ghost rt = right_side@;
        let mut segs: Vec<(usize, Vec<TerminalCharacter>, usize)> = Vec::new();
        segs.push((x + 1, left_side, left_side_len));
        segs.push((middle_start_position, middle, middle_len));
        segs.push((right_side_start_position, right_side, right_side_len));
        proof {
            assert(segments(segs@) =~= seq![
                (x + 1, l, left_side_len as int),
                (middle_start(*self, middle_len as nat), m, middle_len as int),
                (right_start(*self, right_side_len as nat), rt, right_side_len as int),
            ]);
        }
        self.draw_title_row(&segs)
    }

    /// A title row with a left part and a middle.
    fn left_and_middle_title_line(
        &self,
        left_side: Vec<TerminalCharacter>,
        left_side_len: usize,
        middle: Vec<TerminalCharacter>,
        middle_len: usize,
    ) -> (r: Option<Vec<TerminalCharacter>>)
        ensures
            match left_and_middle_row(*self, left_side@, left_side_len as nat, middle@, middle_len as nat) {
                Some(cells) => r matches Some(v) && v@ == cells,
                None => r is None,
            },
    {
        let middle_start_position = match self.middle_start_position(middle_len) {
            Some(m) => m,
            None => {
                return None;
            },
        };
        let x = self.geom.x;
        let ghost l = left_side@;
        let ghost m = middle@;
        let mut segs: Vec<(usize, Vec<TerminalCharacter>, usize)> = Vec::new();
        segs.push((x + 1, left_side, left_side_len));
        segs.push((middle_start_position, middle, middle_len));
        proof {
            assert(segments(segs@) =~= seq![
                (x + 1, l, left_side_len as int),
                (middle_start(*self, middle_len as nat), m, middle_len as int),
            ]);
        }
        self.draw_title_row(&segs)
    }

    /// A title row with a middle only.
    fn middle_only_title_line(&self, middle: Vec<TerminalCharacter>, middle_len: usize) -> (r: Option<
        Vec<TerminalCharacter>,
    >)
        ensures
            match middle_only_row(*self, middle@, middle_len as nat) {
                Some(cells) => r matches Some(v) && v@ == cells,
                None => r is None,
            },
    {
        let middle_start_position = match self.middle_start_position(middle_len) {
            Some(m) => m,
            None => {
                return None;
            },
        };
        let ghost m = middle@;
        let mut segs: Vec<(usize, Vec<TerminalCharacter>, usize)> = Vec::new();
        segs.push((middle_start_position, middle, middle_len));
        proof {
            assert(segments(segs@) =~= seq![(middle_start(*self, middle_len as nat), m, middle_len as int)]);
        }
        self.draw_title_row(&segs)
    }

    /// The title row around a middle part (see `title_with_middle`).
    fn title_line_with_middle(&self, middle: Vec<TerminalCharacter>, middle_len: usize) -> (r: Option<
        Vec<TerminalCharacter>,
    >)
        requires
            middle_len <= inner_width(*self),
        ensures
            match title_with_middle(*self, middle@, middle_len as nat) {
                Some(cells) => r matches Some(v) && v@ == cells,
                None => r is None,
            },
    {
        let total_title_length = self.inner_width();
        let length_of_each_side = if total_title_length >= middle_len + 2 {
            (total_title_length - (middle_len + 2)) / 2
        } else {
            0
        };
        let left_side = self.render_title_left_side(length_of_each_side);
        let right_side = self.render_title_right_side(length_of_each_side);
        match left_side {
            Some((left_side, left_side_len)) => match right_side {
                Some((right_side, right_side_len)) => self.three_part_title_line(
                    left_side,
                    left_side_len,
                    middle,
                    middle_len,
                    right_side,
                    right_side_len,
                ),
                None => self.left_and_middle_title_line(left_side, left_side_len, middle, middle_len),
            },
            None => self.middle_only_title_line(middle, middle_len),
        }
    }

    /// The title row when nobody else focuses the pane (see
    /// `title_without_middle`).
    fn title_line_without_middle(&self) -> (r: Vec<TerminalCharacter>)
        ensures
            r@ == title_without_middle(*self),
            printable_ascii(self.title@) && self.geom.cols >= 2 ==> r@.len() == self.geom.cols,
    {
        proof {
            reveal_strlit(" SCROLL: ");
        }
        let total_title_length = self.inner_width();
        match self.render_title_left_side(total_title_length) {
            Some((left_side, left_side_len)) => {
                let ghost left_cells = left_side@;
                let separated_len = left_side_len.wrapping_add(1);
                let space_left = if total_title_length >= separated_len {
                    total_title_length - separated_len
                } else {
                    0
                };
                match self.render_title_right_side(space_left) {
                    Some((right_side, right_side_len)) => {
                        let ghost right_cells = right_side@;
                        let r = self.two_part_title_line(left_side, left_side_len, right_side, right_side_len);
                        proof {
                            if printable_ascii(self.title@) && self.geom.cols >= 2 {
                                assert(right_cells.len() == right_side_len);
                                assert(left_cells.len() + right_cells.len() <= total_title_length);
                            }
                        }
                        r
                    },
                    None => self.left_only_title_line(left_side, left_side_len),
                }
            },
            None => self.empty_title_line(),
        }
    }

    /// The title row of the frame (see `title_row`).
    fn render_title(&self) -> (r: Option<Vec<TerminalCharacter>>)
        ensures
            match title_row(*self) {
                Some(cells) => r matches Some(v) && v@ == cells,
                None => r is None,
            },
            spans_without_middle(*self) ==> (r matches Some(v) && v@.len() == self.geom.cols),
    {
        let total_title_length = self.inner_width();
        match self.render_title_middle(total_title_length) {
            Some((middle, middle_length)) => self.title_line_with_middle(middle, middle_length),
            None => Some(self.title_line_without_middle()),
        }
    }

    /// The bottom row of a frame whose pane's command has not ended.
    fn bottom_boundary(&self) -> (r: Vec<TerminalCharacter>)
        ensures
            r@ == bottom_row(*self),
    {
        let cols = self.geom.cols;
        let mut bottom: Vec<TerminalCharacter> = Vec::new();
        let mut col: usize = 0;
        while col < cols
            invariant
                cols == self.geom.cols,
                col <= cols,
                bottom@ == fg(Seq::new(col as nat, |i: int| bottom_char(*self, i)), self.color),
            decreases cols - col,
        {
            let boundary = if col == 0 {
                self.get_corner(BOTTOM_LEFT)
            } else if col == cols - 1 {
                self.get_corner(BOTTOM_RIGHT)
            } else {
                HORIZONTAL
            };
            bottom.append(&mut foreground_char(boundary, self.color));
            proof {
                assert(Seq::new((col + 1) as nat, |i: int| bottom_char(*self, i)) =~= Seq::new(
                    col as nat,
                    |i: int| bottom_char(*self, i),
                ).push(boundary));
                assert(fg(Seq::new(col as nat, |i: int| bottom_char(*self, i)).push(boundary), self.color)
                    =~= fg(Seq::new(col as nat, |i: int| bottom_char(*self, i)), self.color) + fg(
                    seq![boundary],
                    self.color,
                ));
            }
            col = col + 1;
        }
        bottom
    }

    /// The chunks that draw the frame, row by row from the top: the title
    /// row; a boundary character at each side of every row between; the
    /// bottom row, which shows the exit status of a held command. The
    /// second part of the result is always `None`.
    pub fn render(&self) -> (r: Result<(Vec<CharacterChunk>, Option<String>), String>)
        requires
            can_render(*self),
        ensures
            r matches Ok((chunks, extra)) && extra is None && chunks@.map_values(
                |c: CharacterChunk| chunk_view(c),
            ) == frame_chunks(*self, (match title_row(*self) {
                Some(t) => t,
                None => seq![],
            }), self.geom.rows as nat),
            self.geom.rows >= 1 && spans_without_middle(*self) ==> (r matches Ok((chunks, _))
                && chunks@[0].terminal_characters@.len() == self.geom.cols),
    {
        let ghost t = match title_row(*self) {
            Some(t) => t,
            None => seq![],
        };
        let rows = self.geom.rows;
        let mut character_chunks: Vec<CharacterChunk> = Vec::new();
        let mut row: usize = 0;
        while row < rows
            invariant
                rows == self.geom.rows,
                can_render(*self),
                t == (match title_row(*self) {
                    Some(t) => t,
                    None => seq![],
                }),
                row <= rows,
                character_chunks@.map_values(|c: CharacterChunk| chunk_view(c)) == frame_chunks(
                    *self,
                    t,
                    row as nat,
                ),
                row >= 1 && spans_without_middle(*self) ==> character_chunks@.len() >= 1
                    && character_chunks@[0].terminal_characters@.len() == self.geom.cols,
            decreases rows - row,
        {
            let ghost before = character_chunks@;
            let x = self.geom.x;
            let y = self.geom.y + row;
            if row == 0 {
                let title = match self.render_title() {
                    Some(title) => title,
                    None => {
                        return Err(String::new());
                    },
                };
                character_chunks.push(CharacterChunk { terminal_characters: title, x, y });
            } else if row == rows - 1 {
                let bottom = match self.exit_status {
                    Some(_) => match self.render_held_undertitle() {
                        Ok(undertitle) => undertitle,
                        Err(_) => self.bottom_boundary(),
                    },
                    None => self.bottom_boundary(),
                };
                character_chunks.push(CharacterChunk { terminal_characters: bottom, x, y });
            } else {
                let boundary_character_left = foreground_char(VERTICAL, self.color);
                let boundary_character_right = foreground_char(VERTICAL, self.color);
                character_chunks.push(CharacterChunk { terminal_characters: boundary_character_left, x, y });
                let right_x = if self.geom.cols >= 1 {
                    x + self.geom.cols - 1
                } else if x >= 1 {
                    x - 1
                } else {
                    0
                };
                character_chunks.push(
                    CharacterChunk { terminal_characters: boundary_character_right, x: right_x, y },
                );
            }
            proof {
                assert(character_chunks@.map_values(|c: CharacterChunk| chunk_view(c)) =~= before.map_values(
                    |c: CharacterChunk| chunk_view(c),
                ) + row_chunks(*self, t, row as int));
            }
            row = row + 1;
        }
        Ok((character_chunks, None))
    }

    /// The frame's chunks as `render` draws them, where the frame can be
    /// drawn; `None` where it cannot (see `can_render`).
    pub fn try_render(&self) -> (r: Option<(Vec<CharacterChunk>, Option<String>)>)
        ensures
            r is Some <==> can_render(*self),
            self.geom.rows >= 1 && spans_without_middle(*self) ==> (r matches Some((chunks, _))
                ==> chunks@[0].terminal_characters@.len() == self.geom.cols),
            r matches Some((chunks, extra)) ==> extra is None && chunks@.map_values(
                |c: CharacterChunk| chunk_view(c),
            ) == frame_chunks(*self, (match title_row(*self) {
                Some(t) => t,
                None => seq![],
            }), self.geom.rows as nat),
    {
        let rows = self.geom.rows;
        if rows > 0 {
            if self.render_title().is_none() || self.geom.y > usize::MAX - (rows - 1) {
                return None;
            }
        }
        if rows > 2 && self.geom.x > usize::MAX - self.geom.cols {
            return None;
        }
        match self.render() {
            Ok(rendered) => Some(rendered),
            Err(_) => None,
        }
    }
}

/// The character at column `col` of the bottom row of a frame whose pane's
/// command has not ended.
pub open spec fn bottom_char(f: PaneFrame, col: int) -> char {
    if col == 0 {
        corner_for(f.style, BOTTOM_LEFT)
    } else if col == f.geom.cols - 1 {
        corner_for(f.style, BOTTOM_RIGHT)
    } else {
        HORIZONTAL
    }
}

/// The bottom row of a frame whose pane's command has not ended: its
/// corners and a horizontal boundary between them.
pub open spec fn bottom_row(f: PaneFrame) -> Seq<TerminalCharacter> {
    fg(Seq::new(f.geom.cols as nat, |i: int| bottom_char(f, i)), f.color)
}

/// A chunk as its cells and the column and row it starts at.
pub open spec fn chunk_view(c: CharacterChunk) -> (Seq<TerminalCharacter>, int, int) {
    (c.terminal_characters@, c.x as int, c.y as int)
}

/// The chunks that draw row `row` of the frame, whose title row is `title`.
pub open spec fn row_chunks(f: PaneFrame, title: Seq<TerminalCharacter>, row: int) -> Seq<
    (Seq<TerminalCharacter>, int, int),
> {
    let x = f.geom.x as int;
    let y = f.geom.y + row;
    if row == 0 {
        seq![(title, x, y)]
    } else if row == f.geom.rows - 1 {
        match f.exit_status {
            Some(es) => seq![(held_undertitle(f, es), x, y)],
            None => seq![(bottom_row(f), x, y)],
        }
    } else {
        seq![
            (fg(seq![VERTICAL], f.color), x, y),
            (fg(seq![VERTICAL], f.color), sat_sub(f.geom.x + f.geom.cols, 1) as int, y),
        ]
    }
}

/// The chunks that draw the first `n` rows of the frame, whose title row is
/// `title`.
pub open spec fn frame_chunks(f: PaneFrame, title: Seq<TerminalCharacter>, n: nat) -> Seq<
    (Seq<TerminalCharacter>, int, int),
>
    decreases n,
{
    if n == 0 {
        seq![]
    } else {
        frame_chunks(f, title, (n - 1) as nat) + row_chunks(f, title, n - 1)
    }
}

/// The frame can be drawn: its title row can be, its rows are numbered
/// within `usize`, and so are its columns where a row has a right side.
pub open spec fn can_render(f: PaneFrame) -> bool {
    &&& f.geom.rows > 0 ==> title_row(f) is Some && f.geom.y + f.geom.rows - 1 <= usize::MAX
    &&& f.geom.rows > 2 ==> f.geom.x + f.geom.cols <= usize::MAX
}

} // verus!
