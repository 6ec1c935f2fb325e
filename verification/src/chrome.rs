//! Chrome styles and the per-chrome constants of panels, dialogs and toasts.
use vstd::prelude::*;

verus! {

/// How surfaces are separated: by background layers (flat) or drawn borders.
#[derive(Clone, Copy, Debug, PartialEq, Eq, Structural)]
pub enum ChromeStyle {
    Flat,
    Bordered,
}

/// The `[ui]` color-mode setting.
#[derive(Clone, Copy, Debug, PartialEq, Eq, Structural)]
pub enum ColorMode {
    Auto,
    Dark,
    Light,
}

/// True when the active theme separates surfaces by background layers
/// instead of drawn borders.
pub fn flat_chrome(chrome: ChromeStyle) -> (flat: bool)
    ensures
        flat == (chrome == ChromeStyle::Flat),
{
    match chrome {
        ChromeStyle::Flat => true,
        ChromeStyle::Bordered => false,
    }
}

/// The marker shown before a selected list row: a bullet on flat chrome, the
/// classic `>` on bordered.
pub fn list_highlight_symbol(chrome: ChromeStyle) -> (symbol: &'static str)
    ensures
        symbol == (if chrome == ChromeStyle::Flat {
            "● "
        } else {
            ">"
        }),
{
    if flat_chrome(chrome) {
        "● "
    } else {
        ">"
    }
}

/// Rows a dialog's frame consumes above and below its content: the two border
/// rows when bordered; flat trades them for a padding row, the title row and a
/// blank row on top, plus a padding row below the content.
pub fn dialog_frame_rows(chrome: ChromeStyle) -> (rows: u16)
    ensures
        rows == (if chrome == ChromeStyle::Flat {
            4u16
        } else {
            2u16
        }),
{
    if flat_chrome(chrome) {
        4
    } else {
        2
    }
}

/// Rows occupied by one journal's bordered box (top border, name, bottom border).
pub const JOURNAL_BOX_HEIGHT: u16 = 3;

/// Rows per journal row: flat cards add a blank separator row below the
/// three-row box so adjacent cards read as distinct blocks.
pub fn journal_row_height(chrome: ChromeStyle) -> (height: u16)
    ensures
        height == (if chrome == ChromeStyle::Flat {
            JOURNAL_BOX_HEIGHT + 1
        } else {
            JOURNAL_BOX_HEIGHT as int
        }),
{
    if flat_chrome(chrome) {
        JOURNAL_BOX_HEIGHT + 1
    } else {
        JOURNAL_BOX_HEIGHT
    }
}

/// Widest a toast gets; narrower terminals shrink it further.
pub const TOAST_MAX_WIDTH: u16 = 44;

/// The width of a toast card given the terminal width: capped at
/// `TOAST_MAX_WIDTH`, shrinking on narrow terminals.
pub fn card_width(area_width: u16) -> (width: u16)
    ensures
        width == (if area_width < 6 {
            0
        } else if area_width - 6 < TOAST_MAX_WIDTH {
            area_width - 6
        } else {
            TOAST_MAX_WIDTH as int
        }),
{
    let shrunk = area_width.saturating_sub(6);
    if TOAST_MAX_WIDTH < shrunk {
        TOAST_MAX_WIDTH
    } else {
        shrunk
    }
}

/// The columns the toast countdown line spans: the card's inner width between
/// its two-column side insets; `0` when no toast fits.
pub fn countdown_cols(area_width: u16) -> (cols: u16)
    ensures
        cols == (if card_width_spec(area_width as int) < 4 {
            0
        } else {
            card_width_spec(area_width as int) - 4
        }),
{
    card_width(area_width).saturating_sub(4)
}

/// `card_width` as a spec value.
pub open spec fn card_width_spec(area_width: int) -> int {
    if area_width < 6 {
        0
    } else if area_width - 6 < TOAST_MAX_WIDTH {
        area_width - 6
    } else {
        TOAST_MAX_WIDTH as int
    }
}

} // verus!
