//! The full-screen startup modals — unlock, device-access notices and the
//! encryption-disabled notice — as plain layouts: the outer frame's title and
//! key hints, the centered container's title and size, and the text it shows.
use vstd::prelude::*;
use crate::chrome::ChromeStyle;
use crate::geometry::{Rect, sat_add_u16, sat_sub};
use crate::text::{repeat_char, repeat_string, string_of};
use crate::wrap::{first_lines, strings_view, wrap_text, wrapped_lines};

verus! {

/// The product name on every startup modal's frame.
pub const BRAND: &'static str = "Notema";

/// The command a device without a usable key runs to request access.
pub const ENROLL_CMD: &'static str = "notema encryption device enroll";

/// The command, followed by the device's name, that approves a waiting device.
pub const APPROVE_CMD: &'static str = "notema encryption device approve";

/// The command that turns encryption back on.
pub const ENABLE_CMD: &'static str = "notema encryption enable";

/// Widest a modal's container gets; narrower screens shrink it.
pub const CONTAINER_WIDTH: u16 = 68;

/// Standing hint under the passphrase field until an error replaces it.
pub const UNLOCK_HINT: &'static str = "Enter your passphrase to unlock";

/// The most rows the unlock status may wrap to.
pub const MAX_STATUS_LINES: usize = 4;

/// Rows of the unlock container besides its status: border and padding (4),
/// the three-row passphrase sub-field and the gap above the status.
pub const UNLOCK_CHROME_HEIGHT: u16 = 8;

/// The area inside the full-screen frame: the border inset on every side when
/// bordered (each side saturating, as `Block::inner` does); when flat, a
/// one-cell margin (`Rect::inner`), or nothing when the screen is smaller
/// than the margins.
pub open spec fn spec_modal_inner(area: Rect, chrome: ChromeStyle) -> Rect {
    match chrome {
        ChromeStyle::Bordered => {
            let x = sat_add_u16(area.x as int, 1);
            let y = sat_add_u16(area.y as int, 1);
            Rect {
                x: (if x < area.spec_right() { x } else { area.spec_right() }) as u16,
                y: (if y < area.spec_bottom() { y } else { area.spec_bottom() }) as u16,
                width: sat_sub(area.width as int, 2) as u16,
                height: sat_sub(area.height as int, 2) as u16,
            }
        },
        ChromeStyle::Flat => if area.width < 2 || area.height < 2 {
            Rect { x: 0, y: 0, width: 0, height: 0 }
        } else {
            Rect {
                x: sat_add_u16(area.x as int, 1) as u16,
                y: sat_add_u16(area.y as int, 1) as u16,
                width: (area.width - 2) as u16,
                height: (area.height - 2) as u16,
            }
        },
    }
}

/// The content area of the full-screen modal frame drawn over `area`.
pub fn modal_inner(area: Rect, chrome: ChromeStyle) -> (inner: Rect)
    ensures
        inner == spec_modal_inner(area, chrome),
{
    match chrome {
        ChromeStyle::Bordered => {
            let right = area.right();
            let bottom = area.bottom();
            let x = area.x.saturating_add(1);
            let y = area.y.saturating_add(1);
            Rect {
                x: if x < right { x } else { right },
                y: if y < bottom { y } else { bottom },
                width: area.width.saturating_sub(2),
                height: area.height.saturating_sub(2),
            }
        },
        ChromeStyle::Flat => {
            if area.width < 2 || area.height < 2 {
                Rect { x: 0, y: 0, width: 0, height: 0 }
            } else {
                Rect {
                    x: area.x.saturating_add(1),
                    y: area.y.saturating_add(1),
                    width: area.width - 2,
                    height: area.height - 2,
                }
            }
        },
    }
}

/// Rows a notice container spends besides its text: border and padding when
/// bordered; when flat, padding plus the title's own row and a blank row
/// under it.
pub open spec fn notice_chrome_rows(chrome: ChromeStyle) -> int {
    match chrome {
        ChromeStyle::Bordered => 4,
        ChromeStyle::Flat => 5,
    }
}

/// The width a notice's text wraps to: the container less its border and
/// two-column padding on each side.
pub open spec fn notice_text_width(inner: Rect) -> int {
    let w = if CONTAINER_WIDTH < inner.width { CONTAINER_WIDTH as int } else { inner.width as int };
    sat_sub(w, 6)
}

/// A full-screen notice: the frame's title and key hints, the content area
/// inside the frame, and the centered container with its title, size and the
/// text rows it shows.
pub struct ModalNotice {
    pub title: String,
    pub key_hint: String,
    pub inner: Rect,
    pub box_title: String,
    pub container_width: u16,
    pub container_height: u16,
    pub lines: Vec<String>,
}

/// The notice laid out in the frame: the container is as wide as
/// `CONTAINER_WIDTH` allows and as tall as its text, both capped by the
/// frame's content area, and it shows as many of `lines` as fit.
pub open spec fn notice_fits(
    n: ModalNotice,
    area: Rect,
    chrome: ChromeStyle,
    title: Seq<char>,
    key_hint: Seq<char>,
    box_title: Seq<char>,
    lines: Seq<Seq<char>>,
) -> bool {
    let inner = spec_modal_inner(area, chrome);
    let height = lines.len() + notice_chrome_rows(chrome);
    let capped = if height < inner.height { height } else { inner.height as int };
    &&& n.title@ == title
    &&& n.key_hint@ == key_hint
    &&& n.inner == inner
    &&& n.box_title@ == box_title
    &&& n.container_width == (if CONTAINER_WIDTH < inner.width { CONTAINER_WIDTH } else { inner.width })
    &&& n.container_height == capped
    &&& strings_view(n.lines@) == first_lines(lines, sat_sub(capped, notice_chrome_rows(chrome)))
}

fn lay_out_notice(
    area: Rect,
    chrome: ChromeStyle,
    title: &str,
    key_hint: &str,
    box_title: &str,
    lines: Vec<String>,
) -> (n: ModalNotice)
    ensures
        notice_fits(n, area, chrome, title@, key_hint@, box_title@, strings_view(lines@)),
{
    let inner = modal_inner(area, chrome);
    let chrome_rows: usize = match chrome {
        ChromeStyle::Bordered => 4,
        ChromeStyle::Flat => 5,
    };
    let container_width = if CONTAINER_WIDTH < inner.width {
        CONTAINER_WIDTH
    } else {
        inner.width
    };
    let wanted = lines.len().saturating_add(chrome_rows);
    let container_height: u16 = if wanted < inner.height as usize {
        wanted as u16
    } else {
        inner.height
    };
    let rows = (container_height as usize).saturating_sub(chrome_rows);
    let mut shown = lines;
    let ghost all = strings_view(shown@);
    if rows < shown.len() {
        shown.truncate(rows);
        assert(strings_view(shown@) =~= all.take(rows as int));
    }
    ModalNotice {
        title: string_of(title),
        key_hint: string_of(key_hint),
        inner,
        box_title: string_of(box_title),
        container_width,
        container_height,
        lines: shown,
    }
}

/// Which unreadable-store situation a device-access notice explains.
#[derive(Clone, Copy, Debug, PartialEq, Eq, Structural)]
pub enum AccessNotice {
    /// A join request is queued, waiting for another device to approve it.
    AwaitingApproval,
    /// No usable key, so the device must enroll; `retired_key` when this
    /// launch just retired a dead key (a never-enrolled device had none).
    NeedsEnroll { retired_key: bool },
}

/// How a device is named as a sentence's subject: `Device '<name>'`, or
/// `This device` while it has no name.
pub open spec fn notice_subject(device_name: Seq<char>) -> Seq<char> {
    if device_name.len() == 0 {
        "This device"@
    } else {
        "Device '"@ + device_name + "'"@
    }
}

/// The sentences of a device-access notice: its title, the introduction, the
/// instruction and the command to run.
pub open spec fn access_box_title(notice: AccessNotice) -> Seq<char> {
    match notice {
        AccessNotice::AwaitingApproval => "Awaiting approval"@,
        AccessNotice::NeedsEnroll { .. } => "Not authorized"@,
    }
}

pub open spec fn access_intro(notice: AccessNotice, device_name: Seq<char>) -> Seq<char> {
    match notice {
        AccessNotice::AwaitingApproval => notice_subject(device_name)
            + " has requested access but isn't approved yet."@,
        AccessNotice::NeedsEnroll { .. } => notice_subject(device_name)
            + " isn't a recipient of this journal, so it can't read any entries."@,
    }
}

pub open spec fn access_instruction(notice: AccessNotice) -> Seq<char> {
    match notice {
        AccessNotice::AwaitingApproval => "Approve it from a device that can already read this journal:"@,
        AccessNotice::NeedsEnroll { .. } =>
            "Run this to request access, then approve it from a device that can already read this journal:"@,
    }
}

pub open spec fn access_command(notice: AccessNotice, device_name: Seq<char>) -> Seq<char> {
    match notice {
        AccessNotice::AwaitingApproval => APPROVE_CMD@ + " "@ + device_name,
        AccessNotice::NeedsEnroll { .. } => ENROLL_CMD@,
    }
}

pub open spec fn retired_key_sentence() -> Seq<char> {
    "This device's old key has been retired (renamed aside, recoverable)."@
}

/// The text of a device-access notice wrapped to `width`: the introduction,
/// the retired-key sentence when a key was just retired, the instruction, and
/// the command indented by two blanks — paragraphs separated by a blank line.
pub open spec fn access_lines(notice: AccessNotice, device_name: Seq<char>, width: int) -> Seq<Seq<char>> {
    let intro = wrapped_lines(access_intro(notice, device_name), width, width);
    let retired = match notice {
        AccessNotice::NeedsEnroll { retired_key: true } => seq![Seq::<char>::empty()]
            + wrapped_lines(retired_key_sentence(), width, width),
        _ => seq![],
    };
    intro + retired + seq![Seq::<char>::empty()] + wrapped_lines(access_instruction(notice), width, width)
        + seq!["  "@ + access_command(notice, device_name)]
}

/// `lines` followed by the wrapped `text`.
fn push_wrapped(lines: &mut Vec<String>, text: &str, width: usize)
    ensures
        strings_view(final(lines)@) == strings_view(old(lines)@) + wrapped_lines(text@, width as int, width as int),
{
    let n = text.unicode_len();
    proof {
        crate::wrap::lemma_wrapped_lines_len(text@, width as int, width as int);
    }
    let mut more = wrap_text(text, width, n);
    let ghost before = strings_view(lines@);
    let ghost added = strings_view(more@);
    lines.append(&mut more);
    assert(strings_view(lines@) =~= before + added);
}

fn push_line(lines: &mut Vec<String>, line: String)
    ensures
        strings_view(final(lines)@) == strings_view(old(lines)@).push(line@),
{
    let ghost before = strings_view(lines@);
    lines.push(line);
    assert(strings_view(lines@) =~= before.push(line@));
}

/// The full-screen notice a device sees when it cannot decrypt the store:
/// waiting for its join request to be approved, or needing to enroll. The
/// frame reads the product name with `any key to exit`; the container is
/// titled by the situation and shows the explanation and the command to run.
pub fn pending_notice_screen(area: Rect, chrome: ChromeStyle, device_name: &str, notice: AccessNotice) -> (screen: ModalNotice)
    ensures
        notice_fits(
            screen,
            area,
            chrome,
            BRAND@,
            "any key to exit"@,
            access_box_title(notice),
            access_lines(notice, device_name@, notice_text_width(spec_modal_inner(area, chrome))),
        ),
{
    let inner = modal_inner(area, chrome);
    let container_width = if CONTAINER_WIDTH < inner.width {
        CONTAINER_WIDTH
    } else {
        inner.width
    };
    let width = container_width.saturating_sub(6) as usize;
    let mut subject = String::new();
    if device_name.unicode_len() == 0 {
        subject.append("This device");
    } else {
        subject.append("Device '");
        subject.append(device_name);
        subject.append("'");
    }
    assert(subject@ =~= notice_subject(device_name@));
    let mut intro = subject;
    let mut command = string_of("  ");
    let (box_title, instruction) = match notice {
        AccessNotice::AwaitingApproval => {
            intro.append(" has requested access but isn't approved yet.");
            command.append(APPROVE_CMD);
            command.append(" ");
            command.append(device_name);
            ("Awaiting approval", "Approve it from a device that can already read this journal:")
        },
        AccessNotice::NeedsEnroll { .. } => {
            intro.append(" isn't a recipient of this journal, so it can't read any entries.");
            command.append(ENROLL_CMD);
            (
                "Not authorized",
                "Run this to request access, then approve it from a device that can already read this journal:",
            )
        },
    };
    assert(intro@ =~= access_intro(notice, device_name@));
    assert(command@ =~= "  "@ + access_command(notice, device_name@));
    let mut lines: Vec<String> = Vec::new();
    assert(strings_view(lines@) =~= seq![]);
    push_wrapped(&mut lines, intro.as_str(), width);
    match notice {
        AccessNotice::NeedsEnroll { retired_key: true } => {
            push_line(&mut lines, String::new());
            push_wrapped(
                &mut lines,
                "This device's old key has been retired (renamed aside, recoverable).",
                width,
            );
        },
        _ => {},
    }
    push_line(&mut lines, String::new());
    push_wrapped(&mut lines, instruction, width);
    push_line(&mut lines, command);
    assert(strings_view(lines@) =~= access_lines(notice, device_name@, width as int));
    lay_out_notice(area, chrome, BRAND, "any key to exit", box_title, lines)
}

/// The paragraph explaining what happened to the keys.
pub open spec fn disable_body() -> Seq<char> {
    "This journal is now plaintext. This device's encryption key and trust pins have been retired \u{2014} renamed aside next to the config, not deleted, so they can be recovered if this was unexpected."@
}

/// The text of the encryption-disabled notice at `width`: the headline, a
/// blank line, the wrapped explanation, a blank line and how to turn
/// encryption back on.
pub open spec fn disable_lines(width: int) -> Seq<Seq<char>> {
    seq!["Encryption was disabled on another device."@, Seq::<char>::empty()]
        + wrapped_lines(disable_body(), width, width) + seq![
        Seq::<char>::empty(),
        "To turn encryption back on, run "@ + ENABLE_CMD@ + "."@,
    ]
}

/// The full-screen notice shown when encryption was disabled on another
/// device and this one fell back to plaintext; dismissed on any key.
pub fn disable_notice_screen(area: Rect, chrome: ChromeStyle) -> (screen: ModalNotice)
    ensures
        notice_fits(
            screen,
            area,
            chrome,
            BRAND@,
            "any key to continue"@,
            "Encryption disabled"@,
            disable_lines(notice_text_width(spec_modal_inner(area, chrome))),
        ),
{
    let inner = modal_inner(area, chrome);
    let container_width = if CONTAINER_WIDTH < inner.width {
        CONTAINER_WIDTH
    } else {
        inner.width
    };
    let width = container_width.saturating_sub(6) as usize;
    let mut lines: Vec<String> = Vec::new();
    assert(strings_view(lines@) =~= seq![]);
    push_line(&mut lines, string_of("Encryption was disabled on another device."));
    push_line(&mut lines, String::new());
    push_wrapped(
        &mut lines,
        "This journal is now plaintext. This device's encryption key and trust pins have been retired \u{2014} renamed aside next to the config, not deleted, so they can be recovered if this was unexpected.",
        width,
    );
    push_line(&mut lines, String::new());
    let mut enable = string_of("To turn encryption back on, run ");
    enable.append(ENABLE_CMD);
    enable.append(".");
    push_line(&mut lines, enable);
    assert(strings_view(lines@) =~= disable_lines(width as int));
    lay_out_notice(area, chrome, BRAND, "any key to continue", "Encryption disabled", lines)
}

/// The unlock screen: the frame, the `Enter Password` container and its size,
/// the masked passphrase field, and the status rows below it.
pub struct UnlockScreen {
    pub title: String,
    pub key_hint: String,
    pub inner: Rect,
    pub box_title: String,
    pub container_width: u16,
    pub container_height: u16,
    pub field: String,
    pub status: Vec<String>,
}

/// The status rows: the standing hint, or the error that replaced it, wrapped
/// to the container's text width (at most `MAX_STATUS_LINES` rows).
pub open spec fn unlock_status(error: Option<Seq<char>>, width: int) -> Seq<Seq<char>> {
    let status = match error {
        Some(e) => e,
        None => UNLOCK_HINT@,
    };
    first_lines(wrapped_lines(status, width, width), MAX_STATUS_LINES as int)
}

/// Rows the container reserves for the status: whichever of the hint and the
/// current status wraps to more rows (at least one), so the box keeps its
/// height across a failed attempt.
pub open spec fn unlock_status_rows(error: Option<Seq<char>>, width: int) -> int {
    let hint = unlock_status(None, width).len() as int;
    let now = unlock_status(error, width).len() as int;
    let most = if hint < now { now } else { hint };
    if most < 1 { 1 } else { most }
}

pub open spec fn unlock_fits(
    s: UnlockScreen,
    area: Rect,
    chrome: ChromeStyle,
    passphrase_len: int,
    error: Option<Seq<char>>,
) -> bool {
    let inner = spec_modal_inner(area, chrome);
    let width = if CONTAINER_WIDTH < inner.width { CONTAINER_WIDTH as int } else { inner.width as int };
    let text_width = sat_sub(width, 6);
    let height = UNLOCK_CHROME_HEIGHT + unlock_status_rows(error, text_width);
    &&& s.title@ == "Unlock "@ + BRAND@
    &&& s.key_hint@ == "enter unlock \u{b7} esc quit"@
    &&& s.inner == inner
    &&& s.box_title@ == "Enter Password"@
    &&& s.container_width == width
    &&& s.container_height == (if height < inner.height { height } else { inner.height as int })
    &&& s.field@ == repeat_char('*', passphrase_len as nat)
    &&& strings_view(s.status@) == unlock_status(error, text_width)
}

/// The unlock screen shown while an encrypted store is locked: the typed
/// passphrase appears only as one `*` per character, and a standing hint
/// sits under the field until a wrong passphrase's error replaces it. The
/// status wraps on narrow screens, and the container is sized for the larger
/// of the hint and the error.
pub fn unlock_screen(area: Rect, chrome: ChromeStyle, passphrase: &str, error: Option<&str>) -> (screen: UnlockScreen)
    ensures
        unlock_fits(
            screen,
            area,
            chrome,
            passphrase@.len() as int,
            match error {
                Some(e) => Some(e@),
                None => None,
            },
        ),
{
    let inner = modal_inner(area, chrome);
    let container_width = if CONTAINER_WIDTH < inner.width {
        CONTAINER_WIDTH
    } else {
        inner.width
    };
    let width = container_width.saturating_sub(6) as usize;
    let hint_rows = wrap_text(UNLOCK_HINT, width, MAX_STATUS_LINES);
    let status = match error {
        Some(e) => wrap_text(e, width, MAX_STATUS_LINES),
        None => wrap_text(UNLOCK_HINT, width, MAX_STATUS_LINES),
    };
    let mut most = if hint_rows.len() < status.len() {
        status.len()
    } else {
        hint_rows.len()
    };
    if most < 1 {
        most = 1;
    }
    proof {
        assert(hint_rows@.len() == strings_view(hint_rows@).len());
        assert(status@.len() == strings_view(status@).len());
    }
    let height = UNLOCK_CHROME_HEIGHT as usize + most;
    let container_height: u16 = if height < inner.height as usize {
        height as u16
    } else {
        inner.height
    };
    let mut title = string_of("Unlock ");
    title.append(BRAND);
    let field = repeat_string('*', passphrase.unicode_len());
    UnlockScreen {
        title,
        key_hint: string_of("enter unlock \u{b7} esc quit"),
        inner,
        box_title: string_of("Enter Password"),
        container_width,
        container_height,
        field,
        status,
    }
}

/// Dots of an animated ellipsis `elapsed_ms` after it started: one, two,
/// three, then one again, a step every 400 ms.
pub open spec fn ellipsis_dots(elapsed_ms: int) -> int {
    elapsed_ms / 400 % 3 + 1
}

/// `message` followed by the animated ellipsis, dropped dots replaced by
/// blanks so centered text keeps its width.
pub open spec fn spec_animated(message: Seq<char>, elapsed_ms: int) -> Seq<char> {
    let dots = ellipsis_dots(elapsed_ms);
    message + repeat_char('.', dots as nat) + repeat_char(' ', (3 - dots) as nat)
}

fn animated(message: &str, elapsed_ms: u128) -> (text: String)
    ensures
        text@ == spec_animated(message@, elapsed_ms as int),
{
    let dots = (elapsed_ms / 400 % 3) as usize + 1;
    let mut text = string_of(message);
    let d = repeat_string('.', dots);
    text.append(d.as_str());
    let b = repeat_string(' ', 3 - dots);
    text.append(b.as_str());
    text
}

/// The image viewer's notice while an image loads, `elapsed_ms` after the
/// viewer first showed it.
pub fn loading_notice(elapsed_ms: u128) -> (text: String)
    ensures
        text@ == spec_animated("Loading image"@, elapsed_ms as int),
{
    animated("Loading image", elapsed_ms)
}

/// The notice while a save waits for its weather and air-quality lookup.
pub fn fetching_environment_notice(elapsed_ms: u128) -> (text: String)
    ensures
        text@ == spec_animated("Fetching weather and air quality"@, elapsed_ms as int),
{
    animated("Fetching weather and air quality", elapsed_ms)
}


/// The unlock container's rows: the passphrase field's three-row box, a
/// one-row gap, then `status_lines` rows of status.
pub open spec fn unlock_rows(status_lines: u16) -> Seq<crate::split::SizeRule> {
    seq![crate::split::SizeRule::Length(3), crate::split::SizeRule::Length(1), crate::split::SizeRule::Length(status_lines)]
}

/// The passphrase's text row inside the field's box: a border and a column
/// of padding on each side (flat chrome pads by the same amounts).
pub open spec fn spec_field_text_area(field_box: Rect) -> Rect {
    Rect {
        x: crate::geometry::sat_add_u16(field_box.x as int, 2) as u16,
        y: crate::geometry::sat_add_u16(field_box.y as int, 1) as u16,
        width: crate::geometry::sat_sub(field_box.width as int, 4) as u16,
        height: crate::geometry::sat_sub(field_box.height as int, 2) as u16,
    }
}

/// The unlock container's three rows as the split gives them: parts of the
/// content spanning its columns, and, when the box, the gap and the status
/// rows fit its height, stacked from its top: the box's three rows, one
/// blank row, then the status rows.
pub open spec fn unlock_rows_of(content: Rect, status_lines: u16, field_box: Rect, status: Rect) -> bool {
    &&& crate::split::part_of(field_box, content, crate::split::Axis::Vertical)
    &&& crate::split::part_of(status, content, crate::split::Axis::Vertical)
    &&& 4 + status_lines <= crate::split::span_on(content, crate::split::Axis::Vertical) ==> field_box == (Rect {
        height: 3,
        ..content
    }) && status == (Rect { y: (content.y + 4) as u16, height: status_lines, ..content })
}

/// Where the unlock screen's passphrase field box goes, the passphrase's
/// text row inside it (the area clicks place the caret in), and the status
/// rows, in the container's content.
pub fn unlock_field_areas(content: Rect, status_lines: u16) -> (areas: (Rect, Rect, Rect))
    ensures
        unlock_rows_of(content, status_lines, areas.0, areas.2),
        areas.1 == spec_field_text_area(areas.0),
{
    let mut rules: Vec<crate::split::SizeRule> = Vec::new();
    rules.push(crate::split::SizeRule::Length(3));
    rules.push(crate::split::SizeRule::Length(1));
    rules.push(crate::split::SizeRule::Length(status_lines));
    assert(rules@ =~= unlock_rows(status_lines));
    let parts = crate::split::split_area(content, crate::split::Axis::Vertical, crate::split::Packing::Start, &rules);
    proof {
        let span = crate::split::span_on(content, crate::split::Axis::Vertical);
        let r = rules@;
        reveal_with_fuel(crate::split::lengths_upto, 4);
        reveal_with_fuel(crate::split::plain_start, 4);
        assert(crate::split::part_of(parts@[0], content, crate::split::Axis::Vertical));
        assert(crate::split::part_of(parts@[2], content, crate::split::Axis::Vertical));
        if 4 + status_lines <= span {
            assert(crate::split::lengths_upto(r, 3) == 4 + status_lines);
            assert(crate::split::plain_fit(r, span));
            assert(crate::split::plain_start(r, span, 2) == 4);
            assert(crate::split::plain_start(r, span, 0) == 0);
        }
    }
    let field_box = parts[0];
    let text = Rect {
        x: field_box.x.saturating_add(2),
        y: field_box.y.saturating_add(1),
        width: field_box.width.saturating_sub(4),
        height: field_box.height.saturating_sub(2),
    };
    (field_box, text, parts[2])
}

} // verus!
