//! What the pointer is over, and the questions the drawing code asks of it:
//! which hint chip, which dialog row, whether a given text field.
use vstd::prelude::*;
use crate::geometry::Rect;
use crate::hints::HintId;

verus! {

/// The thing under the pointer, as hit-testing last found it.
#[derive(Clone, Copy, Debug, PartialEq, Eq, Structural)]
pub enum HoverTarget {
    /// Nothing that reacts to the pointer.
    Nothing,
    /// A key-hint chip of the footer or a dialog's hint bar.
    FooterHint(HintId),
    /// A row of a dialog's list or menu.
    DialogRow(usize),
    /// A text field, known by the rect it was last drawn into.
    TextField(Rect),
    /// An entry card of the entry list.
    Entry(usize),
    /// A journal row.
    Journal(usize),
    /// An insights tab, by its index in the strip.
    InsightsTab(usize),
    /// A metadata chip.
    MetadataChip(usize),
    /// An image label in the reader, by body line.
    ReaderImage(usize),
    /// A piece of a link in the reader.
    ReaderLink { line: usize, start: usize, end: usize },
    /// A row of the theme picker.
    ThemePickerRow(usize),
    /// A confirm dialog's button (`true` for yes).
    ConfirmButton(bool),
    /// A toast, by its index in the stack.
    Toast(usize),
}

/// Whether the pointer is over the text field last drawn into `field_area`.
pub fn hovered_field(hover: HoverTarget, field_area: Rect) -> (over: bool)
    ensures
        over == (hover == HoverTarget::TextField(field_area)),
{
    match hover {
        HoverTarget::TextField(rect) => rect == field_area,
        _ => false,
    }
}

/// The hint chip under the pointer: dialog hint bars share the footer's
/// target, the chips being the same clickable kind.
pub fn hovered_hint(hover: HoverTarget) -> (id: Option<HintId>)
    ensures
        id == match hover {
            HoverTarget::FooterHint(h) => Some(h),
            _ => None,
        },
{
    match hover {
        HoverTarget::FooterHint(id) => Some(id),
        _ => None,
    }
}

/// The dialog list or menu row under the pointer.
pub fn hovered_dialog_row(hover: HoverTarget) -> (row: Option<usize>)
    ensures
        row == match hover {
            HoverTarget::DialogRow(i) => Some(i),
            _ => None,
        },
{
    match hover {
        HoverTarget::DialogRow(index) => Some(index),
        _ => None,
    }
}

} // verus!
