//! Messages to the user, and the stack of toasts that shows them.
use egui_notify::{Anchor, Toast, Toasts};
use std::time::Duration;
use vstd::prelude::*;

verus! {

/// How much a toast matters, which decides the icon drawn beside it.
#[derive(Clone, Copy, Debug, PartialEq, Eq, Structural)]
pub enum ToastLevel {
    Info,
    Warning,
    Error,
    Success,
    Plain,
}

/// The corner of the screen that toasts are stacked in.
#[derive(Clone, Copy, Debug, PartialEq, Eq, Structural)]
pub enum Corner {
    TopRight,
    TopLeft,
    BottomRight,
    BottomLeft,
}

/// Something to tell the user.
#[derive(Debug)]
pub struct Note {
    pub text: String,
    pub level: ToastLevel,
}

pub struct NoteView {
    pub text: Seq<char>,
    pub level: ToastLevel,
}

impl View for Note {
    type V = NoteView;

    open spec fn view(&self) -> NoteView {
        NoteView { text: self.text@, level: self.level }
    }
}

/// What each note of a list says.
pub open spec fn note_views(notes: Seq<Note>) -> Seq<NoteView> {
    notes.map_values(|note: Note| note@)
}

/// A toast as the stack holds it: what it says, at which level, for how many seconds it was set
/// to stay, and whether the user can close it before.
pub struct ToastView {
    pub text: Seq<char>,
    pub level: ToastLevel,
    pub seconds: u64,
    pub closable: bool,
}

/// How a stack of toasts was set up.
pub struct ToastLayout {
    pub newest_first: bool,
    pub corner: Corner,
}

/// `egui_notify::Toasts`, the stack of toasts on screen.
#[verifier::external_type_specification]
#[verifier::external_body]
pub struct ExToasts(Toasts);

/// The toasts that a stack holds, in the order in which it draws them.
pub uninterp spec fn toasts_held(toasts: Toasts) -> Seq<ToastView>;

/// The way a stack was set up.
pub uninterp spec fn toasts_layout(toasts: Toasts) -> ToastLayout;

/// Calls `Toasts::default`: an empty stack in the top right corner, newest toast last.
#[verifier::external_body]
pub(crate) fn empty_toasts() -> (toasts: Toasts)
    ensures
        toasts_held(toasts) == Seq::<ToastView>::empty(),
        toasts_layout(toasts) == (ToastLayout { newest_first: false, corner: Corner::TopRight }),
{
    Toasts::default()
}

/// Calls `Toasts::reverse`, which sets whether a new toast goes before those held and changes
/// nothing else.
#[verifier::external_body]
pub(crate) fn with_newest_first(toasts: Toasts, newest_first: bool) -> (r: Toasts)
    ensures
        toasts_held(r) == toasts_held(toasts),
        toasts_layout(r) == (ToastLayout { newest_first, ..toasts_layout(toasts) }),
{
    toasts.reverse(newest_first)
}

/// Calls `Toasts::with_anchor`, which sets the corner and changes nothing else.
#[verifier::external_body]
pub(crate) fn with_corner(toasts: Toasts, corner: Corner) -> (r: Toasts)
    ensures
        toasts_held(r) == toasts_held(toasts),
        toasts_layout(r) == (ToastLayout { corner, ..toasts_layout(toasts) }),
{
    toasts.with_anchor(match corner {
        Corner::TopRight => Anchor::TopRight,
        Corner::TopLeft => Anchor::TopLeft,
        Corner::BottomRight => Anchor::BottomRight,
        Corner::BottomLeft => Anchor::BottomLeft,
    })
}

/// What a stack holds once `note` has been added.
pub open spec fn with_toast(held: Seq<ToastView>, newest_first: bool, note: ToastView) -> Seq<
    ToastView,
> {
    if newest_first {
        seq![note] + held
    } else {
        held.push(note)
    }
}

/// Calls `Toasts::add` on a toast made by `Toast::basic`, `Toast::set_level` and
/// `Toast::set_duration`. The toast goes to the front of a stack set up newest first, else to
/// its end, and the layout stays. `Toast::basic` makes a toast that can be closed. The stack counts the seconds in floating point, which tells
/// whole seconds apart up to a million.
#[verifier::external_body]
pub(crate) fn add_toast(toasts: &mut Toasts, text: &String, level: ToastLevel, seconds: u64)
    requires
        seconds <= 1_000_000,
    ensures
        toasts_held(*final(toasts)) == with_toast(
            toasts_held(*old(toasts)),
            toasts_layout(*old(toasts)).newest_first,
            (ToastView { text: text@, level, seconds, closable: true }),
        ),
        toasts_layout(*final(toasts)) == toasts_layout(*old(toasts)),
{
    let mut toast = Toast::basic(text);
    toast.set_level(match level {
        ToastLevel::Info => egui_notify::ToastLevel::Info,
        ToastLevel::Warning => egui_notify::ToastLevel::Warning,
        ToastLevel::Error => egui_notify::ToastLevel::Error,
        ToastLevel::Success => egui_notify::ToastLevel::Success,
        ToastLevel::Plain => egui_notify::ToastLevel::None,
    });
    toast.set_duration(Some(Duration::from_secs(seconds)));
    toasts.add(toast);
}

} // verus!
