//! What the widgets compute: their sizes, the texts they show and the
//! decisions they take on what they read.
pub mod battery;
pub mod brightness;
pub mod icon;
pub mod mail;
pub mod network;
pub mod systray;
pub mod text;
pub mod update;
pub mod volume;
pub mod weather;
pub mod workspaces;

use vstd::prelude::*;

verus! {

/// The width a widget asks for: a fixed number of pixels, or a share of
/// the space that the fixed-width widgets leave free.
#[derive(Debug, Clone, Copy, PartialEq, Eq, Structural)]
pub enum Size {
    Flex,
    Static(u32),
}

impl Size {
    pub fn is_flex(&self) -> (r: bool)
        ensures
            r == (*self == Size::Flex),
    {
        matches!(self, Size::Flex)
    }

    /// The fixed width, or `s` for a flexible widget.
    pub fn unwrap_or(&self, s: u32) -> (r: u32)
        ensures
            r == match *self {
                Size::Flex => s,
                Size::Static(w) => w,
            },
    {
        match self {
            Size::Flex => s,
            Size::Static(s) => *s,
        }
    }
}

/// The failures of the widgets that the library itself decides.
#[derive(Debug)]
pub enum WidgetError {
    Battery(battery::Error),
    Brightness(brightness::Error),
    Icon(icon::Error),
    Mail(mail::MailFailure),
    Spacer,
    Workspaces(workspaces::Error),
}

} // verus!
