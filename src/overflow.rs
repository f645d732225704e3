//! The button that toggles the popup of applets that did not fit.

use vstd::prelude::*;

use crate::geometry::{Point, Rect};

verus! {

/// Messages of the overflow button.
#[derive(Debug, Clone, Copy, PartialEq, Eq, Structural)]
pub enum Message {
    TogglePopup,
}

/// Request the button hands to its panel's event queue.
#[derive(Debug, Clone, Copy, PartialEq, Eq, Structural)]
pub enum OverflowRequest {
    /// toggle the overflow popup of the button with this id
    TogglePopup(u64),
}

/// A square icon button at a position of the panel.
#[derive(Debug, Clone, Copy, PartialEq, Eq, Structural)]
pub struct OverflowButton {
    pub id: u64,
    pub pos: Point,
    pub icon_size: u16,
    /// whether its popup is open
    pub selected: bool,
}

impl OverflowButton {
    /// Turns a message into a request for the panel's event queue.
    pub fn update(&self, message: Message) -> (r: OverflowRequest)
        ensures
            message == Message::TogglePopup ==> r == OverflowRequest::TogglePopup(self.id),
    {
        match message {
            Message::TogglePopup => OverflowRequest::TogglePopup(self.id),
        }
    }

    /// Records whether the popup is open.
    pub fn set_selected(&mut self, selected: bool)
        ensures
            *final(self) == (OverflowButton { selected, ..*old(self) }),
    {
        self.selected = selected;
    }

    pub open spec fn bbox_spec(&self) -> Rect {
        Rect { x: self.pos.x, y: self.pos.y, w: self.icon_size as i64, h: self.icon_size as i64 }
    }

    /// The square the button occupies.
    pub fn bbox(&self) -> (r: Rect)
        ensures
            r == self.bbox_spec(),
    {
        Rect { x: self.pos.x, y: self.pos.y, w: self.icon_size as i64, h: self.icon_size as i64 }
    }

    /// Whether a point lies in the button's square.
    pub fn is_in_input_region(&self, point: Point) -> (r: bool)
        requires
            self.pos.x <= i64::MAX - u16::MAX,
            self.pos.y <= i64::MAX - u16::MAX,
        ensures
            r == (self.pos.x <= point.x < self.pos.x + self.icon_size && self.pos.y <= point.y
                < self.pos.y + self.icon_size),
    {
        let b = self.bbox();
        b.x <= point.x && point.x < b.x + b.w && b.y <= point.y && point.y < b.y + b.h
    }
}

} // verus!
