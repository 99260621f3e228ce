use vstd::prelude::*;
use crate::view::clamp_i32;

verus! {

/// An accumulated screen-space pan.
#[derive(Clone, Copy, Debug, PartialEq, Eq, Structural)]
pub struct PanOffset {
    pub x: i32,
    pub y: i32,
}

impl PanOffset {
    pub fn new(x: i32, y: i32) -> (p: Self)
        ensures
            p == (PanOffset { x, y }),
    {
        PanOffset { x, y }
    }

    /// Adds a delta, saturating at the `i32` range.
    pub fn translate_by(&mut self, dx: i32, dy: i32)
        ensures
            final(self).x == clamp_i32(old(self).x + dx),
            final(self).y == clamp_i32(old(self).y + dy),
    {
        let nx = self.x as i64 + dx as i64;
        let ny = self.y as i64 + dy as i64;
        self.x = if nx < i32::MIN as i64 { i32::MIN } else if nx > i32::MAX as i64 { i32::MAX } else { nx as i32 };
        self.y = if ny < i32::MIN as i64 { i32::MIN } else if ny > i32::MAX as i64 { i32::MAX } else { ny as i32 };
    }
}

/// What a pan gesture asks of the view.
#[derive(Clone, Copy, Debug, PartialEq, Eq, Structural)]
pub enum PanAction {
    Started,
    Delta { dx: i64, dy: i64 },
    Stopped,
}

/// A press starts panning with this pointer, if none pans yet and the
/// button is allowed.
pub open spec fn pan_pressed(a: PanTool, b: PanTool, button: i16, pointer_id: i32, client_x: i32, client_y: i32, r: Option<PanAction>) -> bool {
    &&& ({
        let allowed = 0 <= button < 3 && a.allowed_buttons@[button as int];
        if a.is_panning || !allowed {
            r.is_none() && b == a
        } else {
            &&& r == Some(PanAction::Started)
            &&& b.is_panning
            &&& b.pointer_id == Some(pointer_id)
            &&& b.last_pos == Some((client_x, client_y))
            &&& b.allowed_buttons == a.allowed_buttons
        }
    })
}

/// A move of the captured pointer reports its travel since the last event.
pub open spec fn pan_moved(a: PanTool, b: PanTool, pointer_id: i32, client_x: i32, client_y: i32, r: Option<PanAction>) -> bool {
    &&& b.is_panning == a.is_panning
    &&& b.pointer_id == a.pointer_id
    &&& b.allowed_buttons == a.allowed_buttons
    &&& !a.is_panning || a.pointer_id != Some(pointer_id) || a.last_pos.is_none()
        ==> r.is_none() && b == a
    &&& a.is_panning && a.pointer_id == Some(pointer_id) && a.last_pos.is_some()
        ==> ({
        let l = a.last_pos.unwrap();
        let dx = client_x - l.0;
        let dy = client_y - l.1;
        &&& b.last_pos == Some((client_x, client_y))
        &&& (dx == 0 && dy == 0) ==> r.is_none()
        &&& !(dx == 0 && dy == 0) ==> r == Some(PanAction::Delta { dx: dx as i64, dy: dy as i64 })
    })
}

/// Releasing the captured pointer stops panning.
pub open spec fn pan_released(a: PanTool, b: PanTool, pointer_id: i32, r: Option<PanAction>) -> bool {
    &&& !a.is_panning || a.pointer_id != Some(pointer_id) ==> r.is_none() && b
        == a
    &&& a.is_panning && a.pointer_id == Some(pointer_id) ==> r == Some(PanAction::Stopped)
        && !b.is_panning && b.pointer_id.is_none() && b.last_pos.is_none()
        && b.allowed_buttons == a.allowed_buttons
}

/// Cancelling stops panning.
pub open spec fn pan_cancelled(a: PanTool, b: PanTool) -> bool {
    &&& !b.is_panning
    &&& b.pointer_id.is_none()
    &&& b.last_pos.is_none()
    &&& b.allowed_buttons == a.allowed_buttons
}

/// The hand tool: drags the view with one captured pointer.
#[derive(Clone, Copy, Debug)]
pub struct PanTool {
    pub is_panning: bool,
    pub pointer_id: Option<i32>,
    pub last_pos: Option<(i32, i32)>,
    pub allowed_buttons: [bool; 3],
}

impl PanTool {
    /// Idle, panning with the primary button only.
    pub fn new() -> (t: Self)
        ensures
            !t.is_panning,
            t.pointer_id.is_none(),
            t.last_pos.is_none(),
            t.allowed_buttons@ == seq![true, false, false],
    {
        let t = PanTool { is_panning: false, pointer_id: None, last_pos: None, allowed_buttons: [true, false, false] };
        assert(t.allowed_buttons@ =~= seq![true, false, false]);
        t
    }

    pub fn set_allowed_buttons(&mut self, primary: bool, middle: bool, secondary: bool)
        ensures
            final(self).is_panning == old(self).is_panning,
            final(self).pointer_id == old(self).pointer_id,
            final(self).last_pos == old(self).last_pos,
            final(self).allowed_buttons@ == seq![primary, middle, secondary],
    {
        self.allowed_buttons = [primary, middle, secondary];
        assert(self.allowed_buttons@ =~= seq![primary, middle, secondary]);
    }

    pub fn is_panning(&self) -> (r: bool)
        ensures
            r == self.is_panning,
    {
        self.is_panning
    }

    pub fn cursor(&self) -> (r: &'static str)
        ensures
            self.is_panning ==> r@ == "grabbing"@,
            !self.is_panning ==> r@ == "grab"@,
    {
        if self.is_panning {
            "grabbing"
        } else {
            "grab"
        }
    }

    /// Starts panning with this pointer, if none pans yet and the button
    /// is allowed.
    pub fn on_pointer_down(&mut self, button: i16, pointer_id: i32, client_x: i32, client_y: i32) -> (r: Option<PanAction>)
        ensures
            pan_pressed(*old(self), *final(self), button, pointer_id, client_x, client_y, r),
    {
        if self.is_panning {
            return None;
        }
        let allow = if button == 0 {
            self.allowed_buttons[0]
        } else if button == 1 {
            self.allowed_buttons[1]
        } else if button == 2 {
            self.allowed_buttons[2]
        } else {
            false
        };
        if !allow {
            return None;
        }
        self.is_panning = true;
        self.pointer_id = Some(pointer_id);
        self.last_pos = Some((client_x, client_y));
        Some(PanAction::Started)
    }

    /// Reports the captured pointer's travel since the last event; other
    /// pointers and zero travel report nothing.
    pub fn on_pointer_move(&mut self, pointer_id: i32, client_x: i32, client_y: i32) -> (r: Option<PanAction>)
        ensures
            pan_moved(*old(self), *final(self), pointer_id, client_x, client_y, r),
    {
        if !self.is_panning || self.pointer_id != Some(pointer_id) {
            return None;
        }
        let (lx, ly) = match self.last_pos {
            Some(l) => l,
            None => return None,
        };
        let dx = client_x as i64 - lx as i64;
        let dy = client_y as i64 - ly as i64;
        self.last_pos = Some((client_x, client_y));
        if dx == 0 && dy == 0 {
            return None;
        }
        Some(PanAction::Delta { dx, dy })
    }

    /// Stops panning when the captured pointer is released.
    pub fn on_pointer_up(&mut self, pointer_id: i32) -> (r: Option<PanAction>)
        ensures
            pan_released(*old(self), *final(self), pointer_id, r),
    {
        if !self.is_panning || self.pointer_id != Some(pointer_id) {
            return None;
        }
        self.is_panning = false;
        self.pointer_id = None;
        self.last_pos = None;
        Some(PanAction::Stopped)
    }

    pub fn cancel(&mut self)
        ensures
            pan_cancelled(*old(self), *final(self)),
    {
        self.is_panning = false;
        self.pointer_id = None;
        self.last_pos = None;
    }
}

} // verus!
