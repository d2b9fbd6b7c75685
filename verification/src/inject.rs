//! Synthesising input on the local machine: which low-level operations each
//! injected event becomes, through the kernel's virtual input device (uinput)
//! when it is open, or else the X server's test extension (XTest).
use vstd::prelude::*;
use crate::input::{BTN_LEFT, BTN_MIDDLE, BTN_RIGHT, EV_KEY, EV_REL, EV_SYN, REL_HWHEEL, REL_WHEEL, REL_X, REL_Y, SYN_REPORT};

verus! {

/// Where the tracked cursor starts before any move.
pub const START_X: i32 = 960;
pub const START_Y: i32 = 540;

/// One operation on the local input system.
#[derive(Debug, Clone, Copy, PartialEq, Eq, Structural)]
pub enum InjectOp {
    /// Write the event (type, code, value) to the virtual input device.
    Uinput { kind: u16, code: u16, value: i32 },
    /// XTest: move the pointer to (x, y) on the default screen.
    FakeMotion { x: i32, y: i32 },
    /// XTest: press or release a pointer button.
    FakeButton { button: u32, pressed: bool },
    /// XTest: press and release a pointer button `count` times.
    FakeClicks { button: u32, count: u32 },
    /// XTest: press or release the key with this X11 key code.
    FakeKey { keycode: u32, pressed: bool },
    /// Flush the X connection.
    Flush,
}

pub open spec fn syn() -> InjectOp {
    InjectOp::Uinput { kind: EV_SYN, code: SYN_REPORT, value: 0 }
}

pub open spec fn clamp(v: int, lo: int, hi: int) -> int {
    if v < lo { lo } else if v > hi { hi } else { v }
}

/// The uinput button code of a mouse button (1 left, 2 middle, 3 right).
pub open spec fn uinput_button(button: u8) -> Option<u16> {
    if button == 1 {
        Some(BTN_LEFT)
    } else if button == 2 {
        Some(BTN_MIDDLE)
    } else if button == 3 {
        Some(BTN_RIGHT)
    } else {
        None
    }
}

/// Synthesises input events. With the virtual device open (`uinput`) events go
/// there; otherwise, with an X display (`display`), through XTest, tracking the
/// cursor itself; with neither, nothing is injected.
#[derive(Debug)]
pub struct InputInjector {
    pub uinput: bool,
    pub display: bool,
    /// Where the cursor is believed to be (used by the XTest path).
    pub cursor_x: i32,
    pub cursor_y: i32,
}

fn clamp_i32(v: i32, lo: i32, hi: i32) -> (r: i32)
    requires
        lo <= hi,
    ensures
        r == clamp(v as int, lo as int, hi as int),
{
    if v < lo {
        lo
    } else if v > hi {
        hi
    } else {
        v
    }
}

/// The magnitude of `v` (`i32::unsigned_abs`).
fn magnitude(v: i32) -> (r: u32)
    ensures
        r == (if v < 0 { -v } else { v as int }),
{
    if v < 0 {
        (0i64 - v as i64) as u32
    } else {
        v as u32
    }
}

impl InputInjector {
    /// An injector over what could be opened: the virtual device and an X display.
    pub fn new(uinput: bool, display: bool) -> (r: Self)
        ensures
            r.uinput == uinput,
            r.display == display,
            r.cursor_x == START_X,
            r.cursor_y == START_Y,
    {
        InputInjector { uinput, display, cursor_x: START_X, cursor_y: START_Y }
    }

    /// Move the cursor to the absolute pixel position (x, y) of a
    /// `screen_w` x `screen_h` screen. The virtual device has no absolute
    /// positioning: it only remembers the position.
    pub fn mouse_move_abs(&mut self, x: i32, y: i32, screen_w: i32, screen_h: i32) -> (r: Vec<InjectOp>)
        requires
            !old(self).uinput && old(self).display ==> screen_w >= 1 && screen_h >= 1,
        ensures
            final(self).uinput == old(self).uinput,
            final(self).display == old(self).display,
            if old(self).uinput || !old(self).display {
                &&& r@ == Seq::<InjectOp>::empty()
                &&& final(self).cursor_x == x
                &&& final(self).cursor_y == y
            } else {
                let cx = clamp(x as int, 0, screen_w - 1) as i32;
                let cy = clamp(y as int, 0, screen_h - 1) as i32;
                &&& r@ == seq![InjectOp::FakeMotion { x: cx, y: cy }, InjectOp::Flush]
                &&& final(self).cursor_x == cx
                &&& final(self).cursor_y == cy
            },
    {
        self.cursor_x = x;
        self.cursor_y = y;
        let mut ops: Vec<InjectOp> = Vec::new();
        if self.uinput || !self.display {
            return ops;
        }
        let cx = clamp_i32(x, 0, screen_w - 1);
        let cy = clamp_i32(y, 0, screen_h - 1);
        self.cursor_x = cx;
        self.cursor_y = cy;
        ops.push(InjectOp::FakeMotion { x: cx, y: cy });
        ops.push(InjectOp::Flush);
        ops
    }

    /// Move the cursor by a relative delta (raw hardware counts).
    pub fn mouse_move_rel(&mut self, dx: i32, dy: i32, screen_w: i32, screen_h: i32) -> (r: Vec<InjectOp>)
        requires
            !old(self).uinput && old(self).display ==> {
                &&& screen_w >= 1
                &&& screen_h >= 1
                &&& i32::MIN <= old(self).cursor_x + dx <= i32::MAX
                &&& i32::MIN <= old(self).cursor_y + dy <= i32::MAX
            },
        ensures
            final(self).uinput == old(self).uinput,
            final(self).display == old(self).display,
            if old(self).uinput {
                &&& r@ == seq![
                    InjectOp::Uinput { kind: EV_REL, code: REL_X, value: dx },
                    InjectOp::Uinput { kind: EV_REL, code: REL_Y, value: dy },
                    syn(),
                ]
                &&& final(self).cursor_x == old(self).cursor_x
                &&& final(self).cursor_y == old(self).cursor_y
            } else if old(self).display {
                let nx = clamp(old(self).cursor_x + dx, 0, screen_w - 1) as i32;
                let ny = clamp(old(self).cursor_y + dy, 0, screen_h - 1) as i32;
                &&& r@ == seq![InjectOp::FakeMotion { x: nx, y: ny }, InjectOp::Flush]
                &&& final(self).cursor_x == nx
                &&& final(self).cursor_y == ny
            } else {
                &&& r@ == Seq::<InjectOp>::empty()
                &&& final(self).cursor_x == old(self).cursor_x
                &&& final(self).cursor_y == old(self).cursor_y
            },
    {
        let mut ops: Vec<InjectOp> = Vec::new();
        if self.uinput {
            ops.push(InjectOp::Uinput { kind: EV_REL, code: REL_X, value: dx });
            ops.push(InjectOp::Uinput { kind: EV_REL, code: REL_Y, value: dy });
            ops.push(InjectOp::Uinput { kind: EV_SYN, code: SYN_REPORT, value: 0 });
            return ops;
        }
        if !self.display {
            return ops;
        }
        let nx = clamp_i32(self.cursor_x + dx, 0, screen_w - 1);
        let ny = clamp_i32(self.cursor_y + dy, 0, screen_h - 1);
        self.cursor_x = nx;
        self.cursor_y = ny;
        ops.push(InjectOp::FakeMotion { x: nx, y: ny });
        ops.push(InjectOp::Flush);
        ops
    }

    /// Press or release a mouse button (1 left, 2 middle, 3 right; the virtual
    /// device knows no others).
    pub fn mouse_button(&self, button: u8, pressed: bool) -> (r: Vec<InjectOp>)
        ensures
            if self.uinput {
                match uinput_button(button) {
                    Some(code) => r@ == seq![
                        InjectOp::Uinput { kind: EV_KEY, code, value: if pressed { 1i32 } else { 0i32 } },
                        syn(),
                    ],
                    None => r@ == Seq::<InjectOp>::empty(),
                }
            } else if self.display {
                r@ == seq![InjectOp::FakeButton { button: button as u32, pressed }, InjectOp::Flush]
            } else {
                r@ == Seq::<InjectOp>::empty()
            },
            self.uinput && button == 1 ==> r@.len() == 2 && r@[0] == (InjectOp::Uinput { kind: 1u16, code: 0x110u16, value: if pressed { 1i32 } else { 0i32 } }),
            self.uinput && button == 2 ==> r@.len() == 2 && r@[0] == (InjectOp::Uinput { kind: 1u16, code: 0x112u16, value: if pressed { 1i32 } else { 0i32 } }),
            self.uinput && button == 3 ==> r@.len() == 2 && r@[0] == (InjectOp::Uinput { kind: 1u16, code: 0x111u16, value: if pressed { 1i32 } else { 0i32 } }),
            self.uinput && !(1 <= button <= 3) ==> r@.len() == 0,
    {
        let mut ops: Vec<InjectOp> = Vec::new();
        if self.uinput {
            let code: u16 = match button {
                1 => BTN_LEFT,
                2 => BTN_MIDDLE,
                3 => BTN_RIGHT,
                _ => {
                    return ops;
                },
            };
            let value: i32 = if pressed { 1 } else { 0 };
            ops.push(InjectOp::Uinput { kind: EV_KEY, code, value });
            ops.push(InjectOp::Uinput { kind: EV_SYN, code: SYN_REPORT, value: 0 });
            return ops;
        }
        if self.display {
            ops.push(InjectOp::FakeButton { button: button as u32, pressed });
            ops.push(InjectOp::Flush);
        }
        ops
    }

    /// Scroll by (dx, dy) wheel steps. Through XTest each step is a click of
    /// buttons 4/5 (vertical) or 6/7 (horizontal).
    pub fn mouse_scroll(&self, dx: i32, dy: i32) -> (r: Vec<InjectOp>)
        ensures
            if self.uinput {
                r@ == (if dy != 0 { seq![InjectOp::Uinput { kind: EV_REL, code: REL_WHEEL, value: dy }] } else { seq![] })
                    + (if dx != 0 { seq![InjectOp::Uinput { kind: EV_REL, code: REL_HWHEEL, value: dx }] } else { seq![] })
                    + seq![syn()]
            } else if self.display {
                r@ == seq![
                    InjectOp::FakeClicks { button: if dy > 0 { 5u32 } else { 4u32 }, count: (if dy < 0 { -dy } else { dy as int }) as u32 },
                    InjectOp::FakeClicks { button: if dx > 0 { 7u32 } else { 6u32 }, count: (if dx < 0 { -dx } else { dx as int }) as u32 },
                    InjectOp::Flush,
                ]
            } else {
                r@ == Seq::<InjectOp>::empty()
            },
    {
        let mut ops: Vec<InjectOp> = Vec::new();
        if self.uinput {
            if dy != 0 {
                ops.push(InjectOp::Uinput { kind: EV_REL, code: REL_WHEEL, value: dy });
            }
            if dx != 0 {
                ops.push(InjectOp::Uinput { kind: EV_REL, code: REL_HWHEEL, value: dx });
            }
            ops.push(InjectOp::Uinput { kind: EV_SYN, code: SYN_REPORT, value: 0 });
            proof {
                assert(ops@ =~= (if dy != 0 { seq![InjectOp::Uinput { kind: EV_REL, code: REL_WHEEL, value: dy }] } else { seq![] })
                    + (if dx != 0 { seq![InjectOp::Uinput { kind: EV_REL, code: REL_HWHEEL, value: dx }] } else { seq![] })
                    + seq![syn()]);
            }
            return ops;
        }
        if self.display {
            let vy = magnitude(dy);
            let vx = magnitude(dx);
            ops.push(InjectOp::FakeClicks { button: if dy > 0 { 5 } else { 4 }, count: vy });
            ops.push(InjectOp::FakeClicks { button: if dx > 0 { 7 } else { 6 }, count: vx });
            ops.push(InjectOp::Flush);
        }
        ops
    }

    /// Press or release the key with X11 key code `x11_code`, as the display
    /// maps the key's symbol (None without a display: nothing is injected;
    /// code 0: the symbol has no key). The virtual device takes evdev codes,
    /// the X11 code minus 8.
    pub fn key_event(&self, x11_code: Option<u8>, pressed: bool) -> (r: Vec<InjectOp>)
        ensures
            match x11_code {
                None => r@ == Seq::<InjectOp>::empty(),
                Some(c) => if c == 0 {
                    r@ == Seq::<InjectOp>::empty()
                } else if self.uinput && c > 8 {
                    r@ == seq![
                        InjectOp::Uinput { kind: EV_KEY, code: (c - 8) as u16, value: if pressed { 1i32 } else { 0i32 } },
                        syn(),
                    ]
                } else {
                    r@ == seq![InjectOp::FakeKey { keycode: c as u32, pressed }, InjectOp::Flush]
                },
            },
    {
        let mut ops: Vec<InjectOp> = Vec::new();
        let c = match x11_code {
            Some(c) => c,
            None => {
                return ops;
            },
        };
        if c == 0 {
            return ops;
        }
        let value: i32 = if pressed { 1 } else { 0 };
        if self.uinput {
            match crate::input::evdev_key_code(c) {
                Some(evdev) => {
                    ops.push(InjectOp::Uinput { kind: EV_KEY, code: evdev, value });
                    ops.push(InjectOp::Uinput { kind: EV_SYN, code: SYN_REPORT, value: 0 });
                    return ops;
                },
                None => {},
            }
        }
        ops.push(InjectOp::FakeKey { keycode: c as u32, pressed });
        ops.push(InjectOp::Flush);
        ops
    }
}


/// Through the virtual device, mouse buttons 1, 2 and 3 are the kernel's left
/// (0x110), middle (0x112) and right (0x111) buttons, and no other button has a
/// code.
pub proof fn lemma_uinput_buttons(button: u8)
    ensures
        uinput_button(1) == Some(0x110u16),
        uinput_button(2) == Some(0x112u16),
        uinput_button(3) == Some(0x111u16),
        !(1 <= button <= 3) ==> uinput_button(button) is None,
{
}

} // verus!
