//! Agent-side tracking of the injected cursor while the agent has focus.
use vstd::prelude::*;

verus! {

/// What a relative mouse move from the host turns into on the agent.
#[derive(Debug, Clone, Copy, PartialEq, Eq, Structural)]
pub enum MoveAction {
    /// The agent does not have focus: nothing happens.
    Ignore,
    /// Move the local cursor by this delta.
    Inject { dx: i32, dy: i32 },
    /// The cursor left the screen: move it by the nudge (when non-zero) onto the
    /// edge, and hand focus back to the host, reporting where it left
    /// (`exit_x`, `exit_y`, in pixels, possibly off-screen).
    Release { nudge_dx: i32, nudge_dy: i32, exit_x: i32, exit_y: i32 },
    /// The cursor is still off-screen after a release was already sent: it only
    /// stays clamped to the edge.
    Hold,
}

/// Cursor state of an agent's event loop.
#[derive(Debug, Clone, Copy, PartialEq, Eq, Structural)]
pub struct AgentCursor {
    pub screen_w: i32,
    pub screen_h: i32,
    pub focused: bool,
    pub cursor_x: i32,
    pub cursor_y: i32,
    /// A focus release was sent and the cursor has not come back yet.
    pub pending_release: bool,
}

pub open spec fn clamp(v: int, lo: int, hi: int) -> int {
    if v < lo { lo } else if v > hi { hi } else { v }
}

/// The cursor position `(x, y)` lies outside a `w` x `h` screen.
pub open spec fn off_screen(x: int, y: int, w: int, h: int) -> bool {
    x < 0 || x >= w || y < 0 || y >= h
}

/// The state and action after a relative move by `(dx, dy)`.
pub open spec fn after_move(c: AgentCursor, dx: i32, dy: i32) -> (AgentCursor, MoveAction) {
    if !c.focused {
        (c, MoveAction::Ignore)
    } else {
        let nx = c.cursor_x + dx;
        let ny = c.cursor_y + dy;
        if off_screen(nx, ny, c.screen_w as int, c.screen_h as int) {
            let ex = clamp(nx, 0, c.screen_w - 1);
            let ey = clamp(ny, 0, c.screen_h - 1);
            let next = AgentCursor { cursor_x: ex as i32, cursor_y: ey as i32, pending_release: true, ..c };
            if c.pending_release {
                (next, MoveAction::Hold)
            } else {
                (next, MoveAction::Release {
                    nudge_dx: (ex - c.cursor_x) as i32,
                    nudge_dy: (ey - c.cursor_y) as i32,
                    exit_x: nx as i32,
                    exit_y: ny as i32,
                })
            }
        } else {
            (AgentCursor { cursor_x: nx as i32, cursor_y: ny as i32, pending_release: false, ..c },
                MoveAction::Inject { dx, dy })
        }
    }
}

/// The arithmetic of a move stays within `i32`.
pub open spec fn move_fits(c: AgentCursor, dx: i32, dy: i32) -> bool {
    let nx = c.cursor_x + dx;
    let ny = c.cursor_y + dy;
    c.focused ==> {
        &&& i32::MIN <= nx <= i32::MAX
        &&& i32::MIN <= ny <= i32::MAX
        &&& (off_screen(nx, ny, c.screen_w as int, c.screen_h as int) && !c.pending_release) ==> {
            &&& i32::MIN <= clamp(nx, 0, c.screen_w - 1) - c.cursor_x <= i32::MAX
            &&& i32::MIN <= clamp(ny, 0, c.screen_h - 1) - c.cursor_y <= i32::MAX
        }
    }
}

impl AgentCursor {
    /// A cursor without focus, centred on a `screen_w` x `screen_h` screen.
    pub fn new(screen_w: i32, screen_h: i32) -> (r: Self)
        requires
            screen_w >= 1,
            screen_h >= 1,
        ensures
            r == (AgentCursor {
                screen_w,
                screen_h,
                focused: false,
                cursor_x: (screen_w / 2) as i32,
                cursor_y: (screen_h / 2) as i32,
                pending_release: false,
            }),
    {
        AgentCursor {
            screen_w,
            screen_h,
            focused: false,
            cursor_x: screen_w / 2,
            cursor_y: screen_h / 2,
            pending_release: false,
        }
    }

    /// Focus arrives with the cursor entering at pixel `(x, y)`.
    pub fn focus_transfer(&mut self, x: i32, y: i32)
        ensures
            *final(self) == (AgentCursor { focused: true, pending_release: false, cursor_x: x, cursor_y: y, ..*old(self) }),
    {
        self.focused = true;
        self.pending_release = false;
        self.cursor_x = x;
        self.cursor_y = y;
    }

    /// Focus returns to the host.
    pub fn focus_drop(&mut self)
        ensures
            *final(self) == (AgentCursor { focused: false, pending_release: false, ..*old(self) }),
    {
        self.focused = false;
        self.pending_release = false;
    }

    /// Apply a relative move from the host.
    pub fn mouse_move(&mut self, dx: i32, dy: i32) -> (r: MoveAction)
        requires
            old(self).screen_w >= 1,
            old(self).screen_h >= 1,
            move_fits(*old(self), dx, dy),
        ensures
            (*final(self), r) == after_move(*old(self), dx, dy),
    {
        if !self.focused {
            return MoveAction::Ignore;
        }
        let prev_x = self.cursor_x;
        let prev_y = self.cursor_y;
        let nx = self.cursor_x + dx;
        let ny = self.cursor_y + dy;
        let oob = nx < 0 || nx >= self.screen_w || ny < 0 || ny >= self.screen_h;
        if oob {
            let ex = if nx < 0 { 0 } else if nx > self.screen_w - 1 { self.screen_w - 1 } else { nx };
            let ey = if ny < 0 { 0 } else if ny > self.screen_h - 1 { self.screen_h - 1 } else { ny };
            let action = if !self.pending_release {
                MoveAction::Release { nudge_dx: ex - prev_x, nudge_dy: ey - prev_y, exit_x: nx, exit_y: ny }
            } else {
                MoveAction::Hold
            };
            self.pending_release = true;
            self.cursor_x = ex;
            self.cursor_y = ey;
            action
        } else {
            self.pending_release = false;
            self.cursor_x = nx;
            self.cursor_y = ny;
            MoveAction::Inject { dx, dy }
        }
    }

    /// Button, scroll and key events are injected only while the agent has focus.
    pub fn accepts_input(&self) -> (r: bool)
        ensures
            r == self.focused,
    {
        self.focused
    }
}

/// While the agent has focus, a move keeps the cursor on the screen.
pub proof fn lemma_move_stays_on_screen(c: AgentCursor, dx: i32, dy: i32)
    requires
        c.focused,
        c.screen_w >= 1,
        c.screen_h >= 1,
    ensures
        0 <= after_move(c, dx, dy).0.cursor_x < c.screen_w,
        0 <= after_move(c, dx, dy).0.cursor_y < c.screen_h,
{
}

/// One focus release per exit: further moves off the screen only hold the
/// cursor at the edge until it comes back.
pub proof fn lemma_single_release(c: AgentCursor, dx1: i32, dy1: i32, dx2: i32, dy2: i32)
    requires
        c.focused,
        c.screen_w >= 1,
        c.screen_h >= 1,
        after_move(c, dx1, dy1).1 is Release,
        off_screen(
            after_move(c, dx1, dy1).0.cursor_x + dx2,
            after_move(c, dx1, dy1).0.cursor_y + dy2,
            c.screen_w as int,
            c.screen_h as int,
        ),
    ensures
        after_move(after_move(c, dx1, dy1).0, dx2, dy2).1 == MoveAction::Hold,
{
}


/// What the host sends that changes the agent's cursor: focus arriving at a
/// pixel, focus dropped, or a relative move.
#[derive(Debug, Clone, Copy, PartialEq, Eq, Structural)]
pub enum CursorEvent {
    Transfer { x: i32, y: i32 },
    Drop,
    Move { dx: i32, dy: i32 },
}

/// The cursor after one event, as `focus_transfer`, `focus_drop` and
/// `mouse_move` leave it.
pub open spec fn after_event(c: AgentCursor, e: CursorEvent) -> AgentCursor {
    match e {
        CursorEvent::Transfer { x, y } => AgentCursor { focused: true, pending_release: false, cursor_x: x, cursor_y: y, ..c },
        CursorEvent::Drop => AgentCursor { focused: false, pending_release: false, ..c },
        CursorEvent::Move { dx, dy } => after_move(c, dx, dy).0,
    }
}

/// The cursor after a run of events, in order.
pub open spec fn after_events(c: AgentCursor, es: Seq<CursorEvent>) -> AgentCursor
    decreases es.len(),
{
    if es.len() == 0 {
        c
    } else {
        after_event(after_events(c, es.drop_last()), es.last())
    }
}

/// Focus is held after `es`: some event of the run handed focus over and no
/// later one dropped it, or the cursor had focus and no event dropped it.
pub open spec fn focus_held(was_focused: bool, es: Seq<CursorEvent>) -> bool {
    ||| exists|i: int| #![trigger es[i]] 0 <= i < es.len() && es[i] is Transfer
        && forall|j: int| i < j < es.len() ==> !(#[trigger] es[j] is Drop)
    ||| was_focused && forall|j: int| 0 <= j < es.len() ==> !(#[trigger] es[j] is Drop)
}

/// The agent takes input only while it holds focus: after a run of events it
/// accepts input exactly when a focus transfer came and no focus drop came
/// after it (or it had focus and no drop came), and a move is turned into an
/// injection or a release only then; without focus a move is ignored.
pub proof fn lemma_input_only_while_focused(c: AgentCursor, es: Seq<CursorEvent>, dx: i32, dy: i32)
    ensures
        after_events(c, es).focused == focus_held(c.focused, es),
        !focus_held(c.focused, es) ==> after_move(after_events(c, es), dx, dy).1 == MoveAction::Ignore,
        after_move(after_events(c, es), dx, dy).1 != MoveAction::Ignore ==> focus_held(c.focused, es),
    decreases es.len(),
{
    if es.len() > 0 {
        let t = es.drop_last();
        let n = es.len() - 1;
        lemma_input_only_while_focused(c, t, dx, dy);
        assert(es[n] == es.last());
        if focus_held(c.focused, t) && !(es.last() is Drop) {
            if exists|i: int| #![trigger t[i]] 0 <= i < t.len() && t[i] is Transfer
                && forall|j: int| i < j < t.len() ==> !(#[trigger] t[j] is Drop) {
                let i = choose|i: int| #![trigger t[i]] 0 <= i < t.len() && t[i] is Transfer
                    && forall|j: int| i < j < t.len() ==> !(#[trigger] t[j] is Drop);
                assert(es[i] == t[i]);
                assert forall|j: int| i < j < es.len() implies !(#[trigger] es[j] is Drop) by {
                    if j < n {
                        assert(es[j] == t[j]);
                    }
                }
            } else {
                assert forall|j: int| 0 <= j < es.len() implies !(#[trigger] es[j] is Drop) by {
                    if j < n {
                        assert(es[j] == t[j]);
                    }
                }
            }
        }
        if focus_held(c.focused, es) {
            if exists|i: int| #![trigger es[i]] 0 <= i < es.len() && es[i] is Transfer
                && forall|j: int| i < j < es.len() ==> !(#[trigger] es[j] is Drop) {
                let i = choose|i: int| #![trigger es[i]] 0 <= i < es.len() && es[i] is Transfer
                    && forall|j: int| i < j < es.len() ==> !(#[trigger] es[j] is Drop);
                if i < n {
                    assert(t[i] == es[i]);
                    assert forall|j: int| i < j < t.len() implies !(#[trigger] t[j] is Drop) by {
                        assert(t[j] == es[j]);
                    }
                }
            } else {
                assert forall|j: int| 0 <= j < t.len() implies !(#[trigger] t[j] is Drop) by {
                    assert(t[j] == es[j]);
                }
            }
        }
        if es.last() is Transfer {
            assert(focus_held(c.focused, es)) by {
                assert(es[n] is Transfer);
            }
        }
    }
}


/// A release reports where the move took the cursor, off the screen and not
/// clamped onto it, and its nudge takes the cursor from where it was onto the
/// screen's edge.
pub proof fn lemma_release_reports_exit(c: AgentCursor, dx: i32, dy: i32)
    requires
        c.screen_w >= 1,
        c.screen_h >= 1,
        move_fits(c, dx, dy),
    ensures
        after_move(c, dx, dy).1 is Release ==> {
            let a = after_move(c, dx, dy).1;
            &&& a->exit_x == c.cursor_x + dx
            &&& a->exit_y == c.cursor_y + dy
            &&& off_screen(a->exit_x as int, a->exit_y as int, c.screen_w as int, c.screen_h as int)
            &&& 0 <= c.cursor_x + a->nudge_dx < c.screen_w
            &&& 0 <= c.cursor_y + a->nudge_dy < c.screen_h
        },
{
}

} // verus!
