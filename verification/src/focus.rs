//! Which device holds keyboard and mouse focus, and where focus goes when the
//! cursor leaves the focused device's cell of the grid.
use vstd::prelude::*;
use crate::grid::{cell_index, in_grid, neighbor, GridPosition, VirtualGrid};
use crate::spatial::Direction;
use crate::input::HookEvent;

verus! {

/// The device that holds focus and its cell.
#[derive(Debug)]
pub struct FocusTarget {
    pub device_id: String,
    pub position: GridPosition,
}

/// A move of focus to a neighbouring device.
#[derive(Debug)]
pub struct TransferDecision {
    pub from_device: String,
    pub to_device: String,
    pub to_position: GridPosition,
}

/// Tracks which device currently owns keyboard and mouse focus; with none, the
/// host's own input stays local.
#[derive(Debug)]
pub struct InputRouter {
    pub focused: Option<FocusTarget>,
}

impl InputRouter {
    pub fn new() -> (r: Self)
        ensures
            r.focused is None,
    {
        InputRouter { focused: None }
    }

    /// The device that currently holds focus, if any.
    pub fn focused_device(&self) -> (r: Option<&FocusTarget>)
        ensures
            match self.focused {
                Some(f) => r matches Some(g) && *g == f,
                None => r is None,
            },
    {
        match &self.focused {
            Some(f) => Some(f),
            None => None,
        }
    }

    /// Grant focus to a device.
    pub fn grant_focus(&mut self, device_id: String, position: GridPosition)
        ensures
            final(self).focused == Some(FocusTarget { device_id, position }),
    {
        self.focused = Some(FocusTarget { device_id, position });
    }

    /// Release focus: input goes to the host again.
    pub fn release_focus(&mut self)
        ensures
            final(self).focused is None,
    {
        self.focused = None;
    }

    /// When the cursor leaves the focused device's cell across edge `dir`, the
    /// device in the neighbouring cell that receives focus. None when nothing
    /// holds focus, the step leaves the grid, or the neighbouring cell is empty.
    pub fn maybe_transfer(&self, grid: &VirtualGrid, dir: Direction) -> (r: Option<TransferDecision>)
        requires
            grid.wf(),
        ensures
            match self.focused {
                None => r is None,
                Some(f) => match neighbor(f.position, dir) {
                    Some(p) => if in_grid(grid.rows, grid.cols, p) && grid.cells@[cell_index(grid.cols, p.row, p.col)].screen is Some {
                        r matches Some(d) && d.from_device@ == f.device_id@ && d.to_position == p
                            && d.to_device@ == grid.cells@[cell_index(grid.cols, p.row, p.col)].screen->0.device_id@
                    } else {
                        r is None
                    },
                    None => r is None,
                },
            },
    {
        let focused = match &self.focused {
            Some(f) => f,
            None => {
                return None;
            },
        };
        match grid.edge_target(focused.position, dir) {
            Some((screen, pos)) => Some(TransferDecision {
                from_device: focused.device_id.as_str().to_owned(),
                to_device: screen.device_id.as_str().to_owned(),
                to_position: pos,
            }),
            None => None,
        }
    }
}

/// The cursor reached an edge toward `target`: when nothing holds focus and
/// `target` is connected, `target` receives focus; returns whether it did.
pub fn grant_focus_to(focused: &mut Option<String>, target: &str, connected: bool) -> (r: bool)
    ensures
        r == (*old(focused) is None && connected),
        r ==> (*final(focused) matches Some(d) && d@ == target@),
        !r ==> *final(focused) == *old(focused),
{
    if focused.is_none() && connected {
        *focused = Some(target.to_owned());
        true
    } else {
        false
    }
}

/// When `device_id` holds focus (by id), focus goes back to the host; returns
/// whether it did.
pub fn clear_focus_if(focused: &mut Option<String>, device_id: &str) -> (r: bool)
    ensures
        r == (*old(focused) matches Some(d) && d@ == device_id@),
        r ==> *final(focused) is None,
        !r ==> *final(focused) == *old(focused),
{
    let hit = match focused {
        Some(d) => d.as_str().eq(device_id),
        None => false,
    };
    if hit {
        *focused = None;
    }
    hit
}

/// The key symbol of Escape (`XK_Escape`); pressing it hands focus back to the host.
pub const KEYSYM_ESCAPE: u32 = 0xFF1B;

/// What the host does with an event its input hook captured.
#[derive(Debug)]
pub enum HookRoute {
    /// No device holds focus: the event stays local.
    Local,
    /// Forward the event to the focused device.
    Forward { device_id: String, event: HookEvent },
    /// Escape was pressed: tell the device to drop focus; focus is back on the host.
    ReleaseFocus { device_id: String },
}

/// Route a captured event: to the device holding focus, except that pressing
/// Escape returns focus to the host.
pub fn route_hook_event(focused: &mut Option<String>, event: HookEvent) -> (r: HookRoute)
    ensures
        match *old(focused) {
            None => r is Local && *final(focused) is None,
            Some(d) => if event matches HookEvent::KeyEvent { keysym, pressed, .. } && keysym == KEYSYM_ESCAPE && pressed {
                r matches HookRoute::ReleaseFocus { device_id } && device_id@ == d@ && *final(focused) is None
            } else {
                r matches HookRoute::Forward { device_id, event: e } && device_id@ == d@ && e == event
                    && *final(focused) == *old(focused)
            },
        },
{
    let device_id = match focused {
        Some(d) => d.as_str().to_owned(),
        None => {
            return HookRoute::Local;
        },
    };
    match event {
        HookEvent::KeyEvent { keysym, pressed, .. } => {
            if keysym == KEYSYM_ESCAPE && pressed {
                *focused = None;
                return HookRoute::ReleaseFocus { device_id };
            }
        },
        _ => {},
    }
    HookRoute::Forward { device_id, event }
}

} // verus!
