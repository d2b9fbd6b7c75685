//! What the host application shows and accepts in its user interface: device
//! events, the grid, the host's own screens, and the spatial layout editor.
use vstd::prelude::*;
use crate::device::DeviceRegistry;
use crate::focus::clear_focus_if;
use crate::grid::{grid_cells, occupied_cells, without_device, VirtualGrid};
use crate::monitors::HostMonitor;
use crate::spatial::{is_first_match, kept, lemma_first_match_unique, ScreenPlacement, SpatialLayout};

verus! {

/// One occupied grid cell as the interface shows it.
#[derive(Debug)]
pub struct GridCellUiPayload {
    pub row: u32,
    pub col: u32,
    pub device_id: String,
    pub screen_id: String,
}

/// Device events the host reports to its interface.
#[derive(Debug)]
pub enum DeviceEvent {
    Connected { device_id: String, display_name: String, os_type: String },
    Pairing { device_id: String, pin: String },
    Established { device_id: String },
    Disconnected { device_id: String },
    GridUpdate { cells: Vec<GridCellUiPayload> },
}

/// The occupied cells of `grid`, in cell order, as the interface shows them.
pub fn ui_cells(grid: &VirtualGrid) -> (r: Vec<GridCellUiPayload>)
    ensures
        r@.len() == occupied_cells(grid.cells@).len(),
        forall|i: int| 0 <= i < r@.len() ==> {
            let m = occupied_cells(grid.cells@)[i];
            &&& (#[trigger] r@[i]).row == m.row
            &&& r@[i].col == m.col
            &&& r@[i].device_id@ == m.device_id@
            &&& r@[i].screen_id@ == m.screen_id@
        },
{
    let msgs = grid_cells(grid);
    let mut out: Vec<GridCellUiPayload> = Vec::new();
    let mut i: usize = 0;
    while i < msgs.len()
        invariant
            msgs@ == occupied_cells(grid.cells@),
            i <= msgs@.len(),
            out@.len() == i,
            forall|j: int| 0 <= j < i ==> {
                let m = msgs@[j];
                &&& (#[trigger] out@[j]).row == m.row
                &&& out@[j].col == m.col
                &&& out@[j].device_id@ == m.device_id@
                &&& out@[j].screen_id@ == m.screen_id@
            },
        decreases msgs@.len() - i,
    {
        let m = &msgs[i];
        out.push(GridCellUiPayload {
            row: m.row,
            col: m.col,
            device_id: m.device_id.as_str().to_owned(),
            screen_id: m.screen_id.as_str().to_owned(),
        });
        i += 1;
    }
    out
}

/// A new position for a screen of the spatial layout, from the editor.
#[derive(Debug)]
pub struct ScreenPositionPayload {
    pub device_id: String,
    pub x: i32,
    pub y: i32,
}

/// The screens after the first screen of `id` is moved to (x, y); unchanged
/// when there is none.
pub open spec fn moved(s: Seq<ScreenPlacement>, id: Seq<char>, x: i32, y: i32) -> Seq<ScreenPlacement> {
    if exists|i: int| is_first_match(s, id, i) {
        let i = choose|i: int| is_first_match(s, id, i);
        s.update(i, ScreenPlacement { x, y, ..s[i] })
    } else {
        s
    }
}

/// The screens after each position of `ps` is applied, in order.
pub open spec fn with_positions(s: Seq<ScreenPlacement>, ps: Seq<ScreenPositionPayload>) -> Seq<ScreenPlacement>
    decreases ps.len(),
{
    if ps.len() == 0 {
        s
    } else {
        let p = ps.last();
        moved(with_positions(s, ps.drop_last()), p.device_id@, p.x, p.y)
    }
}

/// Move screens of the layout to the positions the editor sent; sizes stay as
/// the devices reported them, and positions of unknown devices are ignored.
pub fn update_spatial_layout(layout: &mut SpatialLayout, screens: &[ScreenPositionPayload])
    ensures
        final(layout).screens@ == with_positions(old(layout).screens@, screens@),
{
    let ghost orig = layout.screens@;
    let mut i: usize = 0;
    assert(screens@.take(0) =~= Seq::<ScreenPositionPayload>::empty());
    while i < screens.len()
        invariant
            i <= screens@.len(),
            orig == old(layout).screens@,
            layout.screens@ == with_positions(orig, screens@.take(i as int)),
        decreases screens@.len() - i,
    {
        let sp = &screens[i];
        let ghost before = layout.screens@;
        assert(screens@.take(i + 1).drop_last() =~= screens@.take(i as int));
        assert(screens@.take(i + 1).last() == screens@[i as int]);
        match layout.find_mut(sp.device_id.as_str()) {
            Some(p) => {
                p.x = sp.x;
                p.y = sp.y;
            },
            None => {},
        }
        proof {
            let id = sp.device_id@;
            if exists|k: int| is_first_match(before, id, k) {
                let k = choose|k: int| is_first_match(before, id, k);
                let w = choose|w: int| is_first_match(before, id, w) && layout.screens@ =~= before.update(
                    w,
                    ScreenPlacement { x: sp.x, y: sp.y, ..before[w] },
                );
                lemma_first_match_unique(before, id, k, w);
                assert(layout.screens@ =~= moved(before, id, sp.x, sp.y));
            } else {
                assert(layout.screens@ =~= before);
            }
        }
        i += 1;
    }
    assert(screens@.take(i as int) =~= screens@);
}

/// One of the host's own screens as the interface shows it.
#[derive(Debug)]
pub struct HostScreenInfo {
    pub device_id: String,
    pub x: i32,
    pub y: i32,
    pub width_px: u32,
    pub height_px: u32,
    pub name: String,
    pub hostname: String,
}

/// What the interface shows about the host.
#[derive(Debug)]
pub struct HostInfo {
    pub host_id: String,
    pub addr: String,
    pub host_screens: Vec<HostScreenInfo>,
}

/// The host's monitors as the interface shows them, all under `hostname`.
pub fn host_screens(monitors: &[HostMonitor], hostname: &str) -> (r: Vec<HostScreenInfo>)
    ensures
        r@.len() == monitors@.len(),
        forall|i: int| 0 <= i < r@.len() ==> {
            let m = monitors@[i];
            &&& (#[trigger] r@[i]).device_id@ == m.device_id@
            &&& r@[i].x == m.x
            &&& r@[i].y == m.y
            &&& r@[i].width_px == m.width as u32
            &&& r@[i].height_px == m.height as u32
            &&& r@[i].name@ == m.name@
            &&& r@[i].hostname@ == hostname@
        },
{
    let mut out: Vec<HostScreenInfo> = Vec::new();
    let mut i: usize = 0;
    while i < monitors.len()
        invariant
            i <= monitors@.len(),
            out@.len() == i,
            forall|j: int| 0 <= j < i ==> {
                let m = monitors@[j];
                &&& (#[trigger] out@[j]).device_id@ == m.device_id@
                &&& out@[j].x == m.x
                &&& out@[j].y == m.y
                &&& out@[j].width_px == m.width as u32
                &&& out@[j].height_px == m.height as u32
                &&& out@[j].name@ == m.name@
                &&& out@[j].hostname@ == hostname@
            },
        decreases monitors@.len() - i,
    {
        let m = &monitors[i];
        out.push(HostScreenInfo {
            device_id: m.device_id.as_str().to_owned(),
            x: m.x,
            y: m.y,
            width_px: m.width as u32,
            height_px: m.height as u32,
            name: m.name.as_str().to_owned(),
            hostname: hostname.to_owned(),
        });
        i += 1;
    }
    out
}

/// The largest right edge and the largest bottom edge over `ms`; none when empty.
pub open spec fn max_extent(ms: Seq<HostMonitor>) -> Option<(int, int)>
    decreases ms.len(),
{
    if ms.len() == 0 {
        None
    } else {
        let m = ms.last();
        let (r, b) = (m.x + m.width, m.y + m.height);
        match max_extent(ms.drop_last()) {
            None => Some((r, b)),
            Some((pr, pb)) => Some((if r > pr { r } else { pr }, if b > pb { b } else { pb })),
        }
    }
}

/// The size of the combined desktop as the monitors span it: the largest
/// right edge and bottom edge, or 1920 x 1080 when there are no monitors.
pub fn desktop_extent(monitors: &[HostMonitor]) -> (r: (i32, i32))
    requires
        forall|i: int| 0 <= i < monitors@.len() ==> i32::MIN <= (#[trigger] monitors@[i]).x + monitors@[i].width <= i32::MAX
            && i32::MIN <= monitors@[i].y + monitors@[i].height <= i32::MAX,
    ensures
        match max_extent(monitors@) {
            None => r == (1920i32, 1080i32),
            Some((w, h)) => r.0 == w && r.1 == h,
        },
{
    let mut best: Option<(i32, i32)> = None;
    let mut i: usize = 0;
    assert(monitors@.take(0) =~= Seq::<HostMonitor>::empty());
    while i < monitors.len()
        invariant
            i <= monitors@.len(),
            forall|j: int| 0 <= j < monitors@.len() ==> i32::MIN <= (#[trigger] monitors@[j]).x + monitors@[j].width <= i32::MAX
                && i32::MIN <= monitors@[j].y + monitors@[j].height <= i32::MAX,
            match max_extent(monitors@.take(i as int)) {
                None => best is None,
                Some((w, h)) => best matches Some((bw, bh)) && bw == w && bh == h,
            },
        decreases monitors@.len() - i,
    {
        let m = &monitors[i];
        assert(monitors@.take(i + 1).drop_last() =~= monitors@.take(i as int));
        assert(monitors@.take(i + 1).last() == monitors@[i as int]);
        let r = m.x + m.width;
        let b = m.y + m.height;
        best = match best {
            None => Some((r, b)),
            Some((pr, pb)) => Some((if r > pr { r } else { pr }, if b > pb { b } else { pb })),
        };
        i += 1;
    }
    assert(monitors@.take(i as int) =~= monitors@);
    match best {
        Some(e) => e,
        None => (1920, 1080),
    }
}


/// A device disconnected: forget it in the registry, the grid and the spatial
/// layout, and give focus back to the host when it held focus. Returns whether
/// it held focus (the caller then releases the input grab).
pub fn forget_device(
    registry: &mut DeviceRegistry,
    grid: &mut VirtualGrid,
    layout: &mut SpatialLayout,
    focused: &mut Option<String>,
    device_id: &str,
) -> (r: bool)
    requires
        old(grid).wf(),
    ensures
        final(registry)@ == old(registry)@.remove(device_id@),
        final(grid).wf(),
        final(grid).rows == old(grid).rows,
        final(grid).cols == old(grid).cols,
        final(grid).cells@ == without_device(old(grid).cells@, device_id@),
        final(layout).screens@ == old(layout).screens@.filter(kept(device_id@)),
        r == (*old(focused) matches Some(d) && d@ == device_id@),
        r ==> *final(focused) is None,
        !r ==> *final(focused) == *old(focused),
{
    let _ = registry.remove(device_id);
    grid.remove_screen(device_id);
    layout.remove(device_id);
    clear_focus_if(focused, device_id)
}

} // verus!
