use contixis::config::AppConfig;
use contixis::device::{DeviceInfo, DeviceRegistry, DeviceStatus};
use contixis::focus::{clear_focus_if, grant_focus_to, route_hook_event, HookRoute, InputRouter, KEYSYM_ESCAPE};
use contixis::input::HookEvent;
use contixis::grid::{GridPosition, ScreenInfo, VirtualGrid, UNIT_SCALE_BITS};
use contixis::host_view::{desktop_extent, forget_device, host_screens, ui_cells, update_spatial_layout, ScreenPositionPayload};
use contixis::monitors::{host_monitor_name, locate_edge, place_host_monitors, HostMonitor};
use contixis::pool::BufferPool;
use contixis::spatial::{Direction, ScreenPlacement, SpatialLayout};
use std::time::Instant;

fn dev(id: &str, status: DeviceStatus) -> DeviceInfo {
    DeviceInfo {
        device_id: id.to_string(),
        display_name: None,
        addr: "10.0.0.5:50000".to_string(),
        status,
        grid_pos: None,
        connected_at: Instant::now(),
    }
}

#[test]
fn device_registry_records_and_counts() {
    let mut r = DeviceRegistry::new();
    r.insert(dev("a", DeviceStatus::Established));
    r.insert(dev("b", DeviceStatus::Connected));
    r.insert(dev("c", DeviceStatus::Established));
    assert_eq!(r.established_count(), 2);
    r.set_status("b", DeviceStatus::Established);
    assert_eq!(r.established_count(), 3);
    r.set_grid_pos("a", Some(GridPosition { row: 1, col: 2 }));
    assert_eq!(r.get("a").unwrap().grid_pos, Some(GridPosition { row: 1, col: 2 }));
    r.set_status("zzz", DeviceStatus::Disconnected);
    assert!(r.get("zzz").is_none());
    let removed = r.remove("a").unwrap();
    assert_eq!(removed.device_id, "a");
    assert!(r.remove("a").is_none());
    assert_eq!(r.all().len(), 2);
    assert_eq!(r.established_count(), 2);
    r.insert(dev("c", DeviceStatus::Disconnected));
    assert_eq!(r.all().len(), 2);
    assert_eq!(r.established_count(), 1);
}

fn mon(x: i32, y: i32, w: i32, h: i32, id: &str) -> HostMonitor {
    HostMonitor { x, y, width: w, height: h, grid_pos: GridPosition { row: 1, col: 0 }, name: "DP-1".to_string(), device_id: id.to_string() }
}

#[test]
fn host_monitors_are_sorted_left_to_right_in_row_one() {
    let mut g = VirtualGrid::new(3, 3);
    let raw = vec![
        (1920, 0, 1280, 1024, "HDMI-1".to_string()),
        (0, 0, 1920, 1080, "DP-1".to_string()),
    ];
    let ms = place_host_monitors(&mut g, raw);
    assert_eq!(ms.len(), 2);
    assert_eq!((ms[0].x, ms[0].name.as_str(), ms[0].device_id.as_str()), (0, "DP-1", "__host__0"));
    assert_eq!((ms[1].x, ms[1].name.as_str(), ms[1].device_id.as_str()), (1920, "HDMI-1", "__host__1"));
    assert_eq!(ms[1].grid_pos, GridPosition { row: 1, col: 1 });
    assert_eq!(g.find_device("__host__1"), Some(GridPosition { row: 1, col: 1 }));
    let s = g.get_cell(GridPosition { row: 1, col: 0 }).unwrap().screen.as_ref().unwrap();
    assert_eq!((s.width_px, s.height_px, s.scale_factor_bits), (1920, 1080, UNIT_SCALE_BITS));
    assert_eq!(host_monitor_name(12), "__host__12");
}

#[test]
fn locate_edge_finds_monitor_and_touched_edge() {
    let ms = vec![mon(0, 0, 1920, 1080, "__host__0"), mon(1920, 0, 1280, 1024, "__host__1")];
    assert_eq!(locate_edge(&ms, 960, 540), Some((0, None)));
    assert_eq!(locate_edge(&ms, 3, 540), Some((0, Some(Direction::Left))));
    assert_eq!(locate_edge(&ms, 1914, 540), Some((0, Some(Direction::Right))));
    assert_eq!(locate_edge(&ms, 1913, 540), Some((0, None)));
    assert_eq!(locate_edge(&ms, 960, 5), Some((0, Some(Direction::Up))));
    assert_eq!(locate_edge(&ms, 960, 1074), Some((0, Some(Direction::Down))));
    assert_eq!(locate_edge(&ms, 2500, 500), Some((1, None)));
    assert_eq!(locate_edge(&ms, 2500, 1050), None);
}

#[test]
fn desktop_extent_of_monitors() {
    let ms = vec![mon(0, 0, 1920, 1080, "a"), mon(1920, 0, 1280, 1024, "b")];
    assert_eq!(desktop_extent(&ms), (3200, 1080));
    assert_eq!(desktop_extent(&[]), (1920, 1080));
}

#[test]
fn host_screen_listing() {
    let ms = vec![mon(10, 20, 1920, 1080, "__host__0")];
    let hs = host_screens(&ms, "box");
    assert_eq!(hs.len(), 1);
    assert_eq!((hs[0].device_id.as_str(), hs[0].x, hs[0].y, hs[0].width_px, hs[0].height_px, hs[0].name.as_str(), hs[0].hostname.as_str()),
        ("__host__0", 10, 20, 1920, 1080, "DP-1", "box"));
}

#[test]
fn ui_cells_mirror_the_grid() {
    let mut g = VirtualGrid::new(2, 2);
    g.place_screen(GridPosition { row: 1, col: 1 }, ScreenInfo { device_id: "a".to_string(), width_px: 1, height_px: 1, scale_factor_bits: UNIT_SCALE_BITS });
    let cells = ui_cells(&g);
    assert_eq!(cells.len(), 1);
    assert_eq!((cells[0].row, cells[0].col, cells[0].device_id.as_str(), cells[0].screen_id.as_str()), (1, 1, "a", "a"));
}

#[test]
fn spatial_positions_from_the_editor() {
    let mut l = SpatialLayout::new();
    l.place(ScreenPlacement { device_id: "a".to_string(), x: 0, y: 0, width: 100, height: 100 });
    l.place(ScreenPlacement { device_id: "b".to_string(), x: 100, y: 0, width: 50, height: 50 });
    let moves = vec![
        ScreenPositionPayload { device_id: "b".to_string(), x: 7, y: 8 },
        ScreenPositionPayload { device_id: "zzz".to_string(), x: 1, y: 1 },
        ScreenPositionPayload { device_id: "b".to_string(), x: 9, y: 10 },
    ];
    update_spatial_layout(&mut l, &moves);
    let b = l.find("b").unwrap();
    assert_eq!((b.x, b.y, b.width, b.height), (9, 10, 50, 50));
    assert_eq!(l.screens.len(), 2);
}

#[test]
fn router_transfers_focus_to_neighbour() {
    let mut g = VirtualGrid::new(3, 3);
    g.place_screen(GridPosition { row: 1, col: 1 }, ScreenInfo { device_id: "host".to_string(), width_px: 1, height_px: 1, scale_factor_bits: UNIT_SCALE_BITS });
    g.place_screen(GridPosition { row: 1, col: 2 }, ScreenInfo { device_id: "agent".to_string(), width_px: 1, height_px: 1, scale_factor_bits: UNIT_SCALE_BITS });
    let mut r = InputRouter::new();
    assert!(r.maybe_transfer(&g, Direction::Right).is_none());
    r.grant_focus("host".to_string(), GridPosition { row: 1, col: 1 });
    assert_eq!(r.focused_device().unwrap().device_id, "host");
    let d = r.maybe_transfer(&g, Direction::Right).unwrap();
    assert_eq!((d.from_device.as_str(), d.to_device.as_str(), d.to_position), ("host", "agent", GridPosition { row: 1, col: 2 }));
    assert!(r.maybe_transfer(&g, Direction::Left).is_none());
    r.release_focus();
    assert!(r.focused_device().is_none());
}

#[test]
fn focus_cleared_only_for_its_holder() {
    let mut f = Some("a".to_string());
    assert!(!clear_focus_if(&mut f, "b"));
    assert_eq!(f.as_deref(), Some("a"));
    assert!(clear_focus_if(&mut f, "a"));
    assert!(f.is_none());
    assert!(!clear_focus_if(&mut f, "a"));
}

#[test]
fn buffer_pool_reuses_returned_buffers() {
    let mut p = BufferPool::new(4, 1);
    let a = p.acquire();
    assert_eq!(a, vec![0u8; 4]);
    let b = p.acquire();
    assert_eq!(b, vec![0u8; 4]);
    p.release(vec![1, 2, 3, 4]);
    assert_eq!(p.acquire(), vec![1, 2, 3, 4]);
}

#[test]
fn default_config() {
    let c = AppConfig::default_in("/tmp/data".to_string());
    assert_eq!((c.grid_rows, c.grid_cols), (3, 3));
    assert_eq!(c.listen_addr, "0.0.0.0:7443");
    assert_eq!(c.data_dir, "/tmp/data");
    assert!(c.mdns_enabled);
    assert_eq!(c.log_level, "info");
}

#[test]
fn hook_events_follow_focus_and_escape_releases_it() {
    let mut focused: Option<String> = None;
    assert!(matches!(route_hook_event(&mut focused, HookEvent::MouseMove { dx: 1, dy: 2 }), HookRoute::Local));
    focused = Some("agent".to_string());
    match route_hook_event(&mut focused, HookEvent::MouseMove { dx: 1, dy: 2 }) {
        HookRoute::Forward { device_id, event } => {
            assert_eq!(device_id, "agent");
            assert_eq!(event, HookEvent::MouseMove { dx: 1, dy: 2 });
        }
        _ => panic!("expected Forward"),
    }
    match route_hook_event(&mut focused, HookEvent::KeyEvent { keysym: KEYSYM_ESCAPE, pressed: false, modifiers: 0 }) {
        HookRoute::Forward { .. } => {}
        _ => panic!("a release of Escape is forwarded"),
    }
    match route_hook_event(&mut focused, HookEvent::KeyEvent { keysym: KEYSYM_ESCAPE, pressed: true, modifiers: 0 }) {
        HookRoute::ReleaseFocus { device_id } => assert_eq!(device_id, "agent"),
        _ => panic!("expected ReleaseFocus"),
    }
    assert!(focused.is_none());
}

#[test]
fn edge_grants_focus_only_to_a_connected_agent_when_free() {
    let mut focused: Option<String> = None;
    assert!(!grant_focus_to(&mut focused, "a", false));
    assert_eq!(focused, None);
    assert!(grant_focus_to(&mut focused, "a", true));
    assert_eq!(focused.as_deref(), Some("a"));
    assert!(!grant_focus_to(&mut focused, "b", true));
    assert_eq!(focused.as_deref(), Some("a"));
}

#[test]
fn forgetting_a_device_clears_it_everywhere() {
    let mut registry = DeviceRegistry::new();
    registry.insert(dev("a", DeviceStatus::Established));
    registry.insert(dev("b", DeviceStatus::Established));
    let mut g = VirtualGrid::new(2, 2);
    g.place_screen(GridPosition { row: 0, col: 1 }, ScreenInfo { device_id: "a".to_string(), width_px: 1, height_px: 1, scale_factor_bits: UNIT_SCALE_BITS });
    let mut layout = SpatialLayout::new();
    layout.place(ScreenPlacement { device_id: "a".to_string(), x: 0, y: 0, width: 10, height: 10 });
    layout.place(ScreenPlacement { device_id: "b".to_string(), x: 10, y: 0, width: 10, height: 10 });
    let mut focused = Some("a".to_string());
    assert!(forget_device(&mut registry, &mut g, &mut layout, &mut focused, "a"));
    assert_eq!(focused, None);
    assert!(registry.get("a").is_none());
    assert!(registry.get("b").is_some());
    assert!(g.find_device("a").is_none());
    assert!(layout.find("a").is_none());
    assert!(layout.find("b").is_some());
    let mut other = Some("b".to_string());
    assert!(!forget_device(&mut registry, &mut g, &mut layout, &mut other, "a"));
    assert_eq!(other.as_deref(), Some("b"));
}
