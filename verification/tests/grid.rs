use contixis::grid::{grid_cells, GridCellPayload, GridPosition, ScreenInfo, VirtualGrid, UNIT_SCALE_BITS};
use contixis::spatial::Direction;

fn info(id: &str, w: u32, h: u32) -> ScreenInfo {
    ScreenInfo { device_id: id.to_string(), width_px: w, height_px: h, scale_factor_bits: UNIT_SCALE_BITS }
}

fn pos(row: u8, col: u8) -> GridPosition {
    GridPosition { row, col }
}

#[test]
fn new_grid_is_empty_and_row_major() {
    let g = VirtualGrid::new(3, 3);
    assert_eq!(g.cells.len(), 9);
    for (i, c) in g.cells.iter().enumerate() {
        assert_eq!(c.position, pos((i / 3) as u8, (i % 3) as u8));
        assert!(c.screen.is_none());
    }
}

#[test]
fn place_and_find() {
    let mut g = VirtualGrid::new(3, 3);
    assert!(g.place_screen(pos(1, 2), info("a", 1920, 1080)));
    assert!(!g.place_screen(pos(3, 0), info("b", 1, 1)));
    assert_eq!(g.find_device("a"), Some(pos(1, 2)));
    assert_eq!(g.find_device("b"), None);
    let c = g.get_cell(pos(1, 2)).unwrap();
    assert_eq!(c.screen.as_ref().unwrap().device_id, "a");
    assert!(g.get_cell(pos(0, 3)).is_none());
}

#[test]
fn remove_screen_clears_the_device() {
    let mut g = VirtualGrid::new(2, 2);
    g.place_screen(pos(0, 0), info("a", 1, 1));
    g.place_screen(pos(1, 1), info("b", 1, 1));
    g.remove_screen("a");
    assert_eq!(g.find_device("a"), None);
    assert_eq!(g.find_device("b"), Some(pos(1, 1)));
}

#[test]
fn edge_target_steps_to_neighbours() {
    let mut g = VirtualGrid::new(2, 3);
    g.place_screen(pos(1, 1), info("host", 1920, 1080));
    g.place_screen(pos(1, 2), info("agent", 1280, 1024));
    let (s, p) = g.edge_target(pos(1, 1), Direction::Right).unwrap();
    assert_eq!(s.device_id, "agent");
    assert_eq!(p, pos(1, 2));
    assert!(g.edge_target(pos(1, 1), Direction::Up).is_none());
    assert!(g.edge_target(pos(1, 2), Direction::Right).is_none());
    assert!(g.edge_target(pos(0, 0), Direction::Left).is_none());
    assert!(g.edge_target(pos(0, 0), Direction::Up).is_none());
}

#[test]
fn grid_cells_lists_occupied_cells_in_order() {
    let mut g = VirtualGrid::new(2, 2);
    g.place_screen(pos(1, 0), info("b", 1, 1));
    g.place_screen(pos(0, 1), info("a", 1, 1));
    let cells = grid_cells(&g);
    assert_eq!(cells.len(), 2);
    assert_eq!((cells[0].row, cells[0].col, cells[0].device_id.as_str(), cells[0].screen_id.as_str()), (0, 1, "a", "a"));
    assert_eq!((cells[1].row, cells[1].col, cells[1].device_id.as_str()), (1, 0, "b"));
}

#[test]
fn apply_layout_replaces_connected_devices() {
    let mut g = VirtualGrid::new(3, 3);
    g.place_screen(pos(1, 1), info("__host__0", 1920, 1080));
    g.place_screen(pos(1, 2), info("agent", 1280, 1024));
    let connected = vec!["agent".to_string()];
    let cells = vec![
        GridCellPayload { row: 0, col: 1, device_id: Some("agent".to_string()), screen_id: Some("agent".to_string()) },
        GridCellPayload { row: 2, col: 2, device_id: Some("x".to_string()), screen_id: None },
    ];
    g.apply_layout(&connected, &cells);
    assert_eq!(g.find_device("agent"), Some(pos(0, 1)));
    let s = g.get_cell(pos(0, 1)).unwrap().screen.as_ref().unwrap();
    assert_eq!((s.width_px, s.height_px, s.scale_factor_bits), (1920, 1080, UNIT_SCALE_BITS));
    assert_eq!(g.find_device("__host__0"), Some(pos(1, 1)));
    assert_eq!(g.find_device("x"), None);
    assert!(g.get_cell(pos(1, 2)).unwrap().screen.is_none());
}

#[test]
fn agent_screens_go_to_last_column_from_top_of_neighbour() {
    let mut g = VirtualGrid::new(3, 3);
    g.place_screen(pos(1, 1), info("__host__0", 1920, 1080));
    let dims = vec![(1280u32, 1024u32, UNIT_SCALE_BITS), (800, 600, UNIT_SCALE_BITS)];
    g.place_agent_screens(&"agent".to_string(), &dims);
    let a = g.get_cell(pos(1, 2)).unwrap().screen.as_ref().unwrap();
    assert_eq!((a.device_id.as_str(), a.width_px, a.height_px), ("agent", 1280, 1024));
    let b = g.get_cell(pos(2, 2)).unwrap().screen.as_ref().unwrap();
    assert_eq!((b.width_px, b.height_px), (800, 600));
}

#[test]
fn agent_screens_start_at_row_zero_when_neighbour_column_empty() {
    let mut g = VirtualGrid::new(3, 3);
    g.place_agent_screens(&"agent".to_string(), &[(100, 100, UNIT_SCALE_BITS)]);
    assert_eq!(g.find_device("agent"), Some(pos(0, 2)));
}
