use contixis::spatial::{Direction, ScreenPlacement, SpatialLayout};

fn screen(id: &str, x: i32, y: i32, w: u32, h: u32) -> ScreenPlacement {
    ScreenPlacement { device_id: id.to_string(), x, y, width: w, height: h }
}

fn two_side_by_side() -> SpatialLayout {
    let mut l = SpatialLayout::new();
    l.place(screen("host", 0, 0, 1920, 1080));
    l.place(screen("agent", 1920, 0, 1280, 1024));
    l
}

#[test]
fn place_replaces_first_screen_of_same_device() {
    let mut l = two_side_by_side();
    l.place(screen("agent", 2000, 100, 800, 600));
    assert_eq!(l.screens.len(), 2);
    let a = l.find("agent").unwrap();
    assert_eq!((a.x, a.y, a.width, a.height), (2000, 100, 800, 600));
}

#[test]
fn remove_drops_every_screen_of_the_device() {
    let mut l = two_side_by_side();
    l.screens.push(screen("agent", 5000, 0, 10, 10));
    l.remove("agent");
    assert_eq!(l.screens.len(), 1);
    assert!(l.find("agent").is_none());
    assert_eq!(l.screens[0].device_id, "host");
}

#[test]
fn find_mut_changes_in_place() {
    let mut l = two_side_by_side();
    if let Some(p) = l.find_mut("agent") {
        p.x = 42;
    }
    assert_eq!(l.find("agent").unwrap().x, 42);
    assert!(l.find_mut("missing").is_none());
}

#[test]
fn rightmost_and_top() {
    let l = two_side_by_side();
    assert_eq!(l.rightmost_x(), 3200);
    assert_eq!(l.top_y(), 0);
    let empty = SpatialLayout::new();
    assert_eq!(empty.rightmost_x(), 0);
    assert_eq!(empty.top_y(), 0);
    let mut m = SpatialLayout::new();
    m.place(screen("a", -100, -50, 10, 10));
    m.place(screen("b", 10, 20, 10, 10));
    assert_eq!(m.top_y(), -50);
}

#[test]
fn search_finds_adjacent_screen_to_the_right() {
    let l = two_side_by_side();
    let from = l.screens[0].clone();
    assert_eq!(l.search_direction(&from, Direction::Right, 1920, 500), Some(1));
    assert_eq!(l.search_direction(&from, Direction::Left, 0, 500), None);
    assert_eq!(l.search_direction(&from, Direction::Up, 500, 0), None);
}

#[test]
fn search_respects_gap_limit_and_picks_nearest() {
    let mut l = SpatialLayout::new();
    l.place(screen("host", 0, 0, 100, 100));
    l.place(screen("far", 500, 0, 100, 100));
    l.place(screen("near", 150, 0, 100, 100));
    let from = l.screens[0].clone();
    // "far" is 400 px away (more than the 300 px limit), "near" 50 px.
    assert_eq!(l.search_direction(&from, Direction::Right, 100, 50), Some(2));
    let mut m = SpatialLayout::new();
    m.place(screen("host", 0, 0, 100, 100));
    m.place(screen("far", 401, 0, 100, 100));
    let from = m.screens[0].clone();
    assert_eq!(m.search_direction(&from, Direction::Right, 100, 50), None);
}

#[test]
fn search_needs_the_exit_pixel_inside_the_neighbour() {
    let mut l = SpatialLayout::new();
    l.place(screen("host", 0, 0, 100, 100));
    l.place(screen("below_right", 100, 100, 100, 100));
    let from = l.screens[0].clone();
    assert_eq!(l.search_direction(&from, Direction::Right, 100, 50), None);
    assert_eq!(l.search_direction(&from, Direction::Right, 100, 100), Some(1));
}

#[test]
fn exit_outside_neighbour_span_finds_nothing() {
    let mut l = SpatialLayout::new();
    l.place(screen("A", 0, 0, 100, 100));
    l.place(screen("B", 100, 0, 100, 40));
    assert_eq!(l.edge_transition_target("A", Direction::Right, 101, 80), None);
    assert_eq!(l.edge_transition_target("A", Direction::Right, 101, 30), Some((1, Direction::Right)));
}

#[test]
fn corner_fallback_only_in_the_outer_quarter() {
    let mut l = SpatialLayout::new();
    l.place(screen("A", 0, 0, 100, 100));
    l.place(screen("B", 0, 100, 100, 100));
    // Middle of the right edge: no fallback.
    assert_eq!(l.edge_transition_target("A", Direction::Right, 101, 50), None);
    // Lower quarter of the right edge: the screen below is found.
    assert_eq!(l.edge_transition_target("A", Direction::Right, 101, 90), Some((1, Direction::Down)));
    // Upper quarter: the corner is upward, where there is nothing.
    assert_eq!(l.edge_transition_target("A", Direction::Right, 101, 10), None);
}

#[test]
fn edge_transition_falls_back_to_the_corner_direction() {
    let l = two_side_by_side();
    assert_eq!(l.edge_transition_target("host", Direction::Right, 1940, 500), Some((1, Direction::Right)));
    let mut m = SpatialLayout::new();
    m.place(screen("A", 0, 0, 100, 100));
    m.place(screen("B", 100, 0, 100, 100));
    // Leaving through the dead bottom edge near its right end falls back to the right neighbour.
    assert_eq!(m.edge_transition_target("A", Direction::Down, 90, 101), Some((1, Direction::Right)));
    // Near the left end the left side is tried, where there is nothing.
    assert_eq!(m.edge_transition_target("A", Direction::Down, 10, 101), None);
    // At the middle of the bottom edge there is no fallback.
    assert_eq!(m.edge_transition_target("A", Direction::Down, 50, 101), None);
    assert_eq!(l.edge_transition_target("agent", Direction::Left, 1900, 10), Some((0, Direction::Left)));
    assert_eq!(l.edge_transition_target("missing", Direction::Left, 0, 0), None);
    assert_eq!(l.edge_transition_target("agent", Direction::Right, 3300, 10), None);
}
