use blam_tags::geometry::{strip_to_list, walk_surface_ring, EdgeRow};

#[test]
fn strip_alternates_winding() {
    assert_eq!(strip_to_list(&[0, 1, 2, 3, 4]), vec![(0, 1, 2), (1, 3, 2), (2, 3, 4)]);
}

#[test]
fn strip_restart_resets_parity() {
    // After the restart the first window is even again.
    assert_eq!(strip_to_list(&[0, 1, 2, 3, 0xFFFF, 5, 6, 7]), vec![(0, 1, 2), (1, 3, 2), (5, 6, 7)]);
}

#[test]
fn strip_drops_degenerate_windows() {
    // The repeated 2 stitches two pieces; its windows are dropped but still
    // count for the parity of later ones.
    assert_eq!(strip_to_list(&[0, 1, 2, 2, 3, 4]), vec![(0, 1, 2), (2, 4, 3)]);
    assert_eq!(strip_to_list(&[0, 1, 2, 2, 2, 3, 4]), vec![(0, 1, 2), (2, 3, 4)]);
}

#[test]
fn strip_too_short_is_empty() {
    assert!(strip_to_list(&[]).is_empty());
    assert!(strip_to_list(&[1, 2]).is_empty());
    assert!(strip_to_list(&[1, 0xFFFF, 2]).is_empty());
}

fn edge(start: i32, end: i32, fwd: i32, rev: i32, left: i32, right: i32) -> EdgeRow {
    EdgeRow {
        start_vertex: start,
        end_vertex: end,
        forward_edge: fwd,
        reverse_edge: rev,
        left_surface: left,
        right_surface: right,
    }
}

fn square() -> Vec<EdgeRow> {
    // Surface 0 on the left of every edge, surface 1 on the right.
    vec![
        edge(10, 11, 1, 3, 0, 1),
        edge(11, 12, 2, 0, 0, 1),
        edge(12, 13, 3, 1, 0, 1),
        edge(13, 10, 0, 2, 0, 1),
    ]
}

#[test]
fn ring_walks_left_side_forward() {
    assert_eq!(walk_surface_ring(0, 0, &square()), vec![10, 11, 12, 13]);
    assert_eq!(walk_surface_ring(0, 2, &square()), vec![12, 13, 10, 11]);
}

#[test]
fn ring_walks_right_side_in_reverse() {
    assert_eq!(walk_surface_ring(1, 0, &square()), vec![11, 10, 13, 12]);
}

#[test]
fn malformed_rings_are_empty() {
    assert!(walk_surface_ring(0, 4, &square()).is_empty());
    assert!(walk_surface_ring(0, -1, &square()).is_empty());
    assert!(walk_surface_ring(7, 0, &square()).is_empty());
    // A ring that never returns to its first edge runs out of steps.
    let cycle = vec![edge(1, 2, 1, 1, 0, 9), edge(2, 3, 2, 2, 0, 9), edge(3, 4, 1, 1, 0, 9)];
    assert!(walk_surface_ring(0, 0, &cycle).is_empty());
}
