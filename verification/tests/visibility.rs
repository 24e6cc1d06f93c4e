use life_core::visibility::visible_chunks;

#[test]
fn visible_chunks_at_origin_cover_center_and_margin() {
    // camera at the origin, scale 1.0, viewport of 100 by 100 world units
    let chunks = visible_chunks(0, 0, 1000, 100_000, 100_000);
    assert!(chunks.contains(&(0, 0)));
    assert!(chunks.contains(&(-1, -1)));
    assert!(chunks.contains(&(1, 1)));
}

#[test]
fn visible_chunks_exact_rectangle() {
    // half extent is 50 units: world x in [-50, 50], so columns -2..=1 with
    // the margin, and the same for rows
    let chunks = visible_chunks(0, 0, 1000, 100_000, 100_000);
    assert_eq!(chunks.len(), 16);
    for cx in -2..=1 {
        for cy in -2..=1 {
            assert!(chunks.contains(&(cx, cy)), "missing chunk ({cx}, {cy})");
        }
    }
    assert!(!chunks.contains(&(2, 2)));
    assert!(!chunks.contains(&(-3, 0)));
}

#[test]
fn visible_chunks_follow_camera_offset() {
    // camera near world position (100, 100) (camera y is flipped),
    // viewport of 64 by 64 units: cells around (100, 100) are in chunk (1, 1)
    let chunks = visible_chunks(100_000, -100_000, 1000, 64_000, 64_000);
    assert!(chunks.contains(&(1, 1)));
}

#[test]
fn zooming_out_yields_a_superset() {
    let normal = visible_chunks(0, 0, 1000, 100_000, 100_000);
    let zoomed = visible_chunks(0, 0, 2000, 100_000, 100_000);
    assert!(zoomed.len() > normal.len());
    for key in normal.iter() {
        assert!(zoomed.contains(key));
    }
}

#[test]
fn zero_scale_still_covers_the_center_chunk() {
    let chunks = visible_chunks(0, 0, 0, 100_000, 100_000);
    assert!(chunks.contains(&(0, 0)));
    assert!(chunks.contains(&(-1, -1)));
}
