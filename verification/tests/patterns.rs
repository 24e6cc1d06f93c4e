use life_core::patterns::LifePattern;

#[test]
fn all_returns_six_patterns() {
    let patterns = LifePattern::all();
    assert_eq!(patterns.len(), 6);
    assert!(!patterns.contains(&LifePattern::Empty));
}

#[test]
fn glider_has_5_cells() {
    assert_eq!(LifePattern::Glider.cells().len(), 5);
}

#[test]
fn lwss_has_9_cells() {
    assert_eq!(LifePattern::Lwss.cells().len(), 9);
}

#[test]
fn pulsar_has_48_cells() {
    assert_eq!(LifePattern::Pulsar.cells().len(), 48);
}

#[test]
fn gosper_glider_gun_has_36_cells() {
    assert_eq!(LifePattern::GosperGliderGun.cells().len(), 36);
}

#[test]
fn r_pentomino_has_5_cells() {
    assert_eq!(LifePattern::RPentomino.cells().len(), 5);
}

#[test]
fn acorn_has_7_cells() {
    assert_eq!(LifePattern::Acorn.cells().len(), 7);
}

#[test]
fn labels_are_not_empty() {
    for pattern in LifePattern::all() {
        assert!(!pattern.label().is_empty(), "{:?} has empty label", pattern);
    }
}

#[test]
fn none_cells_is_empty() {
    assert_eq!(LifePattern::Empty.cells().len(), 0);
}
