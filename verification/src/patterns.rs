//! Well-known Game of Life patterns that can be placed into the world.

use vstd::prelude::*;

verus! {

/// A well-known pattern, selectable from a menu and placed around a chosen
/// origin.
#[derive(Clone, Copy, Debug, PartialEq, Eq, Hash, Default)]
pub enum LifePattern {
    /// No pattern selected.
    #[default]
    Empty,
    /// The glider, a small spaceship.
    Glider,
    /// The lightweight spaceship.
    Lwss,
    /// The pulsar, a period-3 oscillator.
    Pulsar,
    /// Gosper's glider gun.
    GosperGliderGun,
    /// The R-pentomino, a long-lived methuselah.
    RPentomino,
    /// The acorn, a long-lived methuselah.
    Acorn,
}

/// The cells of each pattern, relative to its origin.
pub open spec fn pattern_cells(p: LifePattern) -> Seq<(i32, i32)> {
    match p {
        LifePattern::Empty => seq![],
        LifePattern::Glider => seq![(0i32, -1i32), (1i32, 0i32), (-1i32, 1i32), (0i32, 1i32), (1i32, 1i32)],
        LifePattern::Lwss => seq![
            (-1i32, -1i32),
            (2i32, -1i32),
            (-2i32, 0i32),
            (-2i32, 1i32),
            (2i32, 1i32),
            (-2i32, 2i32),
            (-1i32, 2i32),
            (0i32, 2i32),
            (1i32, 2i32),
        ],
        LifePattern::Pulsar => seq![
            (-4i32, -6i32),
            (-3i32, -6i32),
            (-2i32, -6i32),
            (2i32, -6i32),
            (3i32, -6i32),
            (4i32, -6i32),
            (-6i32, -4i32),
            (-1i32, -4i32),
            (1i32, -4i32),
            (6i32, -4i32),
            (-6i32, -3i32),
            (-1i32, -3i32),
            (1i32, -3i32),
            (6i32, -3i32),
            (-6i32, -2i32),
            (-1i32, -2i32),
            (1i32, -2i32),
            (6i32, -2i32),
            (-4i32, -1i32),
            (-3i32, -1i32),
            (-2i32, -1i32),
            (2i32, -1i32),
            (3i32, -1i32),
            (4i32, -1i32),
            (-4i32, 1i32),
            (-3i32, 1i32),
            (-2i32, 1i32),
            (2i32, 1i32),
            (3i32, 1i32),
            (4i32, 1i32),
            (-6i32, 2i32),
            (-1i32, 2i32),
            (1i32, 2i32),
            (6i32, 2i32),
            (-6i32, 3i32),
            (-1i32, 3i32),
            (1i32, 3i32),
            (6i32, 3i32),
            (-6i32, 4i32),
            (-1i32, 4i32),
            (1i32, 4i32),
            (6i32, 4i32),
            (-4i32, 6i32),
            (-3i32, 6i32),
            (-2i32, 6i32),
            (2i32, 6i32),
            (3i32, 6i32),
            (4i32, 6i32),
        ],
        LifePattern::GosperGliderGun => seq![
            (0i32, 4i32),
            (0i32, 5i32),
            (1i32, 4i32),
            (1i32, 5i32),
            (10i32, 4i32),
            (10i32, 5i32),
            (10i32, 6i32),
            (11i32, 3i32),
            (11i32, 7i32),
            (12i32, 2i32),
            (12i32, 8i32),
            (13i32, 2i32),
            (13i32, 8i32),
            (14i32, 5i32),
            (15i32, 3i32),
            (15i32, 7i32),
            (16i32, 4i32),
            (16i32, 5i32),
            (16i32, 6i32),
            (17i32, 5i32),
            (20i32, 2i32),
            (20i32, 3i32),
            (20i32, 4i32),
            (21i32, 2i32),
            (21i32, 3i32),
            (21i32, 4i32),
            (22i32, 1i32),
            (22i32, 5i32),
            (24i32, 0i32),
            (24i32, 1i32),
            (24i32, 5i32),
            (24i32, 6i32),
            (34i32, 2i32),
            (34i32, 3i32),
            (35i32, 2i32),
            (35i32, 3i32),
        ],
        LifePattern::RPentomino => seq![
            (0i32, -1i32),
            (1i32, -1i32),
            (-1i32, 0i32),
            (0i32, 0i32),
            (0i32, 1i32),
        ],
        LifePattern::Acorn => seq![
            (-3i32, 1i32),
            (-2i32, -1i32),
            (-2i32, 1i32),
            (0i32, 0i32),
            (1i32, 1i32),
            (2i32, 1i32),
            (3i32, 1i32),
        ],
    }
}

impl LifePattern {
    /// The pattern's cell coordinates, centered on its origin.
    pub fn cells(&self) -> (r: Vec<(i32, i32)>)
        ensures
            r@ == pattern_cells(*self),
    {
        match self {
            Self::Empty => vec![],
            Self::Glider => vec![(0, -1), (1, 0), (-1, 1), (0, 1), (1, 1)],
            Self::Lwss => vec![
                (-1, -1),
                (2, -1),
                (-2, 0),
                (-2, 1),
                (2, 1),
                (-2, 2),
                (-1, 2),
                (0, 2),
                (1, 2),
            ],
            Self::Pulsar => vec![
                (-4, -6),
                (-3, -6),
                (-2, -6),
                (2, -6),
                (3, -6),
                (4, -6),
                (-6, -4),
                (-1, -4),
                (1, -4),
                (6, -4),
                (-6, -3),
                (-1, -3),
                (1, -3),
                (6, -3),
                (-6, -2),
                (-1, -2),
                (1, -2),
                (6, -2),
                (-4, -1),
                (-3, -1),
                (-2, -1),
                (2, -1),
                (3, -1),
                (4, -1),
                (-4, 1),
                (-3, 1),
                (-2, 1),
                (2, 1),
                (3, 1),
                (4, 1),
                (-6, 2),
                (-1, 2),
                (1, 2),
                (6, 2),
                (-6, 3),
                (-1, 3),
                (1, 3),
                (6, 3),
                (-6, 4),
                (-1, 4),
                (1, 4),
                (6, 4),
                (-4, 6),
                (-3, 6),
                (-2, 6),
                (2, 6),
                (3, 6),
                (4, 6),
            ],
            Self::GosperGliderGun => vec![
                (0, 4),
                (0, 5),
                (1, 4),
                (1, 5),
                (10, 4),
                (10, 5),
                (10, 6),
                (11, 3),
                (11, 7),
                (12, 2),
                (12, 8),
                (13, 2),
                (13, 8),
                (14, 5),
                (15, 3),
                (15, 7),
                (16, 4),
                (16, 5),
                (16, 6),
                (17, 5),
                (20, 2),
                (20, 3),
                (20, 4),
                (21, 2),
                (21, 3),
                (21, 4),
                (22, 1),
                (22, 5),
                (24, 0),
                (24, 1),
                (24, 5),
                (24, 6),
                (34, 2),
                (34, 3),
                (35, 2),
                (35, 3),
            ],
            Self::RPentomino => vec![(0, -1), (1, -1), (-1, 0), (0, 0), (0, 1)],
            Self::Acorn => vec![(-3, 1), (-2, -1), (-2, 1), (0, 0), (1, 1), (2, 1), (3, 1)],
        }
    }

    /// The pattern's label for a menu.
    pub fn label(&self) -> (r: &'static str)
        ensures
            r@ == pattern_label(*self),
    {
        match self {
            Self::Empty => "",
            Self::Glider => "Glider",
            Self::Lwss => "LWSS",
            Self::Pulsar => "Pulsar",
            Self::GosperGliderGun => "Glider Gun",
            Self::RPentomino => "R-pentomino",
            Self::Acorn => "Acorn",
        }
    }

    /// Every placeable pattern, in menu order (`None` excluded).
    pub fn all() -> (r: Vec<LifePattern>)
        ensures
            r@ == seq![
                LifePattern::Glider,
                LifePattern::Lwss,
                LifePattern::Pulsar,
                LifePattern::GosperGliderGun,
                LifePattern::RPentomino,
                LifePattern::Acorn,
            ],
    {
        vec![
            Self::Glider,
            Self::Lwss,
            Self::Pulsar,
            Self::GosperGliderGun,
            Self::RPentomino,
            Self::Acorn,
        ]
    }
}

/// The menu label of each pattern.
pub open spec fn pattern_label(p: LifePattern) -> Seq<char> {
    match p {
        LifePattern::Empty => ""@,
        LifePattern::Glider => "Glider"@,
        LifePattern::Lwss => "LWSS"@,
        LifePattern::Pulsar => "Pulsar"@,
        LifePattern::GosperGliderGun => "Glider Gun"@,
        LifePattern::RPentomino => "R-pentomino"@,
        LifePattern::Acorn => "Acorn"@,
    }
}

} // verus!
