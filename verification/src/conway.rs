//! Conway's rule over sparse populations, stated on mathematical sets.
//!
//! A population is a `Set<(int, int)>` of alive cells on the infinite plane.
//! `step` is the next generation; the executable stepper in `world` is
//! proved to compute exactly `step` of its alive set.

use vstd::prelude::*;

verus! {

/// 1 if the condition holds, else 0; used to sum neighbor tests.
pub open spec fn indicator(b: bool) -> int {
    if b {
        1
    } else {
        0
    }
}

/// Whether two distinct cells touch, horizontally, vertically or
/// diagonally (the Moore neighborhood).
pub open spec fn adjacent(a: (int, int), b: (int, int)) -> bool {
    a != b && -1 <= a.0 - b.0 <= 1 && -1 <= a.1 - b.1 <= 1
}

/// How many of the eight neighbors of `c` are alive.
pub open spec fn neighbor_count(alive: Set<(int, int)>, c: (int, int)) -> int {
    indicator(alive.contains((c.0 - 1, c.1 - 1))) + indicator(alive.contains((c.0, c.1 - 1)))
        + indicator(alive.contains((c.0 + 1, c.1 - 1))) + indicator(
        alive.contains((c.0 - 1, c.1)),
    ) + indicator(alive.contains((c.0 + 1, c.1))) + indicator(
        alive.contains((c.0 - 1, c.1 + 1)),
    ) + indicator(alive.contains((c.0, c.1 + 1))) + indicator(alive.contains((c.0 + 1, c.1 + 1)))
}

/// Conway's rule: a cell is alive next generation iff it was alive with two
/// or three alive neighbors, or dead with exactly three.
pub open spec fn conway_rule(was_alive: bool, count: int) -> bool {
    if was_alive {
        count == 2 || count == 3
    } else {
        count == 3
    }
}

/// Whether `c` is alive in the generation after `alive`.
pub open spec fn alive_next(alive: Set<(int, int)>, c: (int, int)) -> bool {
    conway_rule(alive.contains(c), neighbor_count(alive, c))
}

/// The next generation of a population.
pub open spec fn step(alive: Set<(int, int)>) -> Set<(int, int)> {
    Set::new(|c: (int, int)| alive_next(alive, c))
}

/// How many cells of the sequence are adjacent to `c`.
pub open spec fn adjacent_in_seq(s: Seq<(int, int)>, c: (int, int)) -> int
    decreases s.len(),
{
    if s.len() == 0 {
        0
    } else {
        adjacent_in_seq(s.drop_last(), c) + indicator(adjacent(s.last(), c))
    }
}

/// Extending a prefix by one cell raises the adjacency count by 1 exactly
/// when that cell is adjacent.
pub proof fn lemma_adjacent_in_seq_take_succ(s: Seq<(int, int)>, i: int, c: (int, int))
    requires
        0 <= i < s.len(),
    ensures
        adjacent_in_seq(s.take(i + 1), c) == adjacent_in_seq(s.take(i), c) + indicator(
            adjacent(s[i], c),
        ),
{
    assert(s.take(i + 1).drop_last() =~= s.take(i));
    assert(s.take(i + 1).last() == s[i]);
}

/// Inserting a fresh cell changes the neighbor count of `c` by 1 exactly
/// when the new cell is adjacent to `c`.
pub proof fn lemma_neighbor_count_insert(alive: Set<(int, int)>, e: (int, int), c: (int, int))
    requires
        !alive.contains(e),
    ensures
        neighbor_count(alive.insert(e), c) == neighbor_count(alive, c) + indicator(adjacent(e, c)),
{
}

/// On a duplicate-free sequence, the adjacency count equals the neighbor
/// count over the set of its elements.
pub proof fn lemma_adjacent_in_seq_matches(s: Seq<(int, int)>, c: (int, int))
    requires
        s.no_duplicates(),
    ensures
        adjacent_in_seq(s, c) == neighbor_count(s.to_set(), c),
    decreases s.len(),
{
    if s.len() == 0 {
        assert(s.to_set() =~= Set::<(int, int)>::empty());
    } else {
        let t = s.drop_last();
        let e = s.last();
        assert(t.no_duplicates());
        assert(!t.contains(e)) by {
            if t.contains(e) {
                let i = choose|i: int| 0 <= i < t.len() && t[i] == e;
                assert(s[i] == s[s.len() - 1]);
            }
        }
        lemma_adjacent_in_seq_matches(t, c);
        assert(!t.to_set().contains(e));
        lemma_neighbor_count_insert(t.to_set(), e, c);
        assert(s.to_set() =~= t.to_set().insert(e)) by {
            assert(forall|x: (int, int)| s.contains(x) <==> t.contains(x) || x == e) by {
                assert(forall|i: int| 0 <= i < t.len() ==> s[i] == t[i]);
                assert(s[s.len() - 1] == e);
            }
        }
    }
}

/// A cell with no alive cell adjacent to it has neighbor count zero.
pub proof fn lemma_no_adjacent_means_no_neighbors(alive: Set<(int, int)>, c: (int, int))
    requires
        forall|a: (int, int)| alive.contains(a) ==> !adjacent(a, c),
    ensures
        neighbor_count(alive, c) == 0,
{
    assert(!alive.contains((c.0 - 1, c.1 - 1)));
    assert(!alive.contains((c.0, c.1 - 1)));
    assert(!alive.contains((c.0 + 1, c.1 - 1)));
    assert(!alive.contains((c.0 - 1, c.1)));
    assert(!alive.contains((c.0 + 1, c.1)));
    assert(!alive.contains((c.0 - 1, c.1 + 1)));
    assert(!alive.contains((c.0, c.1 + 1)));
    assert(!alive.contains((c.0 + 1, c.1 + 1)));
}

/// The empty population steps to the empty population.
pub proof fn lemma_step_of_empty()
    ensures
        step(Set::<(int, int)>::empty()) =~= Set::<(int, int)>::empty(),
{
}

/// Stepping cannot move the population outside a one-cell padding of any
/// box that bounds it: a cell alive next generation is either alive now or
/// adjacent to an alive cell.
pub proof fn lemma_step_within_padded_box(
    alive: Set<(int, int)>,
    x0: int,
    y0: int,
    x1: int,
    y1: int,
)
    requires
        forall|a: (int, int)| alive.contains(a) ==> x0 <= a.0 <= x1 && y0 <= a.1 <= y1,
    ensures
        forall|c: (int, int)| #[trigger]
            step(alive).contains(c) ==> x0 - 1 <= c.0 <= x1 + 1 && y0 - 1 <= c.1 <= y1 + 1,
{
    assert forall|c: (int, int)| #[trigger] step(alive).contains(c) implies x0 - 1 <= c.0 <= x1 + 1
        && y0 - 1 <= c.1 <= y1 + 1 by {
        if !alive.contains(c) || !(x0 <= c.0 <= x1 && y0 <= c.1 <= y1) {
            if forall|a: (int, int)| alive.contains(a) ==> !adjacent(a, c) {
                lemma_no_adjacent_means_no_neighbors(alive, c);
            } else {
                let a = choose|a: (int, int)| alive.contains(a) && adjacent(a, c);
                assert(x0 <= a.0 <= x1 && y0 <= a.1 <= y1);
            }
        }
    }
}

/// The sparse step agrees with a brute-force scan of any bounding box of
/// the population, padded by one cell: inside the padded box, Conway's rule
/// on the counted neighbors decides membership in the next generation, and
/// outside it nothing is alive.
pub proof fn lemma_step_equals_bounded_scan(
    alive: Set<(int, int)>,
    x0: int,
    y0: int,
    x1: int,
    y1: int,
)
    requires
        forall|a: (int, int)| alive.contains(a) ==> x0 <= a.0 <= x1 && y0 <= a.1 <= y1,
    ensures
        forall|c: (int, int)|
            x0 - 1 <= c.0 <= x1 + 1 && y0 - 1 <= c.1 <= y1 + 1 ==> (#[trigger] step(
                alive,
            ).contains(c) == conway_rule(alive.contains(c), neighbor_count(alive, c))),
        forall|c: (int, int)|
            !(x0 - 1 <= c.0 <= x1 + 1 && y0 - 1 <= c.1 <= y1 + 1) ==> !(#[trigger] step(
                alive,
            ).contains(c)),
{
    lemma_step_within_padded_box(alive, x0, y0, x1, y1);
}

/// A two-by-two block of alive cells is a fixed point of the step: the same
/// four cells, and no others, are alive in the next generation.
pub proof fn lemma_block_is_fixed_point(x: int, y: int)
    ensures
        step(block(x, y)) =~= block(x, y),
{
    let b = block(x, y);
    assert forall|c: (int, int)| #[trigger] step(b).contains(c) implies b.contains(c) by {
        if !b.contains(c) {
            assert(neighbor_count(b, c) != 3);
        }
    }
    assert forall|c: (int, int)| #[trigger] b.contains(c) implies step(b).contains(c) by {
        assert(neighbor_count(b, c) == 3);
    }
}

/// The four cells of a two-by-two block whose lower corner is `(x, y)`.
pub open spec fn block(x: int, y: int) -> Set<(int, int)> {
    set![(x, y), (x + 1, y), (x, y + 1), (x + 1, y + 1)]
}

} // verus!
