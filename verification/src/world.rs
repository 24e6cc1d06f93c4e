//! The sparse world: alive cells, the remembered initial pattern, the
//! dirty-chunk tracker and the generation counter, with the generation
//! stepper.
//!
//! Every mutation is specified as a pure transition on `WorldModel`, the
//! mathematical view of the world; the stepper is proved to compute exactly
//! `conway::step` of the alive set while marking dirty exactly the chunks
//! of the cells that changed state.

use vstd::prelude::*;

use crate::chunks::chunk_key;
use crate::chunks::chunk_of;
use crate::conway::adjacent;
use crate::conway::adjacent_in_seq;
use crate::conway::alive_next;
use crate::conway::indicator;
use crate::conway::lemma_adjacent_in_seq_matches;
use crate::conway::lemma_adjacent_in_seq_take_succ;
use crate::conway::lemma_step_of_empty;
use crate::conway::neighbor_count;
use crate::conway::step;
use crate::store::cell_set_clear;
use crate::store::cell_set_clone;
use crate::store::cell_set_contains;
use crate::store::cell_set_insert;
use crate::store::cell_set_items;
use crate::store::cell_set_len;
use crate::store::cell_set_model;
use crate::store::cell_set_remove;
use crate::store::count_map_get;
use crate::store::count_map_insert;
use crate::store::count_map_items;
use crate::store::count_map_model;
use crate::store::count_of;
use crate::store::new_cell_set;
use crate::store::new_count_map;
use crate::store::to_int_pair;
use crate::store::to_int_pairs;
use crate::store::CellSet;
use crate::store::CountMap;

verus! {

/// The mathematical view of a `World`.
#[verifier::ext_equal]
pub struct WorldModel {
    /// The live population.
    pub alive: Set<(int, int)>,
    /// The last user-authored configuration, restored by `reset`.
    pub initial_pattern: Set<(int, int)>,
    /// Chunks whose rendered form is stale relative to `alive`.
    pub dirty_chunks: Set<(int, int)>,
    /// Generations elapsed since the last edit or reset.
    pub generation: nat,
}

/// The chunk keys owning a set of cells.
pub open spec fn chunk_keys_of(cells: Set<(int, int)>) -> Set<(int, int)> {
    cells.map(|c: (int, int)| chunk_of(c))
}

/// The cells whose alive/dead status differs between two populations.
pub open spec fn changed_cells(a: Set<(int, int)>, b: Set<(int, int)>) -> Set<(int, int)> {
    Set::new(|c: (int, int)| a.contains(c) != b.contains(c))
}

/// Whether a cell is strictly inside the machine coordinate range, so that
/// all eight neighbor coordinates are representable.
pub open spec fn interior_cell(c: (int, int)) -> bool {
    i64::MIN < c.0 < i64::MAX && i64::MIN < c.1 < i64::MAX
}

/// Whether every cell of a population is strictly inside the machine
/// coordinate range.
pub open spec fn population_interior(s: Set<(int, int)>) -> bool {
    forall|c: (int, int)| #[trigger] s.contains(c) ==> interior_cell(c)
}

/// The freshly created world: everything empty, generation zero.
pub open spec fn empty_world() -> WorldModel {
    WorldModel {
        alive: Set::empty(),
        initial_pattern: Set::empty(),
        dirty_chunks: Set::empty(),
        generation: 0,
    }
}

/// Effect of `toggle_cell`: flip membership of the cell in `alive`, mirror
/// the flip into `initial_pattern`, mark the owning chunk dirty, and reset
/// the generation counter.
pub open spec fn toggle_spec(w: WorldModel, x: int, y: int) -> WorldModel {
    let c = (x, y);
    if w.alive.contains(c) {
        WorldModel {
            alive: w.alive.remove(c),
            initial_pattern: w.initial_pattern.remove(c),
            dirty_chunks: w.dirty_chunks.insert(chunk_of(c)),
            generation: 0,
        }
    } else {
        WorldModel {
            alive: w.alive.insert(c),
            initial_pattern: w.initial_pattern.insert(c),
            dirty_chunks: w.dirty_chunks.insert(chunk_of(c)),
            generation: 0,
        }
    }
}

/// Effect of `place_pattern`: additively insert every listed cell into both
/// `alive` and `initial_pattern`, mark dirty the chunks of the cells that
/// were dead, and reset the generation counter.
pub open spec fn place_spec(w: WorldModel, cells: Seq<(int, int)>) -> WorldModel {
    WorldModel {
        alive: w.alive + cells.to_set(),
        initial_pattern: w.initial_pattern + cells.to_set(),
        dirty_chunks: w.dirty_chunks + chunk_keys_of(cells.to_set().difference(w.alive)),
        generation: 0,
    }
}

/// Effect of `reset`: discard the simulated evolution and restore the
/// initial pattern, marking dirty the chunks of every cell whose status
/// this changes.
pub open spec fn reset_spec(w: WorldModel) -> WorldModel {
    WorldModel {
        alive: w.initial_pattern,
        initial_pattern: w.initial_pattern,
        dirty_chunks: w.dirty_chunks + chunk_keys_of(changed_cells(w.alive, w.initial_pattern)),
        generation: 0,
    }
}

/// Effect of `clear`: empty both cell sets and mark dirty every chunk that
/// either set covered.
pub open spec fn clear_spec(w: WorldModel) -> WorldModel {
    WorldModel {
        alive: Set::empty(),
        initial_pattern: Set::empty(),
        dirty_chunks: w.dirty_chunks + chunk_keys_of(w.alive + w.initial_pattern),
        generation: 0,
    }
}

/// Effect of `progress_generation`: one application of Conway's rule to the
/// whole population, marking dirty the chunks of the cells that changed.
pub open spec fn step_spec(w: WorldModel) -> WorldModel {
    WorldModel {
        alive: step(w.alive),
        initial_pattern: w.initial_pattern,
        dirty_chunks: w.dirty_chunks + chunk_keys_of(changed_cells(w.alive, step(w.alive))),
        generation: w.generation + 1,
    }
}

/// Effect of `clear_dirty_chunks`: forget the dirty set, nothing else.
pub open spec fn clear_dirty_spec(w: WorldModel) -> WorldModel {
    WorldModel { dirty_chunks: Set::empty(), ..w }
}

/// Extending a prefix of a sequence by one element extends what it
/// contains by exactly that element.
proof fn lemma_take_succ_contains(s: Seq<(int, int)>, i: int, c: (int, int))
    requires
        0 <= i < s.len(),
    ensures
        s.take(i + 1).contains(c) <==> (s.take(i).contains(c) || c == s[i]),
{
    if s.take(i + 1).contains(c) {
        let j = choose|j: int| 0 <= j < i + 1 && #[trigger] s.take(i + 1)[j] == c;
        if j < i {
            assert(s.take(i)[j] == c);
        }
    }
    if s.take(i).contains(c) {
        let j = choose|j: int| 0 <= j < i && #[trigger] s.take(i)[j] == c;
        assert(s.take(i + 1)[j] == c);
    }
    if c == s[i] {
        assert(s.take(i + 1)[i] == c);
    }
}

/// Marks dirty the owning chunk of every listed cell that is not in
/// `except`.
fn mark_chunks_not_in(dirty: &mut CellSet, cells: &Vec<(i64, i64)>, except: &CellSet)
    ensures
        forall|ck: (int, int)| #[trigger]
            cell_set_model(*final(dirty)).contains(ck) ==> cell_set_model(*old(dirty)).contains(ck)
                || (exists|c: (int, int)|
                #[trigger] to_int_pairs(cells@).contains(c) && !cell_set_model(*except).contains(c)
                    && ck == chunk_of(c)),
        forall|ck: (int, int)| #[trigger]
            cell_set_model(*old(dirty)).contains(ck) ==> cell_set_model(*final(dirty)).contains(ck),
        forall|c: (int, int)| #[trigger]
            to_int_pairs(cells@).contains(c) && !cell_set_model(*except).contains(c)
                ==> cell_set_model(*final(dirty)).contains(chunk_of(c)),
{
    let ghost d0 = cell_set_model(*dirty);
    let ghost cseq = to_int_pairs(cells@);
    let mut i: usize = 0;
    while i < cells.len()
        invariant
            i <= cells.len(),
            cseq == to_int_pairs(cells@),
            forall|ck: (int, int)| #[trigger]
                cell_set_model(*dirty).contains(ck) ==> d0.contains(ck) || (exists|c: (int, int)|
                #[trigger] cseq.contains(c) && !cell_set_model(*except).contains(c) && ck
                    == chunk_of(c)),
            forall|ck: (int, int)| #[trigger]
                d0.contains(ck) ==> cell_set_model(*dirty).contains(ck),
            forall|j: int|
                0 <= j < i && !cell_set_model(*except).contains(#[trigger] cseq[j])
                    ==> cell_set_model(*dirty).contains(chunk_of(cseq[j])),
        decreases cells.len() - i,
    {
        let c = cells[i];
        proof {
            assert(cseq[i as int] == to_int_pair(c));
        }
        if !cell_set_contains(except, c) {
            let ck = chunk_key(c.0, c.1);
            proof {
                assert(to_int_pair(ck) == chunk_of(cseq[i as int]));
                assert(cseq.contains(cseq[i as int]));
            }
            cell_set_insert(dirty, ck);
        }
        i += 1;
    }
    proof {
        assert(forall|c: (int, int)| #[trigger]
            cseq.contains(c) && !cell_set_model(*except).contains(c) ==> cell_set_model(
                *dirty,
            ).contains(chunk_of(c))) by {
            assert forall|c: (int, int)|
                cseq.contains(c) && !cell_set_model(*except).contains(c) implies cell_set_model(
                *dirty,
            ).contains(chunk_of(c)) by {
                let j = choose|j: int| 0 <= j < cseq.len() && cseq[j] == c;
                assert(cell_set_model(*dirty).contains(chunk_of(cseq[j])));
            }
        }
    }
}

/// Gives a cell an entry in the count map (defaulting to zero) without
/// changing any recorded count, so that an isolated alive cell is still a
/// candidate for death.
fn note_candidate(counts: &mut CountMap, e: (i64, i64))
    ensures
        forall|q: (int, int)| #[trigger]
            count_map_model(*final(counts)).contains_key(q) <==> (count_map_model(
                *old(counts),
            ).contains_key(q) || q == to_int_pair(e)),
        forall|q: (int, int)| #[trigger]
            count_of(count_map_model(*final(counts)), q) == count_of(
                count_map_model(*old(counts)),
                q,
            ),
{
    match count_map_get(counts, e) {
        Some(_) => {
        },
        None => {
            count_map_insert(counts, e, 0);
        },
    }
}

/// Raises the recorded alive-neighbor count of a cell by one.
fn bump_neighbor(counts: &mut CountMap, k: (i64, i64))
    requires
        count_of(count_map_model(*old(counts)), to_int_pair(k)) < usize::MAX,
    ensures
        forall|q: (int, int)| #[trigger]
            count_map_model(*final(counts)).contains_key(q) <==> (count_map_model(
                *old(counts),
            ).contains_key(q) || q == to_int_pair(k)),
        count_of(count_map_model(*final(counts)), to_int_pair(k)) == count_of(
            count_map_model(*old(counts)),
            to_int_pair(k),
        ) + 1,
        forall|q: (int, int)|
            q != to_int_pair(k) ==> #[trigger] count_of(count_map_model(*final(counts)), q)
                == count_of(count_map_model(*old(counts)), q),
{
    match count_map_get(counts, k) {
        Some(v) => {
            count_map_insert(counts, k, v + 1);
        },
        None => {
            count_map_insert(counts, k, 1);
        },
    }
}

/// Raises by one the recorded count of each of the eight neighbors of an
/// alive cell.
fn bump_all_neighbors(counts: &mut CountMap, e: (i64, i64))
    requires
        interior_cell(to_int_pair(e)),
        forall|q: (int, int)| #[trigger]
            count_of(count_map_model(*old(counts)), q) < usize::MAX - 8,
    ensures
        forall|q: (int, int)| #[trigger]
            count_map_model(*final(counts)).contains_key(q) <==> (count_map_model(
                *old(counts),
            ).contains_key(q) || adjacent(to_int_pair(e), q)),
        forall|q: (int, int)| #[trigger]
            count_of(count_map_model(*final(counts)), q) == count_of(
                count_map_model(*old(counts)),
                q,
            ) + indicator(adjacent(to_int_pair(e), q)),
{
    let ghost ei = to_int_pair(e);
    let ghost m0 = count_map_model(*counts);
    bump_neighbor(counts, (e.0 - 1, e.1 - 1));
    bump_neighbor(counts, (e.0, e.1 - 1));
    bump_neighbor(counts, (e.0 + 1, e.1 - 1));
    bump_neighbor(counts, (e.0 - 1, e.1));
    bump_neighbor(counts, (e.0 + 1, e.1));
    bump_neighbor(counts, (e.0 - 1, e.1 + 1));
    bump_neighbor(counts, (e.0, e.1 + 1));
    bump_neighbor(counts, (e.0 + 1, e.1 + 1));
    proof {
        let m8 = count_map_model(*counts);
        assert forall|q: (int, int)| #[trigger] count_of(m8, q) == count_of(m0, q) + indicator(
            adjacent(ei, q),
        ) by {
            assert(adjacent(ei, q) <==> (q == (ei.0 - 1, ei.1 - 1) || q == (ei.0, ei.1 - 1) || q
                == (ei.0 + 1, ei.1 - 1) || q == (ei.0 - 1, ei.1) || q == (ei.0 + 1, ei.1) || q == (
            ei.0 - 1, ei.1 + 1) || q == (ei.0, ei.1 + 1) || q == (ei.0 + 1, ei.1 + 1)));
        }
        assert forall|q: (int, int)| #[trigger] m8.contains_key(q) <==> (m0.contains_key(q)
            || adjacent(ei, q)) by {
            assert(adjacent(ei, q) <==> (q == (ei.0 - 1, ei.1 - 1) || q == (ei.0, ei.1 - 1) || q
                == (ei.0 + 1, ei.1 - 1) || q == (ei.0 - 1, ei.1) || q == (ei.0 + 1, ei.1) || q == (
            ei.0 - 1, ei.1 + 1) || q == (ei.0, ei.1 + 1) || q == (ei.0 + 1, ei.1 + 1)));
        }
    }
}

/// The world state: the authoritative set of alive cells, the remembered
/// initial pattern, the dirty-chunk set and the generation counter.
pub struct World {
    alive: CellSet,
    initial_pattern: CellSet,
    dirty: CellSet,
    generation_count: u64,
}

impl View for World {
    type V = WorldModel;

    closed spec fn view(&self) -> WorldModel {
        WorldModel {
            alive: cell_set_model(self.alive),
            initial_pattern: cell_set_model(self.initial_pattern),
            dirty_chunks: cell_set_model(self.dirty),
            generation: self.generation_count as nat,
        }
    }
}

impl World {
    /// Creates an empty world.
    pub fn new() -> (w: World)
        ensures
            w@ == empty_world(),
    {
        let w = World {
            alive: new_cell_set(),
            initial_pattern: new_cell_set(),
            dirty: new_cell_set(),
            generation_count: 0,
        };
        proof {
            assert(w@ =~= empty_world());
        }
        w
    }

    /// Whether the cell at `(x, y)` is alive. Any coordinate may be asked
    /// about; one outside the current population is dead.
    pub fn is_alive(&self, x: i64, y: i64) -> (r: bool)
        ensures
            r == self@.alive.contains((x as int, y as int)),
    {
        cell_set_contains(&self.alive, (x, y))
    }

    /// The number of alive cells.
    pub fn population(&self) -> (r: usize)
        ensures
            r == self@.alive.len(),
    {
        cell_set_len(&self.alive)
    }

    /// Generations elapsed since the last edit or reset.
    pub fn generation_count(&self) -> (r: u64)
        ensures
            r as nat == self@.generation,
    {
        self.generation_count
    }

    /// Flips the cell at `(x, y)`, mirrors the flip into the initial
    /// pattern, marks the owning chunk dirty and resets the generation
    /// counter.
    pub fn toggle_cell(&mut self, x: i64, y: i64)
        ensures
            final(self)@ == toggle_spec(old(self)@, x as int, y as int),
    {
        let was_alive = cell_set_contains(&self.alive, (x, y));
        if was_alive {
            cell_set_remove(&mut self.alive, (x, y));
            cell_set_remove(&mut self.initial_pattern, (x, y));
        } else {
            cell_set_insert(&mut self.alive, (x, y));
            cell_set_insert(&mut self.initial_pattern, (x, y));
        }
        let ck = chunk_key(x, y);
        cell_set_insert(&mut self.dirty, ck);
        self.generation_count = 0;
        proof {
            assert(self@ =~= toggle_spec(old(self)@, x as int, y as int));
        }
    }

    /// Inserts every listed cell into both `alive` and the initial pattern
    /// (additively: cells not listed are kept), marks dirty the chunk of
    /// every cell that was dead, and resets the generation counter.
    pub fn place_pattern(&mut self, cells: &Vec<(i64, i64)>)
        ensures
            final(self)@ == place_spec(old(self)@, to_int_pairs(cells@)),
    {
        let ghost w0 = self@;
        let ghost cseq = to_int_pairs(cells@);
        let mut i: usize = 0;
        while i < cells.len()
            invariant
                i <= cells.len(),
                cseq == to_int_pairs(cells@),
                self.generation_count as nat == w0.generation,
                forall|c: (int, int)| #[trigger]
                    cell_set_model(self.alive).contains(c) <==> (w0.alive.contains(c)
                        || cseq.take(i as int).contains(c)),
                forall|c: (int, int)| #[trigger]
                    cell_set_model(self.initial_pattern).contains(c) <==> (
                    w0.initial_pattern.contains(c) || cseq.take(i as int).contains(c)),
                forall|ck: (int, int)| #[trigger]
                    cell_set_model(self.dirty).contains(ck) ==> w0.dirty_chunks.contains(ck) || (
                    exists|c: (int, int)|
                        #[trigger] cseq.take(i as int).contains(c) && !w0.alive.contains(c) && ck
                            == chunk_of(c)),
                forall|ck: (int, int)| #[trigger]
                    w0.dirty_chunks.contains(ck) ==> cell_set_model(self.dirty).contains(ck),
                forall|j: int|
                    0 <= j < i && !w0.alive.contains(#[trigger] cseq[j]) ==> cell_set_model(
                        self.dirty,
                    ).contains(chunk_of(cseq[j])),
            decreases cells.len() - i,
        {
            let ghost iv = i as int;
            let c = cells[i];
            proof {
                assert(cseq[iv] == to_int_pair(c));
            }
            let newly = cell_set_insert(&mut self.alive, c);
            cell_set_insert(&mut self.initial_pattern, c);
            if newly {
                let ck = chunk_key(c.0, c.1);
                proof {
                    assert(to_int_pair(ck) == chunk_of(cseq[iv]));
                }
                cell_set_insert(&mut self.dirty, ck);
            }
            i += 1;
            proof {
                assert forall|q: (int, int)|
                    cseq.take(iv + 1).contains(q) <==> (cseq.take(iv).contains(q) || q
                        == cseq[iv]) by {
                    lemma_take_succ_contains(cseq, iv, q);
                }
                if !newly && !w0.alive.contains(cseq[iv]) {
                    assert(cseq.take(iv).contains(cseq[iv]));
                    let j = choose|j: int| 0 <= j < iv && cseq.take(iv)[j] == cseq[iv];
                    assert(cseq[j] == cseq[iv]);
                }
            }
        }
        self.generation_count = 0;
        proof {
            assert(cseq.take(cells@.len() as int) =~= cseq);
            assert(cell_set_model(self.alive) =~= w0.alive + cseq.to_set());
            assert(cell_set_model(self.initial_pattern) =~= w0.initial_pattern + cseq.to_set());
            let marked = chunk_keys_of(cseq.to_set().difference(w0.alive));
            assert forall|ck: (int, int)| #[trigger]
                cell_set_model(self.dirty).contains(ck) implies (w0.dirty_chunks + marked).contains(
                ck,
            ) by {
                if !w0.dirty_chunks.contains(ck) {
                    let c = choose|c: (int, int)|
                        #[trigger] cseq.contains(c) && !w0.alive.contains(c) && ck == chunk_of(c);
                    assert(cseq.to_set().difference(w0.alive).contains(c));
                }
            }
            assert forall|ck: (int, int)| #[trigger]
                (w0.dirty_chunks + marked).contains(ck) implies cell_set_model(
                self.dirty,
            ).contains(ck) by {
                if marked.contains(ck) {
                    let c = choose|c: (int, int)|
                        cseq.to_set().difference(w0.alive).contains(c) && ck == chunk_of(c);
                    let j = choose|j: int| 0 <= j < cseq.len() && cseq[j] == c;
                    assert(cell_set_model(self.dirty).contains(chunk_of(cseq[j])));
                }
            }
            assert(cell_set_model(self.dirty) =~= w0.dirty_chunks + marked);
            assert(self@ =~= place_spec(w0, cseq));
        }
    }

    /// Discards the simulated evolution: restores the initial pattern as
    /// the alive set, marks dirty the chunk of every cell whose status this
    /// changes, and resets the generation counter.
    pub fn reset(&mut self)
        ensures
            final(self)@ == reset_spec(old(self)@),
    {
        let ghost w0 = self@;
        let alive_items = cell_set_items(&self.alive);
        mark_chunks_not_in(&mut self.dirty, &alive_items, &self.initial_pattern);
        let ghost d1 = cell_set_model(self.dirty);
        let initial_items = cell_set_items(&self.initial_pattern);
        mark_chunks_not_in(&mut self.dirty, &initial_items, &self.alive);
        self.alive = cell_set_clone(&self.initial_pattern);
        self.generation_count = 0;
        proof {
            let changed = changed_cells(w0.alive, w0.initial_pattern);
            assert forall|ck: (int, int)| #[trigger]
                cell_set_model(self.dirty).contains(ck) implies (w0.dirty_chunks + chunk_keys_of(
                changed,
            )).contains(ck) by {
                if !w0.dirty_chunks.contains(ck) {
                    if d1.contains(ck) {
                        let c = choose|c: (int, int)|
                            #[trigger] to_int_pairs(alive_items@).contains(c)
                                && !w0.initial_pattern.contains(c) && ck == chunk_of(c);
                        assert(to_int_pairs(alive_items@).to_set().contains(c));
                        assert(changed.contains(c));
                    } else {
                        let c = choose|c: (int, int)|
                            #[trigger] to_int_pairs(initial_items@).contains(c)
                                && !w0.alive.contains(c) && ck == chunk_of(c);
                        assert(to_int_pairs(initial_items@).to_set().contains(c));
                        assert(changed.contains(c));
                    }
                }
            }
            assert forall|ck: (int, int)| #[trigger]
                (w0.dirty_chunks + chunk_keys_of(changed)).contains(ck) implies cell_set_model(
                self.dirty,
            ).contains(ck) by {
                if !w0.dirty_chunks.contains(ck) {
                    let c = choose|c: (int, int)| changed.contains(c) && ck == chunk_of(c);
                    if w0.alive.contains(c) {
                        assert(to_int_pairs(alive_items@).to_set().contains(c));
                        assert(d1.contains(chunk_of(c)));
                    } else {
                        assert(to_int_pairs(initial_items@).to_set().contains(c));
                    }
                }
            }
            assert(cell_set_model(self.dirty) =~= w0.dirty_chunks + chunk_keys_of(changed));
            assert(self@ =~= reset_spec(w0));
        }
    }

    /// Empties both the alive set and the initial pattern, marks dirty
    /// every chunk that either set covered, and resets the generation
    /// counter.
    pub fn clear(&mut self)
        ensures
            final(self)@ == clear_spec(old(self)@),
    {
        let ghost w0 = self@;
        let none = new_cell_set();
        let alive_items = cell_set_items(&self.alive);
        mark_chunks_not_in(&mut self.dirty, &alive_items, &none);
        let ghost d1 = cell_set_model(self.dirty);
        let initial_items = cell_set_items(&self.initial_pattern);
        mark_chunks_not_in(&mut self.dirty, &initial_items, &none);
        cell_set_clear(&mut self.alive);
        cell_set_clear(&mut self.initial_pattern);
        self.generation_count = 0;
        proof {
            let covered = w0.alive + w0.initial_pattern;
            assert forall|ck: (int, int)| #[trigger]
                cell_set_model(self.dirty).contains(ck) implies (w0.dirty_chunks + chunk_keys_of(
                covered,
            )).contains(ck) by {
                if !w0.dirty_chunks.contains(ck) {
                    if d1.contains(ck) {
                        let c = choose|c: (int, int)|
                            #[trigger] to_int_pairs(alive_items@).contains(c) && ck == chunk_of(c);
                        assert(to_int_pairs(alive_items@).to_set().contains(c));
                        assert(covered.contains(c));
                    } else {
                        let c = choose|c: (int, int)|
                            #[trigger] to_int_pairs(initial_items@).contains(c) && ck == chunk_of(
                                c,
                            );
                        assert(to_int_pairs(initial_items@).to_set().contains(c));
                        assert(covered.contains(c));
                    }
                }
            }
            assert forall|ck: (int, int)| #[trigger]
                (w0.dirty_chunks + chunk_keys_of(covered)).contains(ck) implies cell_set_model(
                self.dirty,
            ).contains(ck) by {
                if !w0.dirty_chunks.contains(ck) {
                    let c = choose|c: (int, int)| covered.contains(c) && ck == chunk_of(c);
                    if w0.alive.contains(c) {
                        assert(to_int_pairs(alive_items@).to_set().contains(c));
                        assert(d1.contains(chunk_of(c)));
                    } else {
                        assert(to_int_pairs(initial_items@).to_set().contains(c));
                    }
                }
            }
            assert(cell_set_model(self.dirty) =~= w0.dirty_chunks + chunk_keys_of(covered));
            assert(self@ =~= clear_spec(w0));
        }
    }

    /// Advances the world by one generation of Conway's rule, visiting only
    /// the alive cells and their neighbors, and marks dirty the chunk of
    /// every cell whose status changed.
    ///
    /// The population must sit strictly inside the machine coordinate range
    /// so that every neighbor coordinate is representable.
    pub fn progress_generation(&mut self)
        requires
            population_interior(old(self)@.alive),
            old(self)@.generation < u64::MAX,
        ensures
            final(self)@ == step_spec(old(self)@),
    {
        let ghost w0 = self@;
        let ghost a = w0.alive;
        let cells = cell_set_items(&self.alive);
        let ghost cseq = to_int_pairs(cells@);
        let mut counts = new_count_map();
        let mut i: usize = 0;
        while i < cells.len()
            invariant
                i <= cells.len(),
                cseq == to_int_pairs(cells@),
                cseq.no_duplicates(),
                cseq.to_set() == a,
                population_interior(a),
                forall|q: (int, int)| #[trigger]
                    count_of(count_map_model(counts), q) == adjacent_in_seq(
                        cseq.take(i as int),
                        q,
                    ),
                forall|j: int|
                    0 <= j < i ==> count_map_model(counts).contains_key(#[trigger] cseq[j]),
            decreases cells.len() - i,
        {
            let ghost iv = i as int;
            let e = cells[i];
            proof {
                assert(cseq[iv] == to_int_pair(e));
                assert(cseq.contains(cseq[iv]));
                assert(a.contains(cseq[iv]));
                assert(cseq.take(iv).no_duplicates());
                assert forall|q: (int, int)| #[trigger]
                    count_of(count_map_model(counts), q) < usize::MAX - 8 by {
                    lemma_adjacent_in_seq_matches(cseq.take(iv), q);
                }
            }
            note_candidate(&mut counts, e);
            bump_all_neighbors(&mut counts, e);
            i += 1;
            proof {
                assert forall|q: (int, int)| #[trigger]
                    count_of(count_map_model(counts), q) == adjacent_in_seq(
                        cseq.take(iv + 1),
                        q,
                    ) by {
                    lemma_adjacent_in_seq_take_succ(cseq, iv, q);
                }
            }
        }
        proof {
            assert(cseq.take(cells@.len() as int) =~= cseq);
            assert forall|q: (int, int)| #[trigger] count_of(count_map_model(counts), q)
                == neighbor_count(a, q) by {
                lemma_adjacent_in_seq_matches(cseq, q);
            }
            assert forall|c: (int, int)| #[trigger]
                a.contains(c) implies count_map_model(counts).contains_key(c) by {
                assert(cseq.contains(c));
                let j = choose|j: int| 0 <= j < cseq.len() && cseq[j] == c;
                assert(count_map_model(counts).contains_key(cseq[j]));
            }
        }
        let pairs = count_map_items(&counts);
        let ghost cm = count_map_model(counts);
        let ghost kseq = to_int_pairs(pairs@.map_values(|p: ((i64, i64), usize)| p.0));
        let mut next = new_cell_set();
        let mut j: usize = 0;
        while j < pairs.len()
            invariant
                j <= pairs.len(),
                cell_set_model(self.alive) == a,
                cell_set_model(self.initial_pattern) == w0.initial_pattern,
                self.generation_count as nat == w0.generation,
                cm == count_map_model(counts),
                kseq == to_int_pairs(pairs@.map_values(|p: ((i64, i64), usize)| p.0)),
                kseq.no_duplicates(),
                kseq.to_set() == cm.dom(),
                forall|t: int|
                    0 <= t < pairs@.len() ==> cm.contains_key(
                        to_int_pair(#[trigger] pairs@[t].0),
                    ) && cm[to_int_pair(pairs@[t].0)] == pairs@[t].1,
                forall|q: (int, int)| #[trigger]
                    count_of(cm, q) == neighbor_count(a, q),
                forall|c: (int, int)| #[trigger] a.contains(c) ==> cm.contains_key(c),
                forall|c: (int, int)| #[trigger]
                    cell_set_model(next).contains(c) ==> alive_next(a, c),
                forall|t: int|
                    0 <= t < j ==> (cell_set_model(next).contains(#[trigger] kseq[t])
                        <==> alive_next(a, kseq[t])),
                forall|ck: (int, int)| #[trigger]
                    cell_set_model(self.dirty).contains(ck) ==> w0.dirty_chunks.contains(ck) || (
                    exists|c: (int, int)|
                        #[trigger] changed_cells(a, step(a)).contains(c) && ck == chunk_of(c)),
                forall|ck: (int, int)| #[trigger]
                    w0.dirty_chunks.contains(ck) ==> cell_set_model(self.dirty).contains(ck),
                forall|t: int|
                    0 <= t < j && changed_cells(a, step(a)).contains(#[trigger] kseq[t])
                        ==> cell_set_model(self.dirty).contains(chunk_of(kseq[t])),
            decreases pairs.len() - j,
        {
            let ghost jv = j as int;
            let (c, n) = pairs[j];
            proof {
                assert(kseq[jv] == to_int_pair(pairs@[jv].0));
                assert(count_of(cm, kseq[jv]) == n as int);
                assert(n as int == neighbor_count(a, kseq[jv]));
            }
            let was = cell_set_contains(&self.alive, c);
            let lives = if was {
                n == 2 || n == 3
            } else {
                n == 3
            };
            proof {
                assert(lives == alive_next(a, kseq[jv]));
            }
            if lives {
                cell_set_insert(&mut next, c);
            }
            if was != lives {
                let ck = chunk_key(c.0, c.1);
                proof {
                    assert(to_int_pair(ck) == chunk_of(kseq[jv]));
                    assert(step(a).contains(kseq[jv]) == alive_next(a, kseq[jv]));
                    assert(changed_cells(a, step(a)).contains(kseq[jv]));
                }
                cell_set_insert(&mut self.dirty, ck);
            }
            j += 1;
        }
        proof {
            assert forall|c: (int, int)| #[trigger]
                step(a).contains(c) implies cell_set_model(next).contains(c) by {
                assert(alive_next(a, c));
                if cm.contains_key(c) {
                    assert(kseq.to_set().contains(c));
                    let t = choose|t: int| 0 <= t < kseq.len() && kseq[t] == c;
                    assert(cell_set_model(next).contains(kseq[t]) <==> alive_next(a, kseq[t]));
                } else {
                    assert(count_of(cm, c) == 0);
                    assert(neighbor_count(a, c) == 0);
                    assert(!a.contains(c));
                    assert(false);
                }
            }
            assert forall|c: (int, int)| #[trigger]
                cell_set_model(next).contains(c) implies step(a).contains(c) by {
                assert(alive_next(a, c));
            }
            assert(cell_set_model(next) =~= step(a));
            let changed = changed_cells(a, step(a));
            assert forall|ck: (int, int)| #[trigger]
                cell_set_model(self.dirty).contains(ck) implies (w0.dirty_chunks + chunk_keys_of(
                changed,
            )).contains(ck) by {
                if !w0.dirty_chunks.contains(ck) {
                    let c = choose|c: (int, int)|
                        #[trigger] changed.contains(c) && ck == chunk_of(c);
                    assert(chunk_keys_of(changed).contains(ck));
                }
            }
            assert forall|ck: (int, int)| #[trigger]
                (w0.dirty_chunks + chunk_keys_of(changed)).contains(ck) implies cell_set_model(
                self.dirty,
            ).contains(ck) by {
                if !w0.dirty_chunks.contains(ck) {
                    let c = choose|c: (int, int)| changed.contains(c) && ck == chunk_of(c);
                    assert(step(a).contains(c) == alive_next(a, c));
                    if cm.contains_key(c) {
                        assert(kseq.to_set().contains(c));
                        let t = choose|t: int| 0 <= t < kseq.len() && kseq[t] == c;
                        assert(changed_cells(a, step(a)).contains(kseq[t]));
                        assert(cell_set_model(self.dirty).contains(chunk_of(kseq[t])));
                    } else {
                        assert(count_of(cm, c) == 0);
                        assert(neighbor_count(a, c) == 0);
                        assert(!a.contains(c));
                        assert(!alive_next(a, c));
                        assert(false);
                    }
                }
            }
            assert(cell_set_model(self.dirty) =~= w0.dirty_chunks + chunk_keys_of(changed));
        }
        self.alive = next;
        self.generation_count = self.generation_count + 1;
        proof {
            assert(self@ =~= step_spec(w0));
        }
    }

    /// The chunks whose rendered form is stale, for the renderer.
    pub fn dirty_chunks(&self) -> (r: Vec<(i64, i64)>)
        ensures
            to_int_pairs(r@).no_duplicates(),
            to_int_pairs(r@).to_set() == self@.dirty_chunks,
    {
        cell_set_items(&self.dirty)
    }

    /// Forgets the dirty set. To be called by the renderer only once it has
    /// resynchronized every dirty chunk.
    pub fn clear_dirty_chunks(&mut self)
        ensures
            final(self)@ == clear_dirty_spec(old(self)@),
    {
        cell_set_clear(&mut self.dirty);
        proof {
            assert(self@ =~= clear_dirty_spec(old(self)@));
        }
    }
}

/// Toggling a dead cell makes it alive, records it in the initial pattern,
/// resets the generation counter, and marks exactly its owning chunk dirty;
/// toggling it again kills it and removes it from the initial pattern.
pub proof fn lemma_toggle_semantics(w: WorldModel, x: int, y: int)
    requires
        !w.alive.contains((x, y)),
    ensures
        ({
            let once = toggle_spec(w, x, y);
            let twice = toggle_spec(once, x, y);
            once.alive.contains((x, y)) && once.initial_pattern.contains((x, y))
                && once.generation == 0 && once.dirty_chunks == w.dirty_chunks.insert(
                chunk_of((x, y)),
            ) && !twice.alive.contains((x, y)) && !twice.initial_pattern.contains((x, y))
                && twice.generation == 0
        }),
{
}

/// Placing a pattern, stepping once, and resetting restores the placed
/// pattern: the alive set becomes the old initial pattern plus the placed
/// cells, and the generation counter is back to zero.
pub proof fn lemma_reset_round_trip(w: WorldModel, cells: Seq<(int, int)>)
    ensures
        reset_spec(step_spec(place_spec(w, cells))).alive == w.initial_pattern + cells.to_set(),
        reset_spec(step_spec(place_spec(w, cells))).generation == 0,
{
}

/// A step of a population that the rule leaves unchanged marks no chunk
/// dirty.
pub proof fn lemma_stable_step_adds_no_dirty(w: WorldModel)
    requires
        step(w.alive) == w.alive,
    ensures
        step_spec(w).dirty_chunks == w.dirty_chunks,
{
    assert(changed_cells(w.alive, step(w.alive)) =~= Set::<(int, int)>::empty());
    assert(chunk_keys_of(Set::<(int, int)>::empty()) =~= Set::<(int, int)>::empty()) by {
        assert forall|ck: (int, int)|
            !(#[trigger] chunk_keys_of(Set::<(int, int)>::empty()).contains(ck)) by {
            if chunk_keys_of(Set::<(int, int)>::empty()).contains(ck) {
                let c = choose|c: (int, int)|
                    Set::<(int, int)>::empty().contains(c) && ck == chunk_of(c);
            }
        }
    }
    assert(step_spec(w).dirty_chunks =~= w.dirty_chunks);
}

/// Stepping an empty world leaves the population empty and marks no chunk
/// dirty, so a dirty set that was cleared stays empty.
pub proof fn lemma_step_of_empty_world_adds_no_dirty(w: WorldModel)
    requires
        w.alive == Set::<(int, int)>::empty(),
    ensures
        step_spec(w).alive == Set::<(int, int)>::empty(),
        step_spec(w).dirty_chunks == w.dirty_chunks,
{
    lemma_step_of_empty();
    assert(step(w.alive) =~= w.alive);
    lemma_stable_step_adds_no_dirty(w);
}

} // verus!
