//! The neighbour search: which entities each cell holds, and which pairs of
//! entities are tested for contact.
use vstd::prelude::*;
use crate::domain::{Box, DomainData, Frame, touches_face};
use crate::sphere::{ParticleData, ParticleView};
use crate::vector::Vec3;

verus! {

/// The entries of `list` grow strictly.
pub open spec fn increasing(list: Seq<usize>) -> bool {
    forall|a: int, b: int| 0 <= a < b < list.len() ==> list[a] < list[b]
}

/// Entity `idx` has its centre in `cell`.
pub open spec fn is_real_in(cell: Box, p: ParticleView, idx: int) -> bool {
    cell.contains(p.position[idx])
}

/// Entity `idx` is outside `cell` but is kept as a possible contact of its
/// entities: its bounding cube reaches the cell enlarged by the largest
/// radius, or the cell is on the boundary of the grid and the entity comes
/// close to a face of the domain.
pub open spec fn is_ghost_in(cell: Box, boundary: bool, domain: Vec3, p: ParticleView, idx: int) -> bool {
    let pos = p.position[idx];
    let r = p.radius[idx] as int;
    let m = p.max_radius as int;
    &&& !cell.contains(pos)
    &&& (cell.corner_near(pos, r, m) || (boundary && touches_face(domain, pos, r, m)))
}

/// `list` holds, in increasing order, exactly the entities below `n` with
/// their centre in `cell`.
pub open spec fn reals_upto(cell: Box, p: ParticleView, list: Seq<usize>, n: int) -> bool {
    &&& increasing(list)
    &&& forall|a: int| 0 <= a < list.len() ==> list[a] < n && is_real_in(cell, p, #[trigger] list[a] as int)
    &&& forall|idx: int| 0 <= idx < n && is_real_in(cell, p, idx) ==> #[trigger] list.contains(idx as usize)
}

/// `list` holds, in increasing order, exactly the entities below `n` that are
/// ghosts of `cell`.
pub open spec fn ghosts_upto(
    cell: Box,
    boundary: bool,
    domain: Vec3,
    p: ParticleView,
    list: Seq<usize>,
    n: int,
) -> bool {
    &&& increasing(list)
    &&& forall|a: int|
        0 <= a < list.len() ==> list[a] < n && is_ghost_in(cell, boundary, domain, p, #[trigger] list[a] as int)
    &&& forall|idx: int|
        0 <= idx < n && is_ghost_in(cell, boundary, domain, p, idx) ==> #[trigger] list.contains(
            idx as usize,
        )
}

/// The two lists of `cell` are the ones that the positions in `p` call for.
pub open spec fn cell_filled(cell: Box, boundary: bool, domain: Vec3, p: ParticleView) -> bool {
    &&& reals_upto(cell, p, cell.reals@, p.count())
    &&& ghosts_upto(cell, boundary, domain, p, cell.ghosts@, p.count())
}

/// Every cell of the grid holds the lists that the positions in `p` call for.
pub open spec fn grid_filled(d: DomainData, p: ParticleView) -> bool {
    forall|i: int, j: int, k: int|
        d.in_grid(i, j, k) ==> cell_filled(#[trigger] d.cell(i, j, k), d.on_boundary(i, j, k), d.domain, p)
}

/// Which entities a cell holds depends on its bounds alone.
proof fn lemma_same_bounds(c1: Box, c2: Box, boundary: bool, domain: Vec3, p: ParticleView, idx: int)
    requires
        c1.lo == c2.lo,
        c1.hi == c2.hi,
    ensures
        is_real_in(c1, p, idx) == is_real_in(c2, p, idx),
        is_ghost_in(c1, boundary, domain, p, idx) == is_ghost_in(c2, boundary, domain, p, idx),
{
    let pos = p.position[idx];
    let r = p.radius[idx] as int;
    let m = p.max_radius as int;
    if c1.corner_near(pos, r, m) {
        let (ux, uy, uz) = choose|ux: bool, uy: bool, uz: bool| #[trigger]
            c1.holds_point_enlarged(
                crate::domain::end_of(pos.x as int, r, ux),
                crate::domain::end_of(pos.y as int, r, uy),
                crate::domain::end_of(pos.z as int, r, uz),
                m,
            );
        assert(c2.holds_point_enlarged(
            crate::domain::end_of(pos.x as int, r, ux),
            crate::domain::end_of(pos.y as int, r, uy),
            crate::domain::end_of(pos.z as int, r, uz),
            m,
        ));
    }
    if c2.corner_near(pos, r, m) {
        let (ux, uy, uz) = choose|ux: bool, uy: bool, uz: bool| #[trigger]
            c2.holds_point_enlarged(
                crate::domain::end_of(pos.x as int, r, ux),
                crate::domain::end_of(pos.y as int, r, uy),
                crate::domain::end_of(pos.z as int, r, uz),
                m,
            );
        assert(c1.holds_point_enlarged(
            crate::domain::end_of(pos.x as int, r, ux),
            crate::domain::end_of(pos.y as int, r, uy),
            crate::domain::end_of(pos.z as int, r, uz),
            m,
        ));
    }
}

/// The real and the ghost entities of one cell.
fn members(cell: &Box, boundary: bool, d_data: &DomainData, p_data: &ParticleData) -> (lists: (
    Vec<usize>,
    Vec<usize>,
))
    requires
        p_data.wf(),
    ensures
        reals_upto(*cell, p_data@, lists.0@, p_data.count()),
        ghosts_upto(*cell, boundary, d_data.domain, p_data@, lists.1@, p_data.count()),
{
    let mut reals: Vec<usize> = Vec::new();
    let mut ghosts: Vec<usize> = Vec::new();
    let n: usize = p_data.radius.len();
    let mut index: usize = 0;
    while index < n
        invariant
            p_data.wf(),
            n == p_data.count(),
            index <= n,
            reals_upto(*cell, p_data@, reals@, index as int),
            ghosts_upto(*cell, boundary, d_data.domain, p_data@, ghosts@, index as int),
        decreases n - index,
    {
        let ghost prev_reals = reals@;
        let ghost prev_ghosts = ghosts@;
        let position: Vec3 = p_data.position[index];
        let radius: i64 = p_data.radius[index];
        if cell.is_position_in_box(position) {
            reals.push(index);
            proof {
                assert(reals@[prev_reals.len() as int] == index);
                assert forall|idx: int|
                    0 <= idx < index + 1 && is_real_in(*cell, p_data@, idx) implies #[trigger] reals@.contains(
                    idx as usize,
                ) by {
                    if idx < index {
                        assert(prev_reals.contains(idx as usize));
                        let a = choose|a: int| 0 <= a < prev_reals.len() && prev_reals[a] == idx as usize;
                        assert(reals@[a] == idx as usize);
                    }
                }
            }
        } else if cell.is_sphere_aabb_in_radius_enlarged_box(position, radius, p_data.max_radius)
            || (boundary && cell.is_periodic_sphere(position, radius, p_data.max_radius, d_data)) {
            ghosts.push(index);
            proof {
                assert(ghosts@[prev_ghosts.len() as int] == index);
                assert forall|idx: int|
                    0 <= idx < index + 1 && is_ghost_in(
                        *cell,
                        boundary,
                        d_data.domain,
                        p_data@,
                        idx,
                    ) implies #[trigger] ghosts@.contains(idx as usize) by {
                    if idx < index {
                        assert(prev_ghosts.contains(idx as usize));
                        let a = choose|a: int| 0 <= a < prev_ghosts.len() && prev_ghosts[a] == idx as usize;
                        assert(ghosts@[a] == idx as usize);
                    }
                }
            }
        }
        index += 1;
    }
    (reals, ghosts)
}

/// `c` stands at place `(i, j, k)` of the grid of `d` and holds the lists that
/// the positions in `p` call for.
pub open spec fn rebuilt_cell(d: DomainData, p: ParticleView, c: Box, i: int, j: int, k: int) -> bool {
    &&& c.position == d.cell(i, j, k).position
    &&& c.lo == d.cell(i, j, k).lo
    &&& c.hi == d.cell(i, j, k).hi
    &&& cell_filled(c, d.on_boundary(i, j, k), d.domain, p)
}

/// `row` is the rebuilt row `(i, j)` of the grid of `d`, as far as `n` cells.
pub open spec fn rebuilt_row(d: DomainData, p: ParticleView, row: Seq<Box>, i: int, j: int, n: int) -> bool {
    &&& row.len() == n
    &&& forall|k: int| 0 <= k < n ==> rebuilt_cell(d, p, #[trigger] row[k], i, j, k)
}

/// `plane` is the rebuilt plane `i` of the grid of `d`, as far as `n` rows.
pub open spec fn rebuilt_plane(d: DomainData, p: ParticleView, plane: Seq<Vec<Box>>, i: int, n: int) -> bool {
    &&& plane.len() == n
    &&& forall|j: int|
        0 <= j < n ==> rebuilt_row(d, p, (#[trigger] plane[j])@, i, j, d.collision_boxes.z as int)
}

fn rebuild_row(d_data: &DomainData, p_data: &ParticleData, i: usize, j: usize) -> (row: Vec<Box>)
    requires
        d_data.wf(),
        p_data.wf(),
        i < d_data.collision_boxes.x,
        j < d_data.collision_boxes.y,
    ensures
        rebuilt_row(*d_data, p_data@, row@, i as int, j as int, d_data.collision_boxes.z as int),
{
    let nx: usize = d_data.collision_boxes.x;
    let ny: usize = d_data.collision_boxes.y;
    let nz: usize = d_data.collision_boxes.z;
    let mut row: Vec<Box> = Vec::new();
    let mut k: usize = 0;
    while k < nz
        invariant
            d_data.wf(),
            p_data.wf(),
            nx == d_data.collision_boxes.x,
            ny == d_data.collision_boxes.y,
            nz == d_data.collision_boxes.z,
            i < nx,
            j < ny,
            k <= nz,
            rebuilt_row(*d_data, p_data@, row@, i as int, j as int, k as int),
        decreases nz - k,
    {
        assert(d_data.in_grid(i as int, j as int, k as int));
        assert(d_data.cell_placed(i as int, j as int, k as int));
        let boundary: bool = i == 0 || i == nx - 1 || j == 0 || j == ny - 1 || k == 0 || k == nz - 1;
        let cell: &Box = &d_data.g_data[i][j][k];
        let (reals, ghosts) = members(cell, boundary, d_data, p_data);
        let ghost prev = row@;
        let fresh: Box = Box { position: cell.position, reals, ghosts, lo: cell.lo, hi: cell.hi };
        proof {
            assert(*cell == d_data.cell(i as int, j as int, k as int));
            assert(boundary == d_data.on_boundary(i as int, j as int, k as int));
            assert forall|idx: int| #[trigger]
                is_ghost_in(*cell, boundary, d_data.domain, p_data@, idx) implies is_ghost_in(
                fresh,
                boundary,
                d_data.domain,
                p_data@,
                idx,
            ) by {
                lemma_same_bounds(*cell, fresh, boundary, d_data.domain, p_data@, idx);
            }
            assert forall|idx: int| #[trigger]
                is_ghost_in(fresh, boundary, d_data.domain, p_data@, idx) implies is_ghost_in(
                *cell,
                boundary,
                d_data.domain,
                p_data@,
                idx,
            ) by {
                lemma_same_bounds(*cell, fresh, boundary, d_data.domain, p_data@, idx);
            }
            assert(reals_upto(fresh, p_data@, fresh.reals@, p_data.count()));
            assert(ghosts_upto(fresh, boundary, d_data.domain, p_data@, fresh.ghosts@, p_data.count()));
            assert(rebuilt_cell(*d_data, p_data@, fresh, i as int, j as int, k as int));
        }
        row.push(fresh);
        proof {
            assert forall|c: int| 0 <= c < k + 1 implies rebuilt_cell(
                *d_data,
                p_data@,
                #[trigger] row@[c],
                i as int,
                j as int,
                c,
            ) by {
                if c < k {
                    assert(row@[c] == prev[c]);
                }
            }
        }
        k += 1;
    }
    row
}

fn rebuild_plane(d_data: &DomainData, p_data: &ParticleData, i: usize) -> (plane: Vec<Vec<Box>>)
    requires
        d_data.wf(),
        p_data.wf(),
        i < d_data.collision_boxes.x,
    ensures
        rebuilt_plane(*d_data, p_data@, plane@, i as int, d_data.collision_boxes.y as int),
{
    let ny: usize = d_data.collision_boxes.y;
    let mut plane: Vec<Vec<Box>> = Vec::new();
    let mut j: usize = 0;
    while j < ny
        invariant
            d_data.wf(),
            p_data.wf(),
            ny == d_data.collision_boxes.y,
            i < d_data.collision_boxes.x,
            j <= ny,
            rebuilt_plane(*d_data, p_data@, plane@, i as int, j as int),
        decreases ny - j,
    {
        let row: Vec<Box> = rebuild_row(d_data, p_data, i, j);
        plane.push(row);
        j += 1;
    }
    plane
}

/// Rebuilds the entity lists of every cell from the current positions. The
/// box, the grid layout and the entities themselves are left as they were.
pub fn update(d_data: &mut DomainData, p_data: &mut ParticleData)
    requires
        old(d_data).wf(),
        old(p_data).wf(),
    ensures
        final(d_data).wf(),
        final(d_data).same_frame(*old(d_data)),
        *final(p_data) == *old(p_data),
        grid_filled(*final(d_data), final(p_data)@),
{
    let nx: usize = d_data.collision_boxes.x;
    let mut grid: Vec<Vec<Vec<Box>>> = Vec::new();
    let mut i: usize = 0;
    while i < nx
        invariant
            d_data.wf(),
            p_data.wf(),
            *d_data == *old(d_data),
            *p_data == *old(p_data),
            nx == d_data.collision_boxes.x,
            i <= nx,
            grid@.len() == i,
            forall|a: int|
                0 <= a < i ==> rebuilt_plane(
                    *d_data,
                    p_data@,
                    (#[trigger] grid@[a])@,
                    a,
                    d_data.collision_boxes.y as int,
                ),
        decreases nx - i,
    {
        let plane: Vec<Vec<Box>> = rebuild_plane(d_data, p_data, i);
        grid.push(plane);
        i += 1;
    }
    d_data.g_data = grid;
    proof {
        let d0 = *old(d_data);
        let d1 = *d_data;
        assert forall|a: int, b: int, c: int| d1.in_grid(a, b, c) implies rebuilt_cell(
            d0,
            p_data@,
            #[trigger] d1.cell(a, b, c),
            a,
            b,
            c,
        ) by {
            assert(rebuilt_plane(d0, p_data@, d1.g_data@[a]@, a, d0.collision_boxes.y as int));
            assert(rebuilt_row(d0, p_data@, d1.g_data@[a]@[b]@, a, b, d0.collision_boxes.z as int));
        }
        assert forall|a: int, b: int, c: int| d1.in_grid(a, b, c) implies #[trigger] d1.cell_placed(
            a,
            b,
            c,
        ) by {
            assert(rebuilt_cell(d0, p_data@, d1.cell(a, b, c), a, b, c));
            assert(d0.in_grid(a, b, c));
            assert(d0.cell_placed(a, b, c));
        }
        assert(d1.shaped()) by {
            assert forall|a: int| 0 <= a < d1.collision_boxes.x implies (#[trigger] d1.g_data@[a])@.len()
                == d1.collision_boxes.y by {
                assert(rebuilt_plane(d0, p_data@, d1.g_data@[a]@, a, d0.collision_boxes.y as int));
            }
            assert forall|a: int, b: int|
                0 <= a < d1.collision_boxes.x && 0 <= b < d1.collision_boxes.y implies (
            #[trigger] d1.g_data@[a]@[b])@.len() == d1.collision_boxes.z by {
                assert(rebuilt_plane(d0, p_data@, d1.g_data@[a]@, a, d0.collision_boxes.y as int));
                assert(rebuilt_row(d0, p_data@, d1.g_data@[a]@[b]@, a, b, d0.collision_boxes.z as int));
            }
        }
        assert forall|a: int, b: int, c: int| d1.in_grid(a, b, c) implies cell_filled(
            #[trigger] d1.cell(a, b, c),
            d1.on_boundary(a, b, c),
            d1.domain,
            p_data@,
        ) by {
            assert(rebuilt_cell(d0, p_data@, d1.cell(a, b, c), a, b, c));
        }
    }
}

/// Two entities to be tested for contact. Where `with_ghost` is set the second
/// one was found among the ghosts of the first one's cell.
#[derive(Clone, Copy, Debug, PartialEq, Eq, Structural)]
pub struct Pair {
    pub first: usize,
    pub second: usize,
    pub with_ghost: bool,
}

/// The pairs of the entity at place `a` of `list` with those at the places
/// after it and before `end`.
pub open spec fn real_row(list: Seq<usize>, a: int, end: int) -> Seq<Pair>
    decreases end - a,
{
    if end <= a + 1 {
        Seq::empty()
    } else {
        real_row(list, a, end - 1).push(Pair { first: list[a], second: list[end - 1], with_ghost: false })
    }
}

/// The pairs of two entities of `list`, the earlier one first, for the first
/// `upto` entities and each with all that follow it.
pub open spec fn real_pairs(list: Seq<usize>, upto: int) -> Seq<Pair>
    decreases upto,
{
    if upto <= 0 {
        Seq::empty()
    } else {
        real_pairs(list, upto - 1) + real_row(list, upto - 1, list.len() as int)
    }
}

/// The pairs of the entity at place `a` of `reals` with the first `end` ghosts.
pub open spec fn ghost_row(reals: Seq<usize>, ghosts: Seq<usize>, a: int, end: int) -> Seq<Pair>
    decreases end,
{
    if end <= 0 {
        Seq::empty()
    } else {
        ghost_row(reals, ghosts, a, end - 1).push(
            Pair { first: reals[a], second: ghosts[end - 1], with_ghost: true },
        )
    }
}

/// The pairs of each of the first `upto` real entities with every ghost.
pub open spec fn ghost_pairs(reals: Seq<usize>, ghosts: Seq<usize>, upto: int) -> Seq<Pair>
    decreases upto,
{
    if upto <= 0 {
        Seq::empty()
    } else {
        ghost_pairs(reals, ghosts, upto - 1) + ghost_row(reals, ghosts, upto - 1, ghosts.len() as int)
    }
}

/// The pairs that one cell gives: real with real, each unordered pair once,
/// then real with ghost. Two ghosts are never paired.
pub open spec fn cell_pairs(cell: Box) -> Seq<Pair> {
    real_pairs(cell.reals@, cell.reals@.len() as int) + ghost_pairs(
        cell.reals@,
        cell.ghosts@,
        cell.reals@.len() as int,
    )
}

/// The pairs of the first `upto` cells of row `(i, j)`.
pub open spec fn row_pairs(d: DomainData, i: int, j: int, upto: int) -> Seq<Pair>
    decreases upto,
{
    if upto <= 0 {
        Seq::empty()
    } else {
        row_pairs(d, i, j, upto - 1) + cell_pairs(d.cell(i, j, upto - 1))
    }
}

/// The pairs of the first `upto` rows of plane `i`.
pub open spec fn plane_pairs(d: DomainData, i: int, upto: int) -> Seq<Pair>
    decreases upto,
{
    if upto <= 0 {
        Seq::empty()
    } else {
        plane_pairs(d, i, upto - 1) + row_pairs(d, i, upto - 1, d.collision_boxes.z as int)
    }
}

/// The pairs of the first `upto` planes of the grid.
pub open spec fn grid_pairs(d: DomainData, upto: int) -> Seq<Pair>
    decreases upto,
{
    if upto <= 0 {
        Seq::empty()
    } else {
        grid_pairs(d, upto - 1) + plane_pairs(d, upto - 1, d.collision_boxes.y as int)
    }
}

/// Every pair that is tested for contact, cell by cell.
pub open spec fn candidate_pairs_spec(d: DomainData) -> Seq<Pair> {
    grid_pairs(d, d.collision_boxes.x as int)
}

/// `q` pairs two entities of the cell `c`: two real ones, the one listed
/// earlier first, or a real one with a ghost.
pub open spec fn pair_from_cell(c: Box, q: Pair) -> bool {
    if q.with_ghost {
        exists|a: int, b: int|
            0 <= a < c.reals@.len() && 0 <= b < c.ghosts@.len() && q.first == #[trigger] c.reals@[a]
                && q.second == #[trigger] c.ghosts@[b]
    } else {
        exists|a: int, b: int|
            0 <= a < b < c.reals@.len() && q.first == #[trigger] c.reals@[a] && q.second
                == #[trigger] c.reals@[b]
    }
}

/// `q` pairs two entities of some cell of the grid.
pub open spec fn pair_from_grid(d: DomainData, q: Pair) -> bool {
    exists|i: int, j: int, k: int| d.in_grid(i, j, k) && pair_from_cell(#[trigger] d.cell(i, j, k), q)
}

proof fn lemma_real_row(list: Seq<usize>, a: int, end: int, q: Pair)
    requires
        0 <= a,
        end <= list.len(),
    ensures
        real_row(list, a, end).contains(q) <==> (!q.with_ghost && q.first == list[a] && exists|b: int|
            a < b < end && q.second == #[trigger] list[b]),
    decreases end - a,
{
    if end <= a + 1 {
        assert(real_row(list, a, end) =~= Seq::<Pair>::empty());
    } else {
        lemma_real_row(list, a, end - 1, q);
        let prev = real_row(list, a, end - 1);
        let last = Pair { first: list[a], second: list[end - 1], with_ghost: false };
        let cur = real_row(list, a, end);
        assert(cur == prev.push(last));
        if cur.contains(q) {
            let t = choose|t: int| 0 <= t < cur.len() && cur[t] == q;
            if t < prev.len() {
                assert(prev[t] == q);
                assert(prev.contains(q));
            } else {
                assert(q == last);
                assert(q.second == list[end - 1]);
            }
        }
        if !q.with_ghost && q.first == list[a] && exists|b: int|
            a < b < end && q.second == #[trigger] list[b] {
            let b = choose|b: int| a < b < end && q.second == #[trigger] list[b];
            if b < end - 1 {
                assert(prev.contains(q));
                let t = choose|t: int| 0 <= t < prev.len() && prev[t] == q;
                assert(cur[t] == q);
            } else {
                assert(cur[prev.len() as int] == q);
            }
        }
    }
}

proof fn lemma_real_pairs(list: Seq<usize>, upto: int, q: Pair)
    requires
        0 <= upto <= list.len(),
    ensures
        real_pairs(list, upto).contains(q) <==> (!q.with_ghost && exists|a: int, b: int|
            0 <= a < upto && a < b < list.len() && q.first == #[trigger] list[a] && q.second
                == #[trigger] list[b]),
    decreases upto,
{
    if upto <= 0 {
        assert(real_pairs(list, upto) =~= Seq::<Pair>::empty());
    } else {
        lemma_real_pairs(list, upto - 1, q);
        lemma_real_row(list, upto - 1, list.len() as int, q);
        let prev = real_pairs(list, upto - 1);
        let row = real_row(list, upto - 1, list.len() as int);
        lemma_contains_concat(prev, row, q);
        if row.contains(q) {
            let b = choose|b: int| upto - 1 < b < list.len() && q.second == #[trigger] list[b];
            assert(q.first == list[upto - 1] && q.second == list[b]);
        }
        if !q.with_ghost && exists|a: int, b: int|
            0 <= a < upto && a < b < list.len() && q.first == #[trigger] list[a] && q.second
                == #[trigger] list[b] {
            let (a, b) = choose|a: int, b: int|
                0 <= a < upto && a < b < list.len() && q.first == #[trigger] list[a] && q.second
                    == #[trigger] list[b];
            if a < upto - 1 {
                assert(prev.contains(q));
            } else {
                assert(q.second == list[b]);
                assert(row.contains(q));
            }
        }
    }
}

/// An element of a concatenation is an element of one of its parts.
proof fn lemma_contains_concat(s: Seq<Pair>, t: Seq<Pair>, q: Pair)
    ensures
        (s + t).contains(q) <==> (s.contains(q) || t.contains(q)),
{
    let st = s + t;
    if st.contains(q) {
        let n = choose|n: int| 0 <= n < st.len() && st[n] == q;
        if n < s.len() {
            assert(s[n] == q);
        } else {
            assert(t[n - s.len()] == q);
        }
    }
    if s.contains(q) {
        let n = choose|n: int| 0 <= n < s.len() && s[n] == q;
        assert(st[n] == q);
    }
    if t.contains(q) {
        let n = choose|n: int| 0 <= n < t.len() && t[n] == q;
        assert(st[n + s.len()] == q);
    }
}

proof fn lemma_ghost_row(reals: Seq<usize>, ghosts: Seq<usize>, a: int, end: int, q: Pair)
    requires
        0 <= end <= ghosts.len(),
    ensures
        ghost_row(reals, ghosts, a, end).contains(q) <==> (q.with_ghost && q.first == reals[a]
            && exists|b: int| 0 <= b < end && q.second == #[trigger] ghosts[b]),
    decreases end,
{
    if end <= 0 {
        assert(ghost_row(reals, ghosts, a, end) =~= Seq::<Pair>::empty());
    } else {
        lemma_ghost_row(reals, ghosts, a, end - 1, q);
        let prev = ghost_row(reals, ghosts, a, end - 1);
        let last = Pair { first: reals[a], second: ghosts[end - 1], with_ghost: true };
        let cur = ghost_row(reals, ghosts, a, end);
        assert(cur == prev.push(last));
        if cur.contains(q) {
            let t = choose|t: int| 0 <= t < cur.len() && cur[t] == q;
            if t < prev.len() {
                assert(prev[t] == q);
                assert(prev.contains(q));
            } else {
                assert(q == last);
                assert(q.second == ghosts[end - 1]);
            }
        }
        if q.with_ghost && q.first == reals[a] && exists|b: int|
            0 <= b < end && q.second == #[trigger] ghosts[b] {
            let b = choose|b: int| 0 <= b < end && q.second == #[trigger] ghosts[b];
            if b < end - 1 {
                assert(prev.contains(q));
                let t = choose|t: int| 0 <= t < prev.len() && prev[t] == q;
                assert(cur[t] == q);
            } else {
                assert(cur[prev.len() as int] == q);
            }
        }
    }
}

proof fn lemma_ghost_pairs(reals: Seq<usize>, ghosts: Seq<usize>, upto: int, q: Pair)
    requires
        0 <= upto <= reals.len(),
    ensures
        ghost_pairs(reals, ghosts, upto).contains(q) <==> (q.with_ghost && exists|a: int, b: int|
            0 <= a < upto && 0 <= b < ghosts.len() && q.first == #[trigger] reals[a] && q.second
                == #[trigger] ghosts[b]),
    decreases upto,
{
    if upto <= 0 {
        assert(ghost_pairs(reals, ghosts, upto) =~= Seq::<Pair>::empty());
    } else {
        lemma_ghost_pairs(reals, ghosts, upto - 1, q);
        lemma_ghost_row(reals, ghosts, upto - 1, ghosts.len() as int, q);
        let prev = ghost_pairs(reals, ghosts, upto - 1);
        let row = ghost_row(reals, ghosts, upto - 1, ghosts.len() as int);
        lemma_contains_concat(prev, row, q);
        if row.contains(q) {
            let b = choose|b: int| 0 <= b < ghosts.len() && q.second == #[trigger] ghosts[b];
            assert(q.first == reals[upto - 1] && q.second == ghosts[b]);
        }
        if q.with_ghost && exists|a: int, b: int|
            0 <= a < upto && 0 <= b < ghosts.len() && q.first == #[trigger] reals[a] && q.second
                == #[trigger] ghosts[b] {
            let (a, b) = choose|a: int, b: int|
                0 <= a < upto && 0 <= b < ghosts.len() && q.first == #[trigger] reals[a] && q.second
                    == #[trigger] ghosts[b];
            if a < upto - 1 {
                assert(prev.contains(q));
            } else {
                assert(q.second == ghosts[b]);
                assert(row.contains(q));
            }
        }
    }
}

/// The pairs of a cell are the pairs of two of its real entities, the earlier
/// one first, and the pairs of a real entity with a ghost.
pub proof fn lemma_cell_pairs(c: Box, q: Pair)
    ensures
        cell_pairs(c).contains(q) <==> pair_from_cell(c, q),
{
    let n = c.reals@.len() as int;
    lemma_real_pairs(c.reals@, n, q);
    lemma_ghost_pairs(c.reals@, c.ghosts@, n, q);
    lemma_contains_concat(real_pairs(c.reals@, n), ghost_pairs(c.reals@, c.ghosts@, n), q);
}

proof fn lemma_row_pairs(d: DomainData, i: int, j: int, upto: int, q: Pair)
    requires
        0 <= upto,
    ensures
        row_pairs(d, i, j, upto).contains(q) <==> exists|k: int|
            0 <= k < upto && pair_from_cell(#[trigger] d.cell(i, j, k), q),
    decreases upto,
{
    if upto <= 0 {
        assert(row_pairs(d, i, j, upto) =~= Seq::<Pair>::empty());
    } else {
        lemma_row_pairs(d, i, j, upto - 1, q);
        lemma_cell_pairs(d.cell(i, j, upto - 1), q);
        lemma_contains_concat(row_pairs(d, i, j, upto - 1), cell_pairs(d.cell(i, j, upto - 1)), q);
        if exists|k: int| 0 <= k < upto && pair_from_cell(#[trigger] d.cell(i, j, k), q) {
            let k = choose|k: int| 0 <= k < upto && pair_from_cell(#[trigger] d.cell(i, j, k), q);
            if k < upto - 1 {
                assert(row_pairs(d, i, j, upto - 1).contains(q));
            }
        }
    }
}

proof fn lemma_plane_pairs(d: DomainData, i: int, upto: int, q: Pair)
    requires
        0 <= upto,
    ensures
        plane_pairs(d, i, upto).contains(q) <==> exists|j: int, k: int|
            0 <= j < upto && 0 <= k < d.collision_boxes.z && pair_from_cell(
                #[trigger] d.cell(i, j, k),
                q,
            ),
    decreases upto,
{
    let nz = d.collision_boxes.z as int;
    if upto <= 0 {
        assert(plane_pairs(d, i, upto) =~= Seq::<Pair>::empty());
    } else {
        lemma_plane_pairs(d, i, upto - 1, q);
        lemma_row_pairs(d, i, upto - 1, nz, q);
        lemma_contains_concat(plane_pairs(d, i, upto - 1), row_pairs(d, i, upto - 1, nz), q);
        if row_pairs(d, i, upto - 1, nz).contains(q) {
            let k = choose|k: int| 0 <= k < nz && pair_from_cell(#[trigger] d.cell(i, upto - 1, k), q);
            assert(pair_from_cell(d.cell(i, upto - 1, k), q));
        }
        if exists|j: int, k: int|
            0 <= j < upto && 0 <= k < nz && pair_from_cell(#[trigger] d.cell(i, j, k), q) {
            let (j, k) = choose|j: int, k: int|
                0 <= j < upto && 0 <= k < nz && pair_from_cell(#[trigger] d.cell(i, j, k), q);
            if j < upto - 1 {
                assert(plane_pairs(d, i, upto - 1).contains(q));
            } else {
                assert(pair_from_cell(d.cell(i, upto - 1, k), q));
                assert(row_pairs(d, i, upto - 1, nz).contains(q));
            }
        }
    }
}

proof fn lemma_grid_pairs(d: DomainData, upto: int, q: Pair)
    requires
        0 <= upto,
    ensures
        grid_pairs(d, upto).contains(q) <==> exists|i: int, j: int, k: int|
            0 <= i < upto && 0 <= j < d.collision_boxes.y && 0 <= k < d.collision_boxes.z
                && pair_from_cell(#[trigger] d.cell(i, j, k), q),
    decreases upto,
{
    let ny = d.collision_boxes.y as int;
    let nz = d.collision_boxes.z as int;
    if upto <= 0 {
        assert(grid_pairs(d, upto) =~= Seq::<Pair>::empty());
    } else {
        lemma_grid_pairs(d, upto - 1, q);
        lemma_plane_pairs(d, upto - 1, ny, q);
        lemma_contains_concat(grid_pairs(d, upto - 1), plane_pairs(d, upto - 1, ny), q);
        if plane_pairs(d, upto - 1, ny).contains(q) {
            let (j, k) = choose|j: int, k: int|
                0 <= j < ny && 0 <= k < nz && pair_from_cell(#[trigger] d.cell(upto - 1, j, k), q);
            assert(pair_from_cell(d.cell(upto - 1, j, k), q));
        }
        if exists|i: int, j: int, k: int|
            0 <= i < upto && 0 <= j < ny && 0 <= k < nz && pair_from_cell(
                #[trigger] d.cell(i, j, k),
                q,
            ) {
            let (i, j, k) = choose|i: int, j: int, k: int|
                0 <= i < upto && 0 <= j < ny && 0 <= k < nz && pair_from_cell(
                    #[trigger] d.cell(i, j, k),
                    q,
                );
            if i < upto - 1 {
                assert(grid_pairs(d, upto - 1).contains(q));
            } else {
                assert(pair_from_cell(d.cell(upto - 1, j, k), q));
                assert(plane_pairs(d, upto - 1, ny).contains(q));
            }
        }
    }
}

/// The pairs that are tested for contact are exactly the pairs that some cell
/// of the grid gives.
pub proof fn lemma_candidate_pairs(d: DomainData, q: Pair)
    ensures
        candidate_pairs_spec(d).contains(q) <==> pair_from_grid(d, q),
{
    lemma_grid_pairs(d, d.collision_boxes.x as int, q);
    if pair_from_grid(d, q) {
        let (i, j, k) = choose|i: int, j: int, k: int|
            d.in_grid(i, j, k) && pair_from_cell(#[trigger] d.cell(i, j, k), q);
        assert(pair_from_cell(d.cell(i, j, k), q));
    }
    if candidate_pairs_spec(d).contains(q) {
        let (i, j, k) = choose|i: int, j: int, k: int|
            0 <= i < d.collision_boxes.x && 0 <= j < d.collision_boxes.y && 0 <= k
                < d.collision_boxes.z && pair_from_cell(#[trigger] d.cell(i, j, k), q);
        assert(d.in_grid(i, j, k));
    }
}

/// Every entry of every list of the grid is below `n`.
pub open spec fn grid_indexed(d: DomainData, n: int) -> bool {
    forall|i: int, j: int, k: int|
        d.in_grid(i, j, k) ==> cell_indexed(#[trigger] d.cell(i, j, k), n)
}

/// Every entry of the two lists of `c` is below `n`.
pub open spec fn cell_indexed(c: Box, n: int) -> bool {
    &&& forall|a: int| 0 <= a < c.reals@.len() ==> #[trigger] c.reals@[a] < n
    &&& forall|b: int| 0 <= b < c.ghosts@.len() ==> #[trigger] c.ghosts@[b] < n
}

/// Every pair holds two entities below `n`.
pub open spec fn pairs_indexed(pairs: Seq<Pair>, n: int) -> bool {
    forall|t: int| 0 <= t < pairs.len() ==> (#[trigger] pairs[t]).first < n && pairs[t].second < n
}

/// A grid that was filled from `p` lists entities of `p` only.
pub proof fn lemma_filled_is_indexed(d: DomainData, p: ParticleView)
    requires
        grid_filled(d, p),
    ensures
        grid_indexed(d, p.count()),
{
    assert forall|i: int, j: int, k: int| d.in_grid(i, j, k) implies cell_indexed(
        #[trigger] d.cell(i, j, k),
        p.count(),
    ) by {
        let c = d.cell(i, j, k);
        assert(cell_filled(c, d.on_boundary(i, j, k), d.domain, p));
    }
}

/// Where the grid lists entities below `n` only, so do the pairs.
pub proof fn lemma_pairs_indexed(d: DomainData, n: int)
    requires
        grid_indexed(d, n),
    ensures
        pairs_indexed(candidate_pairs_spec(d), n),
{
    let pairs = candidate_pairs_spec(d);
    assert forall|t: int| 0 <= t < pairs.len() implies (#[trigger] pairs[t]).first < n
        && pairs[t].second < n by {
        let q = pairs[t];
        assert(pairs.contains(q));
        lemma_candidate_pairs(d, q);
        let (i, j, k) = choose|i: int, j: int, k: int|
            d.in_grid(i, j, k) && pair_from_cell(#[trigger] d.cell(i, j, k), q);
        let c = d.cell(i, j, k);
        assert(cell_indexed(c, n));
        if q.with_ghost {
            let (a, b) = choose|a: int, b: int|
                0 <= a < c.reals@.len() && 0 <= b < c.ghosts@.len() && q.first
                    == #[trigger] c.reals@[a] && q.second == #[trigger] c.ghosts@[b];
        } else {
            let (a, b) = choose|a: int, b: int|
                0 <= a < b < c.reals@.len() && q.first == #[trigger] c.reals@[a] && q.second
                    == #[trigger] c.reals@[b];
        }
    }
}

/// The candidate pairs of the grid of the box `f` once it has been filled from
/// the positions in `p`. There is one such list: see `lemma_neighbour_pairs`.
pub open spec fn neighbour_pairs(f: Frame, p: ParticleView) -> Seq<Pair> {
    candidate_pairs_spec(choose|d: DomainData| d.wf() && d.frame_spec() == f && grid_filled(d, p))
}

/// Two increasing lists agree as far as `k` where they have the same elements.
proof fn lemma_sorted_prefix(l1: Seq<usize>, l2: Seq<usize>, k: int)
    requires
        increasing(l1),
        increasing(l2),
        forall|x: usize| l1.contains(x) <==> l2.contains(x),
        0 <= k <= l1.len(),
    ensures
        k <= l2.len(),
        forall|t: int| 0 <= t < k ==> l1[t] == l2[t],
    decreases k,
{
    if k > 0 {
        lemma_sorted_prefix(l1, l2, k - 1);
        let x = l1[k - 1];
        assert(l1.contains(x));
        assert(l2.contains(x));
        let m = choose|m: int| 0 <= m < l2.len() && l2[m] == x;
        if m < k - 1 {
            assert(l1[m] == l2[m]);
            assert(l1[m] < l1[k - 1]);
        }
        assert(k - 1 < l2.len());
        let y = l2[k - 1];
        assert(l2.contains(y));
        assert(l1.contains(y));
        let n = choose|n: int| 0 <= n < l1.len() && l1[n] == y;
        if n < k - 1 {
            assert(l1[n] == l2[n]);
            assert(l2[n] < l2[k - 1]);
        }
        if m > k - 1 {
            assert(l2[k - 1] < l2[m]);
        }
        if n > k - 1 {
            assert(l1[k - 1] < l1[n]);
        }
    }
}

/// An increasing list is determined by its elements.
proof fn lemma_sorted_unique(l1: Seq<usize>, l2: Seq<usize>)
    requires
        increasing(l1),
        increasing(l2),
        forall|x: usize| l1.contains(x) <==> l2.contains(x),
    ensures
        l1 == l2,
{
    lemma_sorted_prefix(l1, l2, l1.len() as int);
    lemma_sorted_prefix(l2, l1, l2.len() as int);
    assert(l1 =~= l2);
}

/// Two cells with the same bounds that were filled from the same positions
/// hold the same lists.
proof fn lemma_filled_unique(c1: Box, c2: Box, boundary: bool, domain: Vec3, p: ParticleView)
    requires
        c1.lo == c2.lo,
        c1.hi == c2.hi,
        cell_filled(c1, boundary, domain, p),
        cell_filled(c2, boundary, domain, p),
    ensures
        c1.reals@ == c2.reals@,
        c1.ghosts@ == c2.ghosts@,
{
    assert forall|x: usize| c1.reals@.contains(x) <==> c2.reals@.contains(x) by {
        lemma_same_bounds(c1, c2, boundary, domain, p, x as int);
        if c1.reals@.contains(x) {
            let a = choose|a: int| 0 <= a < c1.reals@.len() && c1.reals@[a] == x;
            assert(is_real_in(c1, p, c1.reals@[a] as int));
            assert(c2.reals@.contains((x as int) as usize));
        }
        if c2.reals@.contains(x) {
            let a = choose|a: int| 0 <= a < c2.reals@.len() && c2.reals@[a] == x;
            assert(is_real_in(c2, p, c2.reals@[a] as int));
            assert(c1.reals@.contains((x as int) as usize));
        }
    }
    assert forall|x: usize| c1.ghosts@.contains(x) <==> c2.ghosts@.contains(x) by {
        lemma_same_bounds(c1, c2, boundary, domain, p, x as int);
        if c1.ghosts@.contains(x) {
            let a = choose|a: int| 0 <= a < c1.ghosts@.len() && c1.ghosts@[a] == x;
            assert(is_ghost_in(c1, boundary, domain, p, c1.ghosts@[a] as int));
            assert(c2.ghosts@.contains((x as int) as usize));
        }
        if c2.ghosts@.contains(x) {
            let a = choose|a: int| 0 <= a < c2.ghosts@.len() && c2.ghosts@[a] == x;
            assert(is_ghost_in(c2, boundary, domain, p, c2.ghosts@[a] as int));
            assert(c1.ghosts@.contains((x as int) as usize));
        }
    }
    lemma_sorted_unique(c1.reals@, c2.reals@);
    lemma_sorted_unique(c1.ghosts@, c2.ghosts@);
}

/// Grids whose cells hold the same lists give the same pairs, row by row.
proof fn lemma_same_row_pairs(d1: DomainData, d2: DomainData, i: int, j: int, upto: int)
    requires
        forall|k: int|
            0 <= k < upto ==> (#[trigger] d1.cell(i, j, k)).reals@ == d2.cell(i, j, k).reals@ && d1.cell(
                i,
                j,
                k,
            ).ghosts@ == d2.cell(i, j, k).ghosts@,
    ensures
        row_pairs(d1, i, j, upto) == row_pairs(d2, i, j, upto),
    decreases upto,
{
    if upto > 0 {
        lemma_same_row_pairs(d1, d2, i, j, upto - 1);
        assert(d1.cell(i, j, upto - 1).reals@ == d2.cell(i, j, upto - 1).reals@);
    }
}

proof fn lemma_same_plane_pairs(d1: DomainData, d2: DomainData, i: int, upto: int)
    requires
        d1.collision_boxes.z == d2.collision_boxes.z,
        forall|j: int, k: int|
            0 <= j < upto && 0 <= k < d1.collision_boxes.z ==> (#[trigger] d1.cell(i, j, k)).reals@
                == d2.cell(i, j, k).reals@ && d1.cell(i, j, k).ghosts@ == d2.cell(i, j, k).ghosts@,
    ensures
        plane_pairs(d1, i, upto) == plane_pairs(d2, i, upto),
    decreases upto,
{
    if upto > 0 {
        lemma_same_plane_pairs(d1, d2, i, upto - 1);
        lemma_same_row_pairs(d1, d2, i, upto - 1, d1.collision_boxes.z as int);
    }
}

proof fn lemma_same_grid_pairs(d1: DomainData, d2: DomainData, upto: int)
    requires
        d1.collision_boxes.y == d2.collision_boxes.y,
        d1.collision_boxes.z == d2.collision_boxes.z,
        forall|i: int, j: int, k: int|
            0 <= i < upto && 0 <= j < d1.collision_boxes.y && 0 <= k < d1.collision_boxes.z ==> (
            #[trigger] d1.cell(i, j, k)).reals@ == d2.cell(i, j, k).reals@ && d1.cell(i, j, k).ghosts@
                == d2.cell(i, j, k).ghosts@,
    ensures
        grid_pairs(d1, upto) == grid_pairs(d2, upto),
    decreases upto,
{
    if upto > 0 {
        lemma_same_grid_pairs(d1, d2, upto - 1);
        lemma_same_plane_pairs(d1, d2, upto - 1, d1.collision_boxes.y as int);
    }
}

/// Two grids of the same box that were filled from the same positions give the
/// same candidate pairs.
pub proof fn lemma_filled_pairs_unique(d1: DomainData, d2: DomainData, p: ParticleView)
    requires
        d1.wf(),
        d2.wf(),
        d1.same_frame(d2),
        grid_filled(d1, p),
        grid_filled(d2, p),
    ensures
        candidate_pairs_spec(d1) == candidate_pairs_spec(d2),
{
    assert forall|i: int, j: int, k: int|
        0 <= i < d1.collision_boxes.x && 0 <= j < d1.collision_boxes.y && 0 <= k
            < d1.collision_boxes.z implies (#[trigger] d1.cell(i, j, k)).reals@ == d2.cell(i, j, k).reals@
        && d1.cell(i, j, k).ghosts@ == d2.cell(i, j, k).ghosts@ by {
        assert(d1.in_grid(i, j, k));
        assert(d2.in_grid(i, j, k));
        assert(d1.cell_placed(i, j, k));
        assert(d2.cell_placed(i, j, k));
        assert(cell_filled(d1.cell(i, j, k), d1.on_boundary(i, j, k), d1.domain, p));
        assert(cell_filled(d2.cell(i, j, k), d2.on_boundary(i, j, k), d2.domain, p));
        lemma_filled_unique(d1.cell(i, j, k), d2.cell(i, j, k), d1.on_boundary(i, j, k), d1.domain, p);
    }
    lemma_same_grid_pairs(d1, d2, d1.collision_boxes.x as int);
}

/// The candidate pairs of a filled grid are the neighbour pairs of its box and
/// the positions it was filled from.
pub proof fn lemma_neighbour_pairs(d: DomainData, p: ParticleView)
    requires
        d.wf(),
        grid_filled(d, p),
    ensures
        candidate_pairs_spec(d) == neighbour_pairs(d.frame_spec(), p),
{
    let f = d.frame_spec();
    let d2 = choose|d2: DomainData| d2.wf() && d2.frame_spec() == f && grid_filled(d2, p);
    lemma_filled_pairs_unique(d, d2, p);
}

fn push_cell_pairs(pairs: &mut Vec<Pair>, cell: &Box)
    ensures
        final(pairs)@ == old(pairs)@ + cell_pairs(*cell),
{
    let n: usize = cell.reals.len();
    let m: usize = cell.ghosts.len();
    let mut a: usize = 0;
    while a < n
        invariant
            n == cell.reals@.len(),
            a <= n,
            pairs@ == old(pairs)@ + real_pairs(cell.reals@, a as int),
        decreases n - a,
    {
        let mut b: usize = a + 1;
        while b < n
            invariant
                n == cell.reals@.len(),
                a < n,
                a + 1 <= b <= n,
                pairs@ == old(pairs)@ + real_pairs(cell.reals@, a as int) + real_row(
                    cell.reals@,
                    a as int,
                    b as int,
                ),
            decreases n - b,
        {
            pairs.push(Pair { first: cell.reals[a], second: cell.reals[b], with_ghost: false });
            b += 1;
        }
        assert(pairs@ =~= old(pairs)@ + real_pairs(cell.reals@, a as int + 1));
        a += 1;
    }
    let ghost mid = pairs@;
    let mut a: usize = 0;
    while a < n
        invariant
            n == cell.reals@.len(),
            m == cell.ghosts@.len(),
            a <= n,
            pairs@ == mid + ghost_pairs(cell.reals@, cell.ghosts@, a as int),
        decreases n - a,
    {
        let mut b: usize = 0;
        while b < m
            invariant
                n == cell.reals@.len(),
                m == cell.ghosts@.len(),
                a < n,
                b <= m,
                pairs@ == mid + ghost_pairs(cell.reals@, cell.ghosts@, a as int) + ghost_row(
                    cell.reals@,
                    cell.ghosts@,
                    a as int,
                    b as int,
                ),
            decreases m - b,
        {
            pairs.push(Pair { first: cell.reals[a], second: cell.ghosts[b], with_ghost: true });
            b += 1;
        }
        assert(pairs@ =~= mid + ghost_pairs(cell.reals@, cell.ghosts@, a as int + 1));
        a += 1;
    }
    assert(pairs@ =~= old(pairs)@ + cell_pairs(*cell));
}

/// Lists every pair of entities that is to be tested for contact: within each
/// cell, real with real and real with ghost.
pub fn candidate_pairs(d_data: &DomainData) -> (pairs: Vec<Pair>)
    requires
        d_data.wf(),
    ensures
        pairs@ == candidate_pairs_spec(*d_data),
{
    let nx: usize = d_data.collision_boxes.x;
    let ny: usize = d_data.collision_boxes.y;
    let nz: usize = d_data.collision_boxes.z;
    let mut pairs: Vec<Pair> = Vec::new();
    let mut i: usize = 0;
    while i < nx
        invariant
            d_data.wf(),
            nx == d_data.collision_boxes.x,
            ny == d_data.collision_boxes.y,
            nz == d_data.collision_boxes.z,
            i <= nx,
            pairs@ == grid_pairs(*d_data, i as int),
        decreases nx - i,
    {
        let mut j: usize = 0;
        while j < ny
            invariant
                d_data.wf(),
                nx == d_data.collision_boxes.x,
                ny == d_data.collision_boxes.y,
                nz == d_data.collision_boxes.z,
                i < nx,
                j <= ny,
                pairs@ == grid_pairs(*d_data, i as int) + plane_pairs(*d_data, i as int, j as int),
            decreases ny - j,
        {
            let mut k: usize = 0;
            while k < nz
                invariant
                    d_data.wf(),
                    nx == d_data.collision_boxes.x,
                    ny == d_data.collision_boxes.y,
                    nz == d_data.collision_boxes.z,
                    i < nx,
                    j < ny,
                    k <= nz,
                    pairs@ == grid_pairs(*d_data, i as int) + plane_pairs(*d_data, i as int, j as int)
                        + row_pairs(*d_data, i as int, j as int, k as int),
                decreases nz - k,
            {
                assert(d_data.in_grid(i as int, j as int, k as int));
                assert(d_data.cell_placed(i as int, j as int, k as int));
                push_cell_pairs(&mut pairs, &d_data.g_data[i][j][k]);
                assert(pairs@ =~= grid_pairs(*d_data, i as int) + plane_pairs(
                    *d_data,
                    i as int,
                    j as int,
                ) + row_pairs(*d_data, i as int, j as int, k as int + 1));
                k += 1;
            }
            assert(pairs@ =~= grid_pairs(*d_data, i as int) + plane_pairs(
                *d_data,
                i as int,
                j as int + 1,
            ));
            j += 1;
        }
        assert(pairs@ =~= grid_pairs(*d_data, i as int + 1));
        i += 1;
    }
    pairs
}

} // verus!
