//! Coverage maps: fixed-length arrays of saturating counters, one per
//! instrumented code region, and the reduction that folds one execution's
//! map into the accumulated one.

use vstd::prelude::*;

verus! {

/// The all-zero map of the given length: the baseline every execution starts from.
pub open spec fn zeros(len: nat) -> Seq<u8> {
    Seq::new(len, |i: int| 0u8)
}

/// `local` shows coverage that `global` lacks: some counter of `local` exceeds
/// the counter of `global` at the same position.
pub open spec fn novel(global: Seq<u8>, local: Seq<u8>) -> bool {
    exists|i: int| 0 <= i < global.len() && i < local.len() && #[trigger] local[i] > global[i]
}

/// The element-wise maximum of `global` and `local`, with the length of `global`.
pub open spec fn merged(global: Seq<u8>, local: Seq<u8>) -> Seq<u8> {
    Seq::new(
        global.len(),
        |i: int|
            if i < local.len() && local[i] > global[i] {
                local[i]
            } else {
                global[i]
            },
    )
}

/// `upper` has the length of `lower` and is nowhere below it.
pub open spec fn covers(upper: Seq<u8>, lower: Seq<u8>) -> bool {
    &&& upper.len() == lower.len()
    &&& forall|i: int| 0 <= i < lower.len() ==> #[trigger] upper[i] >= lower[i]
}

/// The positions of `map`, in increasing order, whose counter is not zero.
pub open spec fn covered_points(map: Seq<u8>) -> Seq<int>
    decreases map.len(),
{
    if map.len() == 0 {
        Seq::empty()
    } else if map.last() != 0 {
        covered_points(map.drop_last()).push(map.len() - 1)
    } else {
        covered_points(map.drop_last())
    }
}

/// A list of machine indices read as mathematical integers.
pub open spec fn as_ints(indices: Seq<usize>) -> Seq<int> {
    indices.map_values(|p: usize| p as int)
}

/// The counter at `index` raised by `count`, stopping at 255; a position
/// outside the map leaves it as it is.
pub open spec fn bumped(map: Seq<u8>, index: int, count: u8) -> Seq<u8> {
    if 0 <= index < map.len() {
        map.update(
            index,
            if map[index] + count > 255 {
                255u8
            } else {
                (map[index] + count) as u8
            },
        )
    } else {
        map
    }
}

/// Merging never lowers a counter.
pub proof fn lemma_merged_covers(global: Seq<u8>, local: Seq<u8>)
    ensures
        covers(merged(global, local), global),
{
}

/// Merging changes the accumulated map exactly when the local map is novel.
pub proof fn lemma_merged_changes_iff_novel(global: Seq<u8>, local: Seq<u8>)
    ensures
        novel(global, local) <==> merged(global, local) != global,
{
    if novel(global, local) {
        let i = choose|i: int| 0 <= i < global.len() && i < local.len() && #[trigger] local[i] > global[i];
        assert(merged(global, local)[i] == local[i]);
    } else {
        assert(merged(global, local) =~= global);
    }
}

/// Once a local map has been merged, the same map is no longer novel.
pub proof fn lemma_merged_absorbs(global: Seq<u8>, local: Seq<u8>)
    ensures
        !novel(merged(global, local), local),
        merged(merged(global, local), local) == merged(global, local),
{
    let m = merged(global, local);
    assert forall|i: int| 0 <= i < m.len() && i < local.len() implies !(#[trigger] local[i] > m[i]) by {}
    assert(merged(m, local) =~= m);
}

/// `covers` is reflexive and transitive.
pub proof fn lemma_covers_transitive(a: Seq<u8>, b: Seq<u8>, c: Seq<u8>)
    requires
        covers(a, b),
        covers(b, c),
    ensures
        covers(a, c),
        covers(a, a),
{
    assert forall|i: int| 0 <= i < c.len() implies #[trigger] a[i] >= c[i] by {
        assert(a[i] >= b[i]);
        assert(b[i] >= c[i]);
    }
}

/// A point is listed by `covered_points` exactly when its counter is not
/// zero, and the list is strictly increasing.
pub proof fn lemma_covered_points(map: Seq<u8>)
    ensures
        covered_points(map).len() <= map.len(),
        forall|k: int|
            0 <= k < covered_points(map).len() ==> 0 <= (#[trigger] covered_points(map)[k])
                < map.len() && map[covered_points(map)[k]] != 0,
        forall|i: int| 0 <= i < map.len() && map[i] != 0 ==> covered_points(map).contains(i),
        forall|j: int, k: int|
            0 <= j < k < covered_points(map).len() ==> covered_points(map)[j] < covered_points(
                map,
            )[k],
    decreases map.len(),
{
    if map.len() > 0 {
        let rest = map.drop_last();
        lemma_covered_points(rest);
        let points = covered_points(map);
        let before = covered_points(rest);
        assert forall|i: int| 0 <= i < map.len() && map[i] != 0 implies points.contains(i) by {
            if i < rest.len() {
                assert(rest[i] == map[i]);
                assert(before.contains(i));
                let k = choose|k: int| 0 <= k < before.len() && before[k] == i;
                assert(points[k] == i);
            } else {
                assert(points[points.len() - 1] == i);
            }
        }
        assert forall|k: int| 0 <= k < points.len() implies 0 <= (#[trigger] points[k])
            < map.len() && map[points[k]] != 0 by {
            if k < before.len() {
                assert(points[k] == before[k]);
                assert(rest[before[k]] == map[before[k]]);
            }
        }
        assert forall|j: int, k: int| 0 <= j < k < points.len() implies points[j] < points[k] by {
            assert(points[j] == before[j]);
            assert(before[j] < rest.len());
            if k < before.len() {
                assert(points[k] == before[k]);
            }
        }
    }
}

/// A coverage map: one counter per instrumented region. Its length is fixed
/// when it is made.
pub struct CoverageMap {
    cells: Vec<u8>,
}

impl View for CoverageMap {
    type V = Seq<u8>;

    closed spec fn view(&self) -> Seq<u8> {
        self.cells@
    }
}

impl CoverageMap {
    /// A map of `len` counters, all zero.
    pub fn new(len: usize) -> (map: CoverageMap)
        ensures
            map@ == zeros(len as nat),
    {
        let mut cells: Vec<u8> = Vec::new();
        let mut i: usize = 0;
        while i < len
            invariant
                i <= len,
                cells@ == zeros(i as nat),
            decreases len - i,
        {
            cells.push(0u8);
            i += 1;
            assert(cells@ =~= zeros(i as nat));
        }
        CoverageMap { cells }
    }

    /// The number of counters.
    pub fn len(&self) -> (n: usize)
        ensures
            n == self@.len(),
    {
        self.cells.len()
    }

    /// The counter at `index`, or `None` outside the map.
    pub fn get(&self, index: usize) -> (value: Option<u8>)
        ensures
            value == if index < self@.len() {
                Some(self@[index as int])
            } else {
                None
            },
    {
        if index < self.cells.len() {
            Some(self.cells[index])
        } else {
            None
        }
    }

    /// Sets every counter back to zero; the length stays.
    pub fn reset(&mut self)
        ensures
            final(self)@ == zeros(old(self)@.len()),
    {
        let len = self.cells.len();
        let mut i: usize = 0;
        while i < len
            invariant
                i <= len,
                self.cells@.len() == len,
                forall|k: int| 0 <= k < i ==> self.cells@[k] == 0u8,
            decreases len - i,
        {
            self.cells.set(i, 0u8);
            i += 1;
        }
        assert(self.cells@ =~= zeros(len as nat));
    }

    /// Raises the counter at `index` by `count`, stopping at 255. Returns
    /// whether `index` lies inside the map; outside, nothing changes.
    pub fn hit(&mut self, index: usize, count: u8) -> (inside: bool)
        ensures
            inside == (index < old(self)@.len()),
            final(self)@ == bumped(old(self)@, index as int, count),
    {
        if index < self.cells.len() {
            let raised = self.cells[index].saturating_add(count);
            self.cells.set(index, raised);
            true
        } else {
            false
        }
    }

    /// A copy of the counters.
    pub fn snapshot(&self) -> (copy: Vec<u8>)
        ensures
            copy@ == self@,
    {
        let copy = self.cells.clone();
        assert(copy@ =~= self.cells@);
        copy
    }

    /// Whether `local` shows coverage that this map lacks.
    pub fn is_novel(&self, local: &Vec<u8>) -> (found: bool)
        requires
            local@.len() == self@.len(),
        ensures
            found == novel(self@, local@),
    {
        let len = self.cells.len();
        let mut i: usize = 0;
        while i < len
            invariant
                i <= len,
                len == self.cells@.len(),
                local@.len() == len,
                forall|k: int| 0 <= k < i ==> !(#[trigger] local@[k] > self.cells@[k]),
            decreases len - i,
        {
            if local[i] > self.cells[i] {
                return true;
            }
            i += 1;
        }
        false
    }

    /// Folds `local` into this map: every counter becomes the larger of the two.
    pub fn merge(&mut self, local: &Vec<u8>)
        requires
            local@.len() == old(self)@.len(),
        ensures
            final(self)@ == merged(old(self)@, local@),
    {
        let len = self.cells.len();
        let mut i: usize = 0;
        while i < len
            invariant
                i <= len,
                len == self.cells@.len(),
                len == old(self).cells@.len(),
                local@.len() == len,
                forall|k: int| 0 <= k < i ==> self.cells@[k] == merged(old(self).cells@, local@)[k],
                forall|k: int| i <= k < len ==> self.cells@[k] == old(self).cells@[k],
            decreases len - i,
        {
            if local[i] > self.cells[i] {
                self.cells.set(i, local[i]);
            }
            i += 1;
        }
        assert(self.cells@ =~= merged(old(self).cells@, local@));
    }

    /// The positions whose counter is not zero, in increasing order.
    pub fn covered(&self) -> (points: Vec<usize>)
        ensures
            as_ints(points@) == covered_points(self@),
    {
        let len = self.cells.len();
        let mut points: Vec<usize> = Vec::new();
        let mut i: usize = 0;
        while i < len
            invariant
                i <= len,
                len == self.cells@.len(),
                as_ints(points@) == covered_points(self.cells@.take(i as int)),
            decreases len - i,
        {
            proof {
                let next = self.cells@.take(i + 1);
                assert(next.drop_last() =~= self.cells@.take(i as int));
                assert(next.last() == self.cells@[i as int]);
            }
            let ghost before = points@;
            if self.cells[i] != 0 {
                points.push(i);
                assert(as_ints(points@) =~= as_ints(before).push(i as int));
            }
            i += 1;
        }
        assert(self.cells@.take(len as int) =~= self.cells@);
        points
    }
}

} // verus!
