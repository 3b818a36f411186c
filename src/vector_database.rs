//! An in-memory, insertion-ordered store of vectors with nearest-neighbour lookup.
use vstd::prelude::*;
use vstd::slice::slice_to_vec;

use crate::float_order::{is_nan, less, less_than};

verus! {

/// The index that a left-to-right scan over `distances` settles on: it starts at the
/// first entry and moves to a later one only when that one is strictly smaller.
/// An entry that is NaN never replaces the current best.
pub open spec fn scan_min(distances: Seq<u64>) -> int
    decreases distances.len(),
{
    if distances.len() <= 1 {
        0
    } else {
        let best = scan_min(distances.drop_last());
        if less(distances.last(), distances[best]) {
            distances.len() - 1
        } else {
            best
        }
    }
}

/// No entry of `distances` is NaN.
pub open spec fn no_nan(distances: Seq<u64>) -> bool {
    forall|j: int| 0 <= j < distances.len() ==> !is_nan(#[trigger] distances[j])
}

/// `i` holds a smallest entry of `distances`, and no earlier entry is as small.
pub open spec fn is_first_min(distances: Seq<u64>, i: int) -> bool {
    &&& 0 <= i < distances.len()
    &&& forall|j: int| 0 <= j < distances.len() ==> !less(#[trigger] distances[j], distances[i])
    &&& forall|j: int| 0 <= j < i ==> less(distances[i], #[trigger] distances[j])
}

/// Without NaN the scan finds the first smallest entry.
pub proof fn lemma_scan_min_is_first_min(distances: Seq<u64>)
    requires
        distances.len() > 0,
        no_nan(distances),
    ensures
        is_first_min(distances, scan_min(distances)),
    decreases distances.len(),
{
    let n = distances.len() as int;
    if n > 1 {
        let prefix = distances.drop_last();
        assert forall|j: int| 0 <= j < prefix.len() implies #[trigger] prefix[j] == distances[j] by {}
        assert(no_nan(prefix)) by {
            assert forall|j: int| 0 <= j < prefix.len() implies !is_nan(#[trigger] prefix[j]) by {
                assert(!is_nan(distances[j]));
            }
        }
        lemma_scan_min_is_first_min(prefix);
        let b = scan_min(prefix);
        let last = distances[n - 1];
        assert(!is_nan(last));
        assert(!is_nan(distances[b]));
        assert forall|j: int| 0 <= j < n implies !less(#[trigger] distances[j], distances[scan_min(distances)]) by {
            assert(!is_nan(distances[j]));
            if j < n - 1 {
                assert(!less(prefix[j], prefix[b]));
            }
        }
        assert forall|j: int| 0 <= j < scan_min(distances) implies less(distances[scan_min(distances)], #[trigger] distances[j]) by {
            assert(!is_nan(distances[j]));
            if j < n - 1 {
                assert(!less(prefix[j], prefix[b]));
            }
            if j < b {
                assert(less(prefix[b], prefix[j]));
            }
        }
    }
}

/// Adding a vector and then removing the one at the last index hands back exactly
/// that vector and leaves the store as it was before the addition.
pub proof fn lemma_add_then_remove_last<T>(before: Seq<Seq<T>>, vector: Seq<T>)
    ensures
        before.push(vector)[before.len() as int] == vector,
        before.push(vector).remove(before.len() as int) == before,
        before.push(vector).len() - 1 == before.len(),
{
    assert(before.push(vector).remove(before.len() as int) =~= before);
}

/// Removing the vector at `index` leaves earlier vectors where they were and moves
/// each later one down by one place.
pub proof fn lemma_remove_shifts_later<T>(before: Seq<Seq<T>>, index: int, j: int)
    requires
        0 <= index < before.len(),
        0 <= j < before.len() - 1,
    ensures
        j < index ==> before.remove(index)[j] == before[j],
        j >= index ==> before.remove(index)[j] == before[j + 1],
{
}

/// A store of vectors, each a sequence of `T`, addressed by position.
pub struct VectorDatabase<T> {
    vectors: Vec<Vec<T>>,
}

impl<T> View for VectorDatabase<T> {
    type V = Seq<Seq<T>>;

    closed spec fn view(&self) -> Seq<Seq<T>> {
        self.vectors@.map_values(|v: Vec<T>| v@)
    }
}

impl<T: Copy> Default for VectorDatabase<T> {
    fn default() -> (r: Self)
        ensures
            r@ == Seq::<Seq<T>>::empty(),
    {
        Self::new()
    }
}

impl<T: Copy> VectorDatabase<T> {
    /// An empty store.
    pub fn new() -> (r: Self)
        ensures
            r@ == Seq::<Seq<T>>::empty(),
    {
        let r = VectorDatabase { vectors: Vec::new() };
        assert(r@ =~= Seq::<Seq<T>>::empty());
        r
    }

    /// Appends a copy of `vector`; its index is the previous number of vectors.
    pub fn add(&mut self, vector: &[T])
        ensures
            final(self)@ == old(self)@.push(vector@),
    {
        let copy = slice_to_vec(vector);
        self.vectors.push(copy);
        assert(self@ =~= old(self)@.push(vector@));
    }

    /// Takes out the vector at `index` and returns it; later vectors move down one
    /// place. Returns `None`, and leaves the store as it was, when `index` is past
    /// the end.
    pub fn remove(&mut self, index: usize) -> (r: Option<Vec<T>>)
        ensures
            index < old(self)@.len() ==> r is Some && r->Some_0@ == old(self)@[index as int]
                && final(self)@ == old(self)@.remove(index as int),
            index >= old(self)@.len() ==> r is None && final(self)@ == old(self)@,
    {
        if index < self.vectors.len() {
            let v = self.vectors.remove(index);
            assert(self@ =~= old(self)@.remove(index as int));
            Some(v)
        } else {
            None
        }
    }

    /// The vector at `index`, or `None` when `index` is past the end. The result
    /// depends on the store and `index` alone.
    pub fn get(&self, index: usize) -> (r: Option<&Vec<T>>)
        ensures
            r is Some <==> index < self@.len(),
            r matches Some(v) ==> v@ == self@[index as int],
    {
        if index < self.vectors.len() {
            Some(&self.vectors[index])
        } else {
            None
        }
    }

    /// The index of the stored vector nearest to a query, or `None` for an empty
    /// store. `distances[i]` is the bit pattern of the distance (an `f64`) from the
    /// query to vector `i`. Ties go to the lowest index; a NaN distance never wins
    /// over the current best, so the scan always completes.
    pub fn nearest(&self, distances: &[u64]) -> (r: Option<usize>)
        requires
            distances@.len() == self@.len(),
        ensures
            r is None <==> self@.len() == 0,
            r matches Some(i) ==> i == scan_min(distances@),
            r matches Some(i) ==> i < self@.len(),
            r matches Some(i) ==> (no_nan(distances@) ==> is_first_min(distances@, i as int)),
    {
        if self.vectors.len() == 0 {
            return None;
        }
        let mut best: usize = 0;
        let mut i: usize = 1;
        while i < distances.len()
            invariant
                1 <= i <= distances@.len(),
                distances@.len() == self@.len(),
                best < i,
                best == scan_min(distances@.subrange(0, i as int)),
            decreases distances@.len() - i,
        {
            let ghost prefix = distances@.subrange(0, i as int + 1);
            assert(prefix.drop_last() =~= distances@.subrange(0, i as int));
            if less_than(distances[i], distances[best]) {
                best = i;
            }
            i = i + 1;
        }
        assert(distances@.subrange(0, distances@.len() as int) =~= distances@);
        proof {
            if no_nan(distances@) {
                lemma_scan_min_is_first_min(distances@);
            }
        }
        Some(best)
    }
}

} // verus!
