//! Joining an ordered collection of slices into one vector.

use vstd::prelude::*;

verus! {

/// The contents of each slice of a collection, in the collection's order.
pub open spec fn contents<T>(arrays: Seq<&[T]>) -> Seq<Seq<T>> {
    arrays.map_values(|array: &[T]| array@)
}

/// All elements of the first part, then all of the second, and so on.
pub open spec fn joined<T>(parts: Seq<Seq<T>>) -> Seq<T>
    decreases parts.len(),
{
    if parts.len() == 0 {
        Seq::empty()
    } else {
        joined(parts.drop_last()) + parts.last()
    }
}

/// The number of elements in all parts together.
pub open spec fn total_len<T>(parts: Seq<Seq<T>>) -> nat {
    joined(parts).len()
}

/// The capacity to ask for when `total` elements are about to be stored:
/// `total` itself wherever it is a `usize`.
pub open spec fn capacity_for(total: nat) -> usize {
    if total <= usize::MAX {
        total as usize
    } else {
        usize::MAX
    }
}

/// Joining the first `n + 1` parts appends part `n` to the first `n` joined.
pub proof fn lemma_joined_take_next<T>(parts: Seq<Seq<T>>, n: int)
    requires
        0 <= n < parts.len(),
    ensures
        joined(parts.take(n + 1)) == joined(parts.take(n)) + parts[n],
        total_len(parts.take(n + 1)) == total_len(parts.take(n)) + parts[n].len(),
{
    assert(parts.take(n + 1).drop_last() =~= parts.take(n));
    assert(parts.take(n + 1).last() == parts[n]);
}

/// Joining no slices gives the empty sequence.
pub proof fn lemma_concat_of_none<T>()
    ensures
        joined(contents(Seq::<&[T]>::empty())) == Seq::<T>::empty(),
{
}

/// Joining a single slice gives that slice's elements, unchanged.
pub proof fn lemma_concat_of_one<T>(only: &[T])
    ensures
        joined(contents(seq![only])) == only@,
{
    let parts = contents(seq![only]);
    assert(joined(parts.drop_last()) =~= Seq::<T>::empty());
    assert(parts.last() == only@);
    assert(joined(parts) =~= only@);
}

/// Joining two slices gives the elements of the first followed by those of
/// the second, as many as both hold together.
pub proof fn lemma_concat_of_two<T>(first: &[T], second: &[T])
    ensures
        joined(contents(seq![first, second])) == first@ + second@,
        joined(contents(seq![first, second])).len() == first@.len() + second@.len(),
{
    let parts = contents(seq![first, second]);
    assert(parts.drop_last() =~= contents(seq![first]));
    lemma_concat_of_one(first);
}

/// The number of elements that all slices hold together, or `usize::MAX`
/// where that number is no `usize`.
pub fn total_capacity<T>(arrays: &Vec<&[T]>) -> (capacity: usize)
    ensures
        capacity == capacity_for(total_len(contents(arrays@))),
{
    let ghost parts = contents(arrays@);
    let mut capacity: usize = 0;
    let mut index: usize = 0;
    while index < arrays.len()
        invariant
            index <= arrays.len(),
            parts == contents(arrays@),
            capacity == capacity_for(total_len(parts.take(index as int))),
        decreases arrays.len() - index,
    {
        proof {
            lemma_joined_take_next(parts, index as int);
        }
        capacity = capacity.saturating_add(arrays[index].len());
        index += 1;
    }
    assert(parts.take(index as int) =~= parts);
    capacity
}

/// Returns one vector that holds every element of the first slice, then every
/// element of the second, and so on: the order of the slices and the order
/// inside each slice are kept, and the slices themselves are left as they were.
///
/// The number of elements is counted first and the vector is created with
/// room for all of them, so that it does not grow while it is filled.
pub fn concat_arrays<T: Copy>(arrays: Vec<&[T]>) -> (result_vector: Vec<T>)
    ensures
        result_vector@ == joined(contents(arrays@)),
{
    let ghost parts = contents(arrays@);
    let vector_size: usize = total_capacity(&arrays);
    let mut result_vector: Vec<T> = Vec::with_capacity(vector_size);
    let mut index: usize = 0;
    while index < arrays.len()
        invariant
            index <= arrays.len(),
            parts == contents(arrays@),
            result_vector@ == joined(parts.take(index as int)),
        decreases arrays.len() - index,
    {
        let array: &[T] = arrays[index];
        let ghost before = result_vector@;
        let mut position: usize = 0;
        while position < array.len()
            invariant
                position <= array.len(),
                result_vector@ == before + array@.take(position as int),
            decreases array.len() - position,
        {
            result_vector.push(array[position]);
            position += 1;
            assert(array@.take(position as int) =~= array@.take(position - 1).push(
                array@[position - 1],
            ));
        }
        proof {
            assert(array@.take(position as int) =~= array@);
            lemma_joined_take_next(parts, index as int);
        }
        index += 1;
    }
    assert(parts.take(index as int) =~= parts);
    result_vector
}

} // verus!
