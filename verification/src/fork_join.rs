//! Fork and join: a list is cut into chunks, each chunk is reduced on its
//! own, and the partial results are reduced to one. Whoever runs the chunks,
//! one after the other or each on a thread of its own, gets the same total.

use vstd::prelude::*;

verus! {

/// The sum of `items`.
pub open spec fn sum_of(items: Seq<u32>) -> int
    decreases items.len(),
{
    if items.len() == 0 {
        0
    } else {
        sum_of(items.drop_last()) + items.last()
    }
}

/// The sum of two lists, one after the other, is the sum of their sums.
pub proof fn lemma_sum_concat(left: Seq<u32>, right: Seq<u32>)
    ensures
        sum_of(left + right) == sum_of(left) + sum_of(right),
    decreases right.len(),
{
    if right.len() == 0 {
        assert(left + right =~= left);
    } else {
        assert((left + right).drop_last() =~= left + right.drop_last());
        lemma_sum_concat(left, right.drop_last());
    }
}

/// A sum is not negative, and no part of a list sums to more than the
/// whole.
pub proof fn lemma_sum_of_part(items: Seq<u32>, start: int, end: int)
    requires
        0 <= start <= end <= items.len(),
    ensures
        0 <= sum_of(items.subrange(start, end)) <= sum_of(items),
{
    lemma_sum_nonnegative(items.subrange(0, start));
    lemma_sum_nonnegative(items.subrange(start, end));
    lemma_sum_nonnegative(items.subrange(end, items.len() as int));
    lemma_sum_concat(items.subrange(0, start), items.subrange(start, end));
    lemma_sum_concat(items.subrange(0, end), items.subrange(end, items.len() as int));
    assert(items.subrange(0, start) + items.subrange(start, end) =~= items.subrange(0, end));
    assert(items.subrange(0, end) + items.subrange(end, items.len() as int) =~= items);
}

/// A sum is not negative.
pub proof fn lemma_sum_nonnegative(items: Seq<u32>)
    ensures
        0 <= sum_of(items),
    decreases items.len(),
{
    if items.len() > 0 {
        lemma_sum_nonnegative(items.drop_last());
    }
}

/// Chunk number `chunk` of a list of `len` items cut into chunks of `size`:
/// the positions from its first to before its second number. All chunks
/// have `size` items but the last, which may have fewer.
pub open spec fn chunk_at(chunk: int, len: int, size: int) -> (int, int) {
    (chunk * size, if (chunk + 1) * size <= len {
        (chunk + 1) * size
    } else {
        len
    })
}

/// Cuts the positions of a list of `len` items into chunks of `size`, in
/// order: as many as it takes to hold every item, none of them empty. The
/// caller gives a `size` above zero.
pub fn chunk_bounds(len: usize, size: usize) -> (bounds: Vec<(usize, usize)>)
    requires
        size > 0,
    ensures
        forall|chunk: int|
            0 <= chunk < bounds@.len() ==> {
                &&& ((#[trigger] bounds@[chunk]).0 as int, bounds@[chunk].1 as int) == chunk_at(
                    chunk,
                    len as int,
                    size as int,
                )
                &&& bounds@[chunk].0 < bounds@[chunk].1 <= len
            },
        (bounds@.len() - 1) * size < len <= bounds@.len() * size || (len == 0 && bounds@.len()
            == 0),
{
    let mut bounds: Vec<(usize, usize)> = Vec::new();
    let mut start: usize = 0;
    assert(bounds@.len() * size == 0) by (nonlinear_arith)
        requires
            bounds@.len() == 0,
    ;
    while start < len
        invariant
            size > 0,
            start <= len,
            start == len || start == bounds@.len() * size,
            start == len ==> (bounds@.len() - 1) * size < len <= bounds@.len() * size || (len == 0
                && bounds@.len() == 0),
            forall|chunk: int|
                0 <= chunk < bounds@.len() ==> {
                    &&& ((#[trigger] bounds@[chunk]).0 as int, bounds@[chunk].1 as int)
                        == chunk_at(chunk, len as int, size as int)
                    &&& bounds@[chunk].0 < bounds@[chunk].1 <= len
                },
        decreases len - start,
    {
        let end = if len - start < size {
            len
        } else {
            start + size
        };
        proof {
            let chunk = bounds@.len() as int;
            assert((chunk + 1) * size == chunk * size + size) by (nonlinear_arith);
            assert(chunk_at(chunk, len as int, size as int) == (start as int, end as int));
        }
        bounds.push((start, end));
        start = end;
    }
    bounds
}

/// The sum of the items of `items` from position `start` to before `end`:
/// the work of one task. The caller keeps the sum within `u32`.
pub fn sum_range(items: &Vec<u32>, start: usize, end: usize) -> (sum: u32)
    requires
        start <= end <= items@.len(),
        sum_of(items@.subrange(start as int, end as int)) <= u32::MAX,
    ensures
        sum == sum_of(items@.subrange(start as int, end as int)),
{
    let mut sum: u32 = 0;
    let mut position: usize = start;
    assert(items@.subrange(start as int, start as int) =~= Seq::<u32>::empty());
    while position < end
        invariant
            start <= position <= end <= items@.len(),
            sum == sum_of(items@.subrange(start as int, position as int)),
            sum_of(items@.subrange(start as int, end as int)) <= u32::MAX,
        decreases end - position,
    {
        proof {
            let part = items@.subrange(start as int, end as int);
            assert(part.subrange(0, position + 1 - start) =~= items@.subrange(
                start as int,
                position + 1,
            ));
            lemma_sum_of_part(part, 0, position + 1 - start);
            assert(items@.subrange(start as int, position + 1).drop_last() =~= items@.subrange(
                start as int,
                position as int,
            ));
        }
        sum = sum + items[position];
        position = position + 1;
    }
    sum
}

/// The sum of the partial results: the join. The caller keeps the sum
/// within `u32`.
pub fn reduce(partials: &Vec<u32>) -> (total: u32)
    requires
        sum_of(partials@) <= u32::MAX,
    ensures
        total == sum_of(partials@),
{
    assert(partials@.subrange(0, partials@.len() as int) =~= partials@);
    sum_range(partials, 0, partials.len())
}

/// The sum of `items`, computed chunk by chunk: the list is cut into chunks
/// of `size`, each chunk is summed on its own, and the partial sums are
/// added up. The caller gives a `size` above zero and keeps the sum within
/// `u32`.
pub fn chunked_sum(items: &Vec<u32>, size: usize) -> (total: u32)
    requires
        size > 0,
        sum_of(items@) <= u32::MAX,
    ensures
        total == sum_of(items@),
{
    let bounds = chunk_bounds(items.len(), size);
    let mut partials: Vec<u32> = Vec::new();
    let mut chunk: usize = 0;
    assert(items@.subrange(0, 0) =~= Seq::<u32>::empty());
    while chunk < bounds.len()
        invariant
            size > 0,
            chunk <= bounds@.len(),
            sum_of(items@) <= u32::MAX,
            forall|c: int|
                0 <= c < bounds@.len() ==> {
                    &&& ((#[trigger] bounds@[c]).0 as int, bounds@[c].1 as int) == chunk_at(
                        c,
                        items@.len() as int,
                        size as int,
                    )
                    &&& bounds@[c].0 < bounds@[c].1 <= items@.len()
                },
            (bounds@.len() - 1) * size < items@.len() <= bounds@.len() * size || (items@.len()
                == 0 && bounds@.len() == 0),
            partials@.len() == chunk,
            chunk < bounds@.len() ==> chunk * size <= items@.len(),
            sum_of(partials@) == sum_of(
                items@.subrange(
                    0,
                    if chunk < bounds@.len() {
                        chunk * size
                    } else {
                        items@.len() as int
                    },
                ),
            ),
        decreases bounds@.len() - chunk,
    {
        let (start, end) = bounds[chunk];
        proof {
            assert(start == chunk * size);
            lemma_sum_of_part(items@, start as int, end as int);
        }
        let partial = sum_range(items, start, end);
        proof {
            let done = partials@;
            assert(done.push(partial).drop_last() =~= done);
            lemma_sum_concat(
                items@.subrange(0, start as int),
                items@.subrange(start as int, end as int),
            );
            assert(items@.subrange(0, start as int) + items@.subrange(start as int, end as int)
                =~= items@.subrange(0, end as int));
            assert((chunk + 1) * size == chunk * size + size) by (nonlinear_arith);
            if chunk + 1 < bounds@.len() {
                assert((chunk + 1) * size <= (bounds@.len() - 1) * size) by (nonlinear_arith)
                    requires
                        chunk + 1 <= bounds@.len() - 1,
                        size > 0,
                ;
            } else {
                assert(bounds@.len() * size == (chunk + 1) * size);
            }
        }
        partials.push(partial);
        chunk = chunk + 1;
    }
    proof {
        assert(items@.subrange(0, items@.len() as int) =~= items@);
        if bounds@.len() == 0 {
            assert(items@.len() == 0);
        }
    }
    reduce(&partials)
}

} // verus!
