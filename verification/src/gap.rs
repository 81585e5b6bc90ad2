//! Gap buffers: a physical array whose logical contents are everything but a
//! contiguous "gap" of reusable cells. Moving the gap or growing the array
//! never changes the logical contents.
use vstd::prelude::*;

verus! {

/// The logical contents of a gap buffer: the cells before the gap followed by
/// the cells after it.
pub open spec fn gap_view<A>(phys: Seq<A>, gap_start: int, gap_len: int) -> Seq<A> {
    phys.subrange(0, gap_start) + phys.subrange(gap_start + gap_len, phys.len() as int)
}

/// Where the logical index `i` lives in the physical array.
pub open spec fn gap_address(i: int, gap_start: int, gap_len: int) -> int {
    if i < gap_start {
        i
    } else {
        i + gap_len
    }
}

/// A gap that fits inside its physical array.
pub open spec fn gap_fits<A>(phys: Seq<A>, gap_start: int, gap_len: int) -> bool {
    0 <= gap_start && 0 <= gap_len && gap_start + gap_len <= phys.len()
}

/// Reading the logical contents at `i` reads the physical cell at its address.
pub proof fn lemma_gap_view_index<A>(phys: Seq<A>, gap_start: int, gap_len: int, i: int)
    requires
        gap_fits(phys, gap_start, gap_len),
        0 <= i < phys.len() - gap_len,
    ensures
        gap_view(phys, gap_start, gap_len).len() == phys.len() - gap_len,
        gap_view(phys, gap_start, gap_len)[i] == phys[gap_address(i, gap_start, gap_len)],
{
}

/// The logical length of a gap buffer.
pub proof fn lemma_gap_view_len<A>(phys: Seq<A>, gap_start: int, gap_len: int)
    requires
        gap_fits(phys, gap_start, gap_len),
    ensures
        gap_view(phys, gap_start, gap_len).len() == phys.len() - gap_len,
{
}

/// Two physical arrays with the same length and gap hold the same logical
/// contents when they agree on every cell outside the gap.
pub proof fn lemma_gap_view_ext<A>(p: Seq<A>, q: Seq<A>, gap_start: int, gap_len: int)
    requires
        gap_fits(p, gap_start, gap_len),
        p.len() == q.len(),
        forall|k: int|
            0 <= k < p.len() && !(gap_start <= k < gap_start + gap_len) ==> p[k] == q[k],
    ensures
        gap_view(p, gap_start, gap_len) == gap_view(q, gap_start, gap_len),
{
    assert(gap_view(p, gap_start, gap_len) =~= gap_view(q, gap_start, gap_len));
}

/// Writing the physical cell of logical index `i` writes the logical cell `i`.
pub proof fn lemma_gap_view_update<A>(phys: Seq<A>, gap_start: int, gap_len: int, i: int, x: A)
    requires
        gap_fits(phys, gap_start, gap_len),
        0 <= i < phys.len() - gap_len,
    ensures
        gap_view(phys.update(gap_address(i, gap_start, gap_len), x), gap_start, gap_len)
            == gap_view(phys, gap_start, gap_len).update(i, x),
{
    assert(gap_view(phys.update(gap_address(i, gap_start, gap_len), x), gap_start, gap_len)
        =~= gap_view(phys, gap_start, gap_len).update(i, x));
}

/// Shrinking the gap from its start by `size` cells turns the first `size`
/// cells of the gap into logical cells at the gap's position.
pub proof fn lemma_gap_view_shrink<A>(phys: Seq<A>, gap_start: int, gap_len: int, size: int)
    requires
        gap_fits(phys, gap_start, gap_len),
        0 <= size <= gap_len,
    ensures
        gap_view(phys, gap_start + size, gap_len - size) == gap_view(
            phys,
            gap_start,
            gap_len,
        ).subrange(0, gap_start) + phys.subrange(gap_start, gap_start + size) + gap_view(
            phys,
            gap_start,
            gap_len,
        ).subrange(gap_start, phys.len() - gap_len),
{
    assert(gap_view(phys, gap_start + size, gap_len - size) =~= gap_view(
        phys,
        gap_start,
        gap_len,
    ).subrange(0, gap_start) + phys.subrange(gap_start, gap_start + size) + gap_view(
        phys,
        gap_start,
        gap_len,
    ).subrange(gap_start, phys.len() - gap_len));
}

/// The result of `slice::copy_within(src..end, dest)` on `phys`: the cells of
/// the source range appear at `dest`, every other cell is kept.
pub open spec fn copied_within<A>(phys: Seq<A>, src: int, end: int, dest: int) -> Seq<A> {
    Seq::new(
        phys.len(),
        |k: int|
            if dest <= k < dest + (end - src) {
                phys[src + (k - dest)]
            } else {
                phys[k]
            },
    )
}

/// Copies the cells `src..end` so that they start at `dest`, as
/// `slice::copy_within` does (the ranges may overlap).
pub fn copy_within<A: Copy>(v: &mut Vec<A>, src: usize, end: usize, dest: usize)
    requires
        src <= end <= old(v).len(),
        dest + (end - src) <= old(v).len(),
    ensures
        final(v)@ == copied_within(old(v)@, src as int, end as int, dest as int),
{
    let n = end - src;
    let ghost orig = v@;
    if dest <= src {
        let mut i: usize = 0;
        while i < n
            invariant
                0 <= i <= n,
                n == end - src,
                dest <= src,
                src <= end <= orig.len(),
                dest + n <= orig.len(),
                v@.len() == orig.len(),
                forall|k: int|
                    0 <= k < orig.len() ==> v@[k] == (if dest <= k < dest + i {
                        orig[src + (k - dest)]
                    } else {
                        orig[k]
                    }),
            decreases n - i,
        {
            let x = v[src + i];
            v[dest + i] = x;
            i = i + 1;
        }
    } else {
        let mut i: usize = n;
        while i > 0
            invariant
                0 <= i <= n,
                n == end - src,
                dest > src,
                src <= end <= orig.len(),
                dest + n <= orig.len(),
                dest + n <= v.len(),
                v@.len() == orig.len(),
                forall|k: int|
                    0 <= k < orig.len() ==> v@[k] == (if dest + i <= k < dest + n {
                        orig[src + (k - dest)]
                    } else {
                        orig[k]
                    }),
            decreases i,
        {
            let x = v[src + (i - 1)];
            v[dest + (i - 1)] = x;
            i = i - 1;
        }
    }
    assert(v@ =~= copied_within(orig, src as int, end as int, dest as int));
}

/// Moves the gap of a gap buffer from `gap_start` to `index`, shifting the
/// cells in between across the gap. The logical contents do not change.
pub fn move_gap<A: Copy>(v: &mut Vec<A>, gap_start: usize, gap_len: usize, index: usize)
    requires
        gap_start + gap_len <= old(v).len(),
        index + gap_len <= old(v).len(),
    ensures
        final(v)@.len() == old(v)@.len(),
        gap_view(final(v)@, index as int, gap_len as int) == gap_view(
            old(v)@,
            gap_start as int,
            gap_len as int,
        ),
{
    let ghost orig = v@;
    if gap_start != index {
        if index < gap_start {
            // Move the gap down to `index` by shifting the data up.
            copy_within(v, index, gap_start, index + gap_len);
        } else {
            // Shift the data down, leaving the gap at `index`.
            copy_within(v, gap_start + gap_len, index + gap_len, gap_start);
        }
    }
    assert(gap_view(v@, index as int, gap_len as int) =~= gap_view(
        orig,
        gap_start as int,
        gap_len as int,
    ));
}

/// The array that `grow_gap` builds: the cells before the gap, then `fill`
/// for the whole new gap, then the cells after the old gap.
pub open spec fn grown<A>(
    phys: Seq<A>,
    gap_start: int,
    gap_len: int,
    new_capacity: int,
    fill: A,
) -> Seq<A> {
    let new_gap_end = gap_start + (new_capacity - (phys.len() - gap_len));
    Seq::new(
        new_capacity as nat,
        |k: int|
            if k < gap_start {
                phys[k]
            } else if k < new_gap_end {
                fill
            } else {
                phys[k - new_gap_end + gap_start + gap_len]
            },
    )
}

/// Builds a larger physical array for a gap buffer: the gap keeps its start
/// and widens so that the array has `new_capacity` cells; every cell of the
/// new gap holds `fill`.
pub fn grow_gap<A: Copy>(
    v: &Vec<A>,
    gap_start: usize,
    gap_len: usize,
    new_capacity: usize,
    fill: A,
) -> (r: Vec<A>)
    requires
        gap_start + gap_len <= v.len(),
        v.len() - gap_len <= new_capacity,
    ensures
        r@ == grown(v@, gap_start as int, gap_len as int, new_capacity as int, fill),
        r@.len() == new_capacity,
        gap_view(r@, gap_start as int, new_capacity - (v.len() - gap_len)) == gap_view(
            v@,
            gap_start as int,
            gap_len as int,
        ),
{
    let old_size = v.len() - gap_len;
    let new_gap_end = gap_start + (new_capacity - old_size);
    let old_gap_end = gap_start + gap_len;
    let mut r: Vec<A> = Vec::with_capacity(new_capacity);
    let mut k: usize = 0;
    while k < new_capacity
        invariant
            0 <= k <= new_capacity,
            old_size == v.len() - gap_len,
            new_gap_end == gap_start + (new_capacity - old_size),
            old_gap_end == gap_start + gap_len,
            gap_start + gap_len <= v.len(),
            old_size <= new_capacity,
            r@.len() == k,
            forall|j: int|
                0 <= j < k ==> r@[j] == grown(
                    v@,
                    gap_start as int,
                    gap_len as int,
                    new_capacity as int,
                    fill,
                )[j],
        decreases new_capacity - k,
    {
        if k < gap_start {
            r.push(v[k]);
        } else if k < new_gap_end {
            r.push(fill);
        } else {
            r.push(v[k - new_gap_end + old_gap_end]);
        }
        k = k + 1;
    }
    let ghost g = grown(v@, gap_start as int, gap_len as int, new_capacity as int, fill);
    assert(r@ =~= g);
    assert(gap_view(r@, gap_start as int, new_capacity - old_size) =~= gap_view(
        v@,
        gap_start as int,
        gap_len as int,
    ));
    r
}

/// Writes `fill` into the cells `start..end`, leaving the others as they are.
pub fn fill_range<A: Copy>(v: &mut Vec<A>, start: usize, end: usize, fill: A)
    requires
        start <= end <= old(v).len(),
    ensures
        final(v)@.len() == old(v)@.len(),
        forall|k: int| 0 <= k < old(v)@.len() ==> #[trigger] final(v)@[k] == if start <= k < end {
            fill
        } else {
            old(v)@[k]
        },
{
    let mut i: usize = start;
    while i < end
        invariant
            start <= i <= end <= v@.len(),
            v@.len() == old(v)@.len(),
            forall|k: int| 0 <= k < old(v)@.len() ==> #[trigger] v@[k] == if start <= k < i {
                fill
            } else {
                old(v)@[k]
            },
        decreases end - i,
    {
        v.set(i, fill);
        i = i + 1;
    }
}

} // verus!
