//! How a file is cut into chunks, and what is left of it to fetch.
use vstd::arithmetic::div_mod::*;
use vstd::arithmetic::mul::*;
use vstd::prelude::*;

verus! {

/// The chunk size of a download that asks for none: 2 MiB.
pub const DEFAULT_CHUNK_SIZE: u64 = 2097152;

/// How many chunks of `chunk` bytes cover `total` bytes.
pub open spec fn chunk_total(total: int, chunk: int) -> int {
    (total + chunk - 1) / chunk
}

/// The length of chunk `index`: a whole chunk, the rest of the file, or nothing past its end.
pub open spec fn chunk_len(index: int, total: int, chunk: int) -> int {
    let start = index * chunk;
    if start >= total {
        0
    } else if total - start < chunk {
        total - start
    } else {
        chunk
    }
}

/// A chunk that is to be fetched: the bytes from `start` to `end`, both of them in it.
#[derive(Clone, Copy, Debug, PartialEq, Eq, Structural)]
pub struct Segment {
    pub index: usize,
    pub start: u64,
    pub end: u64,
}

/// `segment` is chunk `index` of a file of `total` bytes.
pub open spec fn is_chunk(segment: Segment, index: int, total: int, chunk: int) -> bool {
    &&& segment.index == index
    &&& segment.start == index * chunk
    &&& segment.end == index * chunk + chunk_len(index, total, chunk) - 1
}

impl Segment {
    /// The number of bytes in the segment.
    pub open spec fn size(self) -> int {
        self.end - self.start + 1
    }

    pub open spec fn wf(self) -> bool {
        self.start <= self.end < u64::MAX
    }

    pub fn len(&self) -> (r: u64)
        requires
            self.wf(),
        ensures
            r == self.size(),
    {
        self.end - self.start + 1
    }
}

/// The number of leading chunks that are complete.
pub open spec fn leading_run(completed: Seq<bool>) -> nat
    decreases completed.len(),
{
    if completed.len() > 0 && completed[0] {
        1 + leading_run(completed.drop_first())
    } else {
        0
    }
}

/// The number of complete chunks.
pub open spec fn completed_total(completed: Seq<bool>) -> nat
    decreases completed.len(),
{
    if completed.len() == 0 {
        0
    } else {
        completed_total(completed.drop_last()) + if completed.last() {
            1nat
        } else {
            0nat
        }
    }
}

/// The bytes in the complete chunks.
pub open spec fn completed_size(completed: Seq<bool>, total: int, chunk: int) -> int
    decreases completed.len(),
{
    if completed.len() == 0 {
        0
    } else {
        completed_size(completed.drop_last(), total, chunk) + if completed.last() {
            chunk_len(completed.len() - 1, total, chunk)
        } else {
            0
        }
    }
}

/// The chunk numbers that are not complete, in order.
pub open spec fn missing_chunks(completed: Seq<bool>) -> Seq<int>
    decreases completed.len(),
{
    if completed.len() == 0 {
        Seq::empty()
    } else if completed.last() {
        missing_chunks(completed.drop_last())
    } else {
        missing_chunks(completed.drop_last()).push(completed.len() - 1)
    }
}

/// `segments` are the chunks with the numbers in `indices`, in that order.
pub open spec fn are_chunks(
    segments: Seq<Segment>,
    indices: Seq<int>,
    total: int,
    chunk: int,
) -> bool {
    &&& segments.len() == indices.len()
    &&& forall|i: int|
        0 <= i < segments.len() ==> is_chunk(#[trigger] segments[i], indices[i], total, chunk)
}

pub fn chunk_count(total_size: u64, chunk_size: u64) -> (r: usize)
    requires
        chunk_size > 0,
        chunk_total(total_size as int, chunk_size as int) <= usize::MAX,
    ensures
        r == chunk_total(total_size as int, chunk_size as int),
{
    let count: u128 = (total_size as u128 + chunk_size as u128 - 1) / (chunk_size as u128);
    count as usize
}

pub fn segment_len(index: usize, total_size: u64, chunk_size: u64) -> (r: u64)
    ensures
        r == chunk_len(index as int, total_size as int, chunk_size as int),
{
    proof {
        lemma_mul_upper_bound(
            index as int,
            0xffff_ffff_ffff_ffff,
            chunk_size as int,
            0xffff_ffff_ffff_ffff,
        );
        lemma_mul_nonnegative(index as int, chunk_size as int);
    }
    let start: u128 = index as u128 * chunk_size as u128;
    if start >= total_size as u128 {
        0
    } else {
        let left: u64 = total_size - start as u64;
        if left < chunk_size {
            left
        } else {
            chunk_size
        }
    }
}

/// A chunk number below the chunk count has at least one byte.
pub proof fn lemma_chunk_starts_inside(index: int, total: int, chunk: int)
    requires
        0 <= index < chunk_total(total, chunk),
        chunk > 0,
        total >= 0,
    ensures
        0 <= index * chunk < total,
        chunk_len(index, total, chunk) > 0,
        index * chunk + chunk_len(index, total, chunk) <= total,
{
    let count = chunk_total(total, chunk);
    lemma_fundamental_div_mod(total + chunk - 1, chunk);
    assert(index * chunk <= (count - 1) * chunk) by (nonlinear_arith)
        requires
            index <= count - 1,
            chunk > 0,
    ;
    assert((count - 1) * chunk == chunk * count - chunk) by (nonlinear_arith);
    lemma_mul_nonnegative(index, chunk);
}

/// The segments that are not complete yet, in the order of the file.
pub fn build_segments(total_size: u64, chunk_size: u64, completed: &Vec<bool>) -> (r: Vec<Segment>)
    requires
        chunk_size > 0,
        completed.len() == chunk_total(total_size as int, chunk_size as int),
    ensures
        are_chunks(r@, missing_chunks(completed@), total_size as int, chunk_size as int),
        forall|i: int| 0 <= i < r.len() ==> (#[trigger] r@[i]).wf(),
{
    let mut segments: Vec<Segment> = Vec::new();
    let mut index: usize = 0;
    proof {
        assert(completed@.take(0).len() == 0);
    }
    while index < completed.len()
        invariant
            chunk_size > 0,
            index <= completed.len(),
            completed.len() == chunk_total(total_size as int, chunk_size as int),
            are_chunks(
                segments@,
                missing_chunks(completed@.take(index as int)),
                total_size as int,
                chunk_size as int,
            ),
            forall|i: int| 0 <= i < segments.len() ==> (#[trigger] segments@[i]).wf(),
        decreases completed.len() - index,
    {
        proof {
            let seen = completed@.take(index + 1);
            assert(seen.drop_last() =~= completed@.take(index as int));
            assert(seen.last() == completed@[index as int]);
            lemma_chunk_starts_inside(index as int, total_size as int, chunk_size as int);
        }
        if !completed[index] {
            let start: u64 = index as u64 * chunk_size;
            let end: u64 = start + segment_len(index, total_size, chunk_size) - 1;
            segments.push(Segment { index, start, end });
        }
        index = index + 1;
    }
    proof {
        assert(completed@.take(completed@.len() as int) =~= completed@);
    }
    segments
}

/// The complete bytes of a file whose chunks are complete as far as the flags say.
pub proof fn lemma_completed_size_bound(completed: Seq<bool>, total: int, chunk: int)
    requires
        chunk >= 0,
        total >= 0,
    ensures
        0 <= completed_size(completed, total, chunk) <= run_size(
            completed.len() as int,
            total,
            chunk,
        ),
    decreases completed.len(),
{
    if completed.len() > 0 {
        lemma_completed_size_bound(completed.drop_last(), total, chunk);
        lemma_run_step(completed.len() - 1, total, chunk);
    }
}

/// The bytes in the first `n` chunks.
pub open spec fn run_size(n: int, total: int, chunk: int) -> int {
    if n * chunk < total {
        n * chunk
    } else {
        total
    }
}

proof fn lemma_run_step(n: int, total: int, chunk: int)
    requires
        n >= 0,
        chunk >= 0,
        total >= 0,
    ensures
        run_size(n + 1, total, chunk) == run_size(n, total, chunk) + chunk_len(n, total, chunk),
        0 <= run_size(n, total, chunk) <= run_size(n + 1, total, chunk) <= total,
{
    assert((n + 1) * chunk == n * chunk + chunk) by (nonlinear_arith);
    lemma_mul_nonnegative(n, chunk);
}

/// The bytes that the complete chunks hold.
pub fn completed_bytes(completed: &Vec<bool>, total_size: u64, chunk_size: u64) -> (r: u64)
    ensures
        r == completed_size(completed@, total_size as int, chunk_size as int),
        r <= total_size,
{
    let mut sum: u64 = 0;
    let mut index: usize = 0;
    proof {
        assert(completed@.take(0).len() == 0);
    }
    while index < completed.len()
        invariant
            index <= completed.len(),
            sum == completed_size(
                completed@.take(index as int),
                total_size as int,
                chunk_size as int,
            ),
        decreases completed.len() - index,
    {
        proof {
            let seen = completed@.take(index + 1);
            assert(seen.drop_last() =~= completed@.take(index as int));
            assert(seen.last() == completed@[index as int]);
            lemma_completed_size_bound(seen, total_size as int, chunk_size as int);
            lemma_run_step(index as int, total_size as int, chunk_size as int);
        }
        if completed[index] {
            sum = sum + segment_len(index, total_size, chunk_size);
        }
        index = index + 1;
    }
    proof {
        assert(completed@.take(completed@.len() as int) =~= completed@);
        lemma_completed_size_bound(completed@, total_size as int, chunk_size as int);
        lemma_run_step(completed@.len() as int, total_size as int, chunk_size as int);
    }
    sum
}

/// How many chunks are complete.
pub fn count_completed(completed: &Vec<bool>) -> (r: usize)
    ensures
        r == completed_total(completed@),
        r <= completed.len(),
{
    let mut count: usize = 0;
    let mut index: usize = 0;
    proof {
        assert(completed@.take(0).len() == 0);
    }
    while index < completed.len()
        invariant
            count <= index <= completed.len(),
            count == completed_total(completed@.take(index as int)),
        decreases completed.len() - index,
    {
        proof {
            let seen = completed@.take(index + 1);
            assert(seen.drop_last() =~= completed@.take(index as int));
            assert(seen.last() == completed@[index as int]);
        }
        if completed[index] {
            count = count + 1;
        }
        index = index + 1;
    }
    proof {
        assert(completed@.take(completed@.len() as int) =~= completed@);
    }
    count
}

/// The bytes at the front of the file that are complete without a gap.
pub fn contiguous_completed_bytes(
    completed_chunks: &[bool],
    total_size: u64,
    chunk_size: u64,
) -> (r: u64)
    ensures
        r == run_size(
            leading_run(completed_chunks@) as int,
            total_size as int,
            chunk_size as int,
        ),
        r <= total_size,
{
    let mut contiguous_chunks: usize = 0;
    proof {
        assert(completed_chunks@.skip(0) =~= completed_chunks@);
    }
    while contiguous_chunks < completed_chunks.len() && completed_chunks[contiguous_chunks]
        invariant
            contiguous_chunks <= completed_chunks.len(),
            leading_run(completed_chunks@) == contiguous_chunks + leading_run(
                completed_chunks@.skip(contiguous_chunks as int),
            ),
        decreases completed_chunks.len() - contiguous_chunks,
    {
        proof {
            let rest = completed_chunks@.skip(contiguous_chunks as int);
            assert(rest[0] == completed_chunks@[contiguous_chunks as int]);
            assert(rest.drop_first() =~= completed_chunks@.skip(contiguous_chunks + 1));
        }
        contiguous_chunks = contiguous_chunks + 1;
    }
    proof {
        let rest = completed_chunks@.skip(contiguous_chunks as int);
        assert(rest.len() > 0 ==> rest[0] == completed_chunks@[contiguous_chunks as int]);
    }
    let mut completed_bytes: u64 = 0;
    let mut index: usize = 0;
    proof {
        lemma_run_step(0, total_size as int, chunk_size as int);
    }
    while index < contiguous_chunks
        invariant
            index <= contiguous_chunks,
            completed_bytes == run_size(index as int, total_size as int, chunk_size as int),
            completed_bytes <= total_size,
        decreases contiguous_chunks - index,
    {
        proof {
            lemma_run_step(index as int, total_size as int, chunk_size as int);
        }
        completed_bytes = completed_bytes + segment_len(index, total_size, chunk_size);
        index = index + 1;
    }
    completed_bytes
}

/// The smallest and the largest chunk size for a file of `total` bytes.
pub open spec fn chunk_size_bounds(total: int) -> (int, int) {
    let mib = 1024 * 1024int;
    if total < 10 * mib {
        (mib, 5 * mib)
    } else if total < 100 * mib {
        (4 * mib, 25 * mib)
    } else if total < 1024 * mib {
        (16 * mib, 128 * mib)
    } else if total < 10 * 1024 * mib {
        (64 * mib, 512 * mib)
    } else {
        (256 * mib, 1024 * mib)
    }
}

pub open spec fn clamped(value: int, low: int, high: int) -> int {
    if value < low {
        low
    } else if value > high {
        high
    } else {
        value
    }
}

/// What falls to a chunk when half the file is shared out among the connections, at least one of
/// them.
pub open spec fn half_share(total: int, connections: int) -> int {
    if connections < 1 {
        total / 2
    } else {
        total / 2 / connections
    }
}

/// The chunk size that gives each connection two chunks, within the bounds for the file's size.
pub open spec fn dynamic_chunk_size(total: int, connections: int) -> int {
    let bounds = chunk_size_bounds(total);
    clamped(half_share(total, connections), bounds.0, bounds.1)
}

pub fn calculate_dynamic_chunk_size(total_size: u64, connections: usize) -> (r: u64)
    ensures
        r == dynamic_chunk_size(total_size as int, connections as int),
{
    let connections: u64 = if connections < 1 {
        1
    } else {
        connections as u64
    };
    let mib: u64 = 1024 * 1024;
    let bounds: (u64, u64) = if total_size < 10 * mib {
        (mib, 5 * mib)
    } else if total_size < 100 * mib {
        (4 * mib, 25 * mib)
    } else if total_size < 1024 * mib {
        (16 * mib, 128 * mib)
    } else if total_size < 10 * 1024 * mib {
        (64 * mib, 512 * mib)
    } else {
        (256 * mib, 1024 * mib)
    };
    let target: u64 = if connections > u64::MAX / 2 {
        u64::MAX
    } else {
        connections * 2
    };
    let calculated: u64 = total_size / target;
    proof {
        let half = total_size as int / 2;
        if connections > u64::MAX / 2 {
            lemma_small_quotient(total_size as int, target as int);
            lemma_small_quotient(half, connections as int);
        } else {
            lemma_div_denominator(total_size as int, 2, connections as int);
        }
        assert(half / 1 == half);
    }
    if calculated < bounds.0 {
        bounds.0
    } else if calculated > bounds.1 {
        bounds.1
    } else {
        calculated
    }
}

/// A number that is less than twice its divisor goes into it once at most.
proof fn lemma_small_quotient(x: int, d: int)
    requires
        0 <= x < 2 * d,
    ensures
        0 <= x / d <= 1,
{
    lemma_fundamental_div_mod(x, d);
    let q = x / d;
    assert(0 <= q <= 1) by (nonlinear_arith)
        requires
            x == d * q + x % d,
            0 <= x % d < d,
            0 <= x < 2 * d,
    ;
}

/// A chunk is never smaller than 1 MiB nor larger than 1 GiB.
pub proof fn law_dynamic_chunk_size_range(total: u64, connections: usize)
    ensures
        1024 * 1024 <= dynamic_chunk_size(total as int, connections as int) <= 1024 * 1024 * 1024,
{
}

/// A larger file never gets smaller chunks.
pub proof fn law_dynamic_chunk_size_grows_with_file(smaller: u64, larger: u64, connections: usize)
    requires
        smaller <= larger,
    ensures
        dynamic_chunk_size(smaller as int, connections as int) <= dynamic_chunk_size(
            larger as int,
            connections as int,
        ),
{
    if connections > 0 {
        lemma_div_is_ordered(smaller as int / 2, larger as int / 2, connections as int);
    }
}

/// More connections never make the chunks larger.
pub proof fn law_dynamic_chunk_size_shrinks_with_connections(total: u64, fewer: usize, more: usize)
    requires
        fewer <= more,
    ensures
        dynamic_chunk_size(total as int, more as int) <= dynamic_chunk_size(
            total as int,
            fewer as int,
        ),
{
    let half = total as int / 2;
    if fewer > 0 {
        lemma_div_is_ordered_by_denominator(half, fewer as int, more as int);
    } else if more > 0 {
        lemma_div_is_ordered_by_denominator(half, 1, more as int);
        assert(half / 1 == half);
    }
}

/// Unless the smallest chunk size stands against it, each connection gets two chunks.
pub proof fn law_two_chunks_for_each_connection(total: u64, connections: usize)
    requires
        half_share(total as int, connections as int) >= chunk_size_bounds(total as int).0,
    ensures
        chunk_total(total as int, dynamic_chunk_size(total as int, connections as int)) >= 2
            * connections,
{
    let target = 2 * connections as int;
    let size = dynamic_chunk_size(total as int, connections as int);
    if connections > 0 {
        let quotient = total as int / target;
        lemma_div_denominator(total as int, 2, connections as int);
        lemma_fundamental_div_mod(total as int, target);
        assert(target * size <= target * quotient) by (nonlinear_arith)
            requires
                size <= quotient,
                target > 0,
        ;
    } else {
        assert(0 * size == 0);
    }
    assert(target * size <= total + size - 1);
    lemma_div_is_ordered(target * size, total + size - 1, size);
    lemma_div_multiples_vanish(target, size);
    assert((target * size) / size == target) by {
        lemma_mul_is_commutative(target, size);
    }
}

/// Every byte of the file lies in exactly one chunk.
pub proof fn law_chunks_tile_the_file(total: u64, chunk: u64, offset: u64)
    requires
        chunk > 0,
        offset < total,
    ensures
        ({
            let owner = offset as int / chunk as int;
            &&& 0 <= owner < chunk_total(total as int, chunk as int)
            &&& lies_in_chunk(offset as int, owner, total as int, chunk as int)
            &&& forall|other: int|
                0 <= other && #[trigger] lies_in_chunk(
                    offset as int,
                    other,
                    total as int,
                    chunk as int,
                ) ==> other == owner
        }),
{
    let size = chunk as int;
    let owner = offset as int / size;
    lemma_fundamental_div_mod(offset as int, size);
    lemma_fundamental_div_mod(total + size - 1, size);
    lemma_mul_is_commutative(owner, size);
    lemma_div_pos_is_pos(offset as int, size);
    let count = chunk_total(total as int, size);
    assert(owner < count) by (nonlinear_arith)
        requires
            size > 0,
            size * owner <= offset,
            offset < total,
            total + size - 1 < size * count + size,
    ;
    assert forall|other: int|
        0 <= other && #[trigger] lies_in_chunk(
            offset as int,
            other,
            total as int,
            size,
        ) implies other == owner by {
        assert(other * size <= offset < other * size + size);
        assert(other == owner) by (nonlinear_arith)
            requires
                size > 0,
                other * size <= offset < other * size + size,
                size * owner <= offset < size * owner + size,
        ;
    }
}

/// The byte at `offset` lies in chunk `index`.
pub open spec fn lies_in_chunk(offset: int, index: int, total: int, chunk: int) -> bool {
    index * chunk <= offset < index * chunk + chunk_len(index, total, chunk)
}

/// The bytes in a list of chunks.
pub open spec fn chunks_size(indices: Seq<int>, total: int, chunk: int) -> int
    decreases indices.len(),
{
    if indices.len() == 0 {
        0
    } else {
        chunks_size(indices.drop_last(), total, chunk) + chunk_len(indices.last(), total, chunk)
    }
}

/// What is complete and what is missing make up the whole file.
pub proof fn law_complete_and_missing_make_the_file(completed: Seq<bool>, total: u64, chunk: u64)
    requires
        chunk > 0,
        completed.len() == chunk_total(total as int, chunk as int),
    ensures
        completed_size(completed, total as int, chunk as int) + chunks_size(
            missing_chunks(completed),
            total as int,
            chunk as int,
        ) == total,
{
    lemma_parts_of_run(completed, total as int, chunk as int);
    lemma_whole_run(total as int, chunk as int);
}

proof fn lemma_whole_run(total: int, chunk: int)
    requires
        chunk > 0,
        total >= 0,
    ensures
        run_size(chunk_total(total, chunk), total, chunk) == total,
{
    let count = chunk_total(total, chunk);
    lemma_fundamental_div_mod(total + chunk - 1, chunk);
    lemma_mul_is_commutative(count, chunk);
}

proof fn lemma_parts_of_run(completed: Seq<bool>, total: int, chunk: int)
    requires
        chunk > 0,
        total >= 0,
    ensures
        completed_size(completed, total, chunk) + chunks_size(
            missing_chunks(completed),
            total,
            chunk,
        ) == run_size(completed.len() as int, total, chunk),
    decreases completed.len(),
{
    if completed.len() > 0 {
        let front = completed.drop_last();
        lemma_parts_of_run(front, total, chunk);
        lemma_run_step(front.len() as int, total, chunk);
        if !completed.last() {
            assert(missing_chunks(completed).drop_last() =~= missing_chunks(front));
        }
    } else {
        assert(0 * chunk == 0);
    }
}

/// The bytes that resuming without a gap keeps are no more than those that are complete.
pub proof fn law_contiguous_is_part_of_complete(completed: Seq<bool>, total: u64, chunk: u64)
    ensures
        run_size(leading_run(completed) as int, total as int, chunk as int) <= completed_size(
            completed,
            total as int,
            chunk as int,
        ),
        leading_run(completed) <= completed.len(),
        forall|i: int| 0 <= i < leading_run(completed) ==> #[trigger] completed[i],
        leading_run(completed) < completed.len() ==> !completed[leading_run(completed) as int],
{
    lemma_leading_run(completed);
    lemma_prefix_size(completed, leading_run(completed) as int, total as int, chunk as int);
}

proof fn lemma_leading_run(completed: Seq<bool>)
    ensures
        leading_run(completed) <= completed.len(),
        forall|i: int| 0 <= i < leading_run(completed) ==> #[trigger] completed[i],
        leading_run(completed) < completed.len() ==> !completed[leading_run(completed) as int],
    decreases completed.len(),
{
    if completed.len() > 0 && completed[0] {
        let rest = completed.drop_first();
        lemma_leading_run(rest);
        assert forall|i: int| 0 <= i < leading_run(completed) implies #[trigger] completed[i] by {
            if i > 0 {
                assert(rest[i - 1]);
            }
        }
    }
}

proof fn lemma_prefix_size(completed: Seq<bool>, n: int, total: int, chunk: int)
    requires
        0 <= n <= completed.len(),
        chunk >= 0,
        total >= 0,
        forall|i: int| 0 <= i < n ==> #[trigger] completed[i],
    ensures
        run_size(n, total, chunk) <= completed_size(completed, total, chunk),
    decreases completed.len(),
{
    if completed.len() == 0 {
        assert(0 * chunk == 0);
    } else {
        let front = completed.drop_last();
        lemma_run_step(completed.len() - 1, total, chunk);
        if n == completed.len() {
            assert(completed[n - 1]);
            lemma_prefix_size(front, n - 1, total, chunk);
        } else {
            lemma_prefix_size(front, n, total, chunk);
        }
    }
}

/// One more chunk is complete.
pub proof fn lemma_count_of_update(completed: Seq<bool>, index: int)
    requires
        0 <= index < completed.len(),
        !completed[index],
    ensures
        completed_total(completed.update(index, true)) == completed_total(completed) + 1,
    decreases completed.len(),
{
    let updated = completed.update(index, true);
    if index == completed.len() - 1 {
        assert(updated.drop_last() =~= completed.drop_last());
    } else {
        assert(updated.drop_last() =~= completed.drop_last().update(index, true));
        lemma_count_of_update(completed.drop_last(), index);
    }
}

/// The count of the complete chunks is the count of the chunks exactly if all are complete.
pub proof fn lemma_count_bound(completed: Seq<bool>)
    ensures
        completed_total(completed) <= completed.len(),
        completed_total(completed) == completed.len() <==> (forall|i: int|
            0 <= i < completed.len() ==> #[trigger] completed[i]),
    decreases completed.len(),
{
    if completed.len() > 0 {
        let front = completed.drop_last();
        lemma_count_bound(front);
        if forall|i: int| 0 <= i < completed.len() ==> #[trigger] completed[i] {
            assert(completed[completed.len() - 1]);
            assert forall|i: int| 0 <= i < front.len() implies #[trigger] front[i] by {
                assert(completed[i]);
            }
        }
        if completed_total(completed) == completed.len() {
            assert forall|i: int| 0 <= i < completed.len() implies #[trigger] completed[i] by {
                if i < front.len() {
                    assert(front[i]);
                }
            }
        }
    }
}

/// The missing chunks are the chunks that are not complete, each once, in order.
pub proof fn lemma_missing_chunks(completed: Seq<bool>)
    ensures
        forall|k: int|
            0 <= k < missing_chunks(completed).len() ==> {
                let c = #[trigger] missing_chunks(completed)[k];
                0 <= c < completed.len() && !completed[c]
            },
        forall|k: int, l: int|
            0 <= k < l < missing_chunks(completed).len() ==> #[trigger] missing_chunks(completed)[k]
                < #[trigger] missing_chunks(completed)[l],
        forall|c: int|
            0 <= c < completed.len() && !#[trigger] completed[c] ==> exists|k: int|
                0 <= k < missing_chunks(completed).len() && #[trigger] missing_chunks(completed)[k]
                    == c,
    decreases completed.len(),
{
    if completed.len() > 0 {
        let front = completed.drop_last();
        lemma_missing_chunks(front);
        let missing = missing_chunks(completed);
        assert forall|c: int| 0 <= c < completed.len() && !#[trigger] completed[c] implies exists|
            k: int,
        | 0 <= k < missing.len() && #[trigger] missing[k] == c by {
            if c < front.len() {
                assert(!front[c]);
                let k = choose|k: int|
                    0 <= k < missing_chunks(front).len() && #[trigger] missing_chunks(front)[k]
                        == c;
                assert(missing[k] == c);
            } else {
                assert(missing[missing.len() - 1] == c);
            }
        }
    }
}

/// Every complete chunk of `file` holds what the server has at its place.
pub open spec fn holds_chunks(
    file: Seq<u8>,
    served: Seq<u8>,
    completed: Seq<bool>,
    chunk: int,
) -> bool {
    &&& file.len() == served.len()
    &&& forall|i: int, at: int|
        0 <= i < completed.len() && completed[i] && #[trigger] lies_in_chunk(
            at,
            i,
            served.len() as int,
            chunk,
        ) ==> file[at] == served[at]
}

/// A segment that is written at its place makes its chunk complete and disturbs no other.
pub proof fn law_written_segment_completes_its_chunk(
    file: Seq<u8>,
    served: Seq<u8>,
    completed: Seq<bool>,
    segment: Segment,
    chunk: u64,
)
    requires
        chunk > 0,
        holds_chunks(file, served, completed, chunk as int),
        completed.len() == chunk_total(served.len() as int, chunk as int),
        segment.index < completed.len(),
        is_chunk(segment, segment.index as int, served.len() as int, chunk as int),
    ensures
        segment.end < served.len(),
        holds_chunks(
            file.take(segment.start as int) + served.subrange(
                segment.start as int,
                segment.end + 1,
            ) + file.skip(segment.end + 1),
            served,
            completed.update(segment.index as int, true),
            chunk as int,
        ),
{
    let total = served.len() as int;
    lemma_chunk_starts_inside(segment.index as int, total, chunk as int);
    let start = segment.start as int;
    let end = segment.end + 1;
    let updated = file.take(start) + served.subrange(start, end) + file.skip(end);
    let flags = completed.update(segment.index as int, true);
    assert forall|i: int, at: int|
        0 <= i < flags.len() && flags[i] && #[trigger] lies_in_chunk(
            at,
            i,
            total,
            chunk as int,
        ) implies updated[at] == served[at] by {
        lemma_mul_nonnegative(i, chunk as int);
        if !(start <= at < end) {
            assert(i != segment.index);
            assert(file[at] == served[at]);
        }
    }
}

/// A file all of whose chunks are complete is the file that the server has.
pub proof fn law_complete_file_is_the_served_file(
    file: Seq<u8>,
    served: Seq<u8>,
    completed: Seq<bool>,
    chunk: u64,
)
    requires
        chunk > 0,
        served.len() <= u64::MAX,
        holds_chunks(file, served, completed, chunk as int),
        completed.len() == chunk_total(served.len() as int, chunk as int),
        forall|i: int| 0 <= i < completed.len() ==> #[trigger] completed[i],
    ensures
        file == served,
{
    assert forall|at: int| 0 <= at < served.len() implies file[at] == served[at] by {
        law_chunks_tile_the_file(served.len() as u64, chunk, at as u64);
        let owner = at / chunk as int;
        assert(completed[owner]);
        assert(lies_in_chunk(at, owner, served.len() as int, chunk as int));
    }
    assert(file =~= served);
}

/// The bytes that are kept without a gap are the first bytes of the file that the server has, so
/// that the rest of it can be put behind them.
pub proof fn law_kept_bytes_are_the_served_ones(
    file: Seq<u8>,
    served: Seq<u8>,
    completed: Seq<bool>,
    chunk: u64,
)
    requires
        chunk > 0,
        served.len() <= u64::MAX,
        holds_chunks(file, served, completed, chunk as int),
    ensures
        ({
            let kept = run_size(leading_run(completed) as int, served.len() as int, chunk as int);
            &&& 0 <= kept <= served.len()
            &&& file.take(kept) == served.take(kept)
            &&& file.take(kept) + served.skip(kept) == served
        }),
{
    let total = served.len() as int;
    let run = leading_run(completed) as int;
    let kept = run_size(run, total, chunk as int);
    lemma_leading_run(completed);
    lemma_mul_nonnegative(run, chunk as int);
    assert forall|at: int| 0 <= at < kept implies file[at] == served[at] by {
        law_chunks_tile_the_file(total as u64, chunk, at as u64);
        let owner = at / chunk as int;
        lemma_fundamental_div_mod(at, chunk as int);
        assert(owner < run) by (nonlinear_arith)
            requires
                chunk > 0,
                chunk * owner <= at,
                at < run * chunk,
        ;
        assert(completed[owner]);
        assert(lies_in_chunk(at, owner, total, chunk as int));
    }
    assert(file.take(kept) =~= served.take(kept));
    assert(file.take(kept) + served.skip(kept) =~= served);
}

/// So many chunks cover the file, and one fewer would not.
pub proof fn law_chunk_count_is_the_least_that_covers(total: u64, chunk: u64)
    requires
        chunk > 0,
    ensures
        chunk_total(total as int, chunk as int) >= 0,
        total <= chunk_total(total as int, chunk as int) * chunk,
        total > 0 ==> (chunk_total(total as int, chunk as int) - 1) * chunk < total,
        total == 0 ==> chunk_total(total as int, chunk as int) == 0,
{
    let count = chunk_total(total as int, chunk as int);
    lemma_fundamental_div_mod(total + chunk - 1, chunk as int);
    lemma_mul_is_commutative(count, chunk as int);
    assert((count - 1) * chunk == count * chunk - chunk) by (nonlinear_arith);
    assert(count >= 0) by {
        lemma_div_pos_is_pos(total + chunk - 1, chunk as int);
    }
    if total == 0 {
        lemma_small_mod((chunk - 1) as nat, chunk as nat);
        assert(count == 0) by (nonlinear_arith)
            requires
                chunk > 0,
                chunk - 1 == chunk * count + (chunk - 1),
        ;
    }
}

/// Each chunk is whole, or ends with the file; behind the file there is none.
pub proof fn law_chunks_are_whole_but_the_last(index: nat, total: u64, chunk: u64)
    requires
        chunk > 0,
    ensures
        ({
            let start = index * chunk;
            let len = chunk_len(index as int, total as int, chunk as int);
            &&& start + chunk <= total ==> len == chunk
            &&& start < total < start + chunk ==> start + len == total
            &&& start >= total ==> len == 0
        }),
{
}

/// The segment of a chunk is its bytes: from its place in the file up to the next chunk or the end.
pub proof fn law_segment_is_the_bytes_of_its_chunk(
    segment: Segment,
    index: int,
    total: u64,
    chunk: u64,
)
    requires
        chunk > 0,
        0 <= index < chunk_total(total as int, chunk as int),
        is_chunk(segment, index, total as int, chunk as int),
    ensures
        segment.index == index,
        segment.start == index * chunk,
        segment.end + 1 == if index * chunk + chunk <= total {
            index * chunk + chunk
        } else {
            total as int
        },
        segment.size() == segment.end + 1 - segment.start,
        segment.size() == chunk_len(index, total as int, chunk as int),
{
    lemma_chunk_starts_inside(index, total as int, chunk as int);
}

/// What is fetched is what is missing: a byte lies in one of the segments exactly if its chunk is
/// not complete.
pub proof fn law_segments_are_the_missing_bytes(
    segments: Seq<Segment>,
    completed: Seq<bool>,
    total: u64,
    chunk: u64,
    at: u64,
)
    requires
        chunk > 0,
        at < total,
        completed.len() == chunk_total(total as int, chunk as int),
        are_chunks(segments, missing_chunks(completed), total as int, chunk as int),
    ensures
        (exists|k: int|
            0 <= k < segments.len() && (#[trigger] segments[k]).start <= at <= segments[k].end)
            <==> !completed[at as int / chunk as int],
{
    let owner = at as int / chunk as int;
    law_chunks_tile_the_file(total, chunk, at);
    lemma_missing_chunks(completed);
    let missing = missing_chunks(completed);
    if !completed[owner] {
        let k = choose|k: int| 0 <= k < missing.len() && #[trigger] missing[k] == owner;
        assert(is_chunk(segments[k], missing[k], total as int, chunk as int));
        assert(segments[k].start <= at <= segments[k].end);
    }
    if exists|k: int|
        0 <= k < segments.len() && (#[trigger] segments[k]).start <= at <= segments[k].end {
        let k = choose|k: int|
            0 <= k < segments.len() && (#[trigger] segments[k]).start <= at <= segments[k].end;
        assert(is_chunk(segments[k], missing[k], total as int, chunk as int));
        assert(0 <= missing[k] < completed.len() && !completed[missing[k]]);
        assert(lies_in_chunk(at as int, missing[k], total as int, chunk as int));
    }
}

/// The chunks from the first to this one are there and complete.
pub open spec fn all_complete(completed: Seq<bool>, last: int) -> bool {
    last < completed.len() && forall|c: int| 0 <= c <= last ==> #[trigger] completed[c]
}

/// The bytes that are kept without a gap go up to the first chunk that is not complete: a byte is
/// kept exactly if its chunk and all before it are complete.
pub proof fn law_kept_bytes_reach_the_first_gap(
    completed: Seq<bool>,
    total: u64,
    chunk: u64,
    at: u64,
)
    requires
        chunk > 0,
        at < total,
    ensures
        ({
            let kept = run_size(leading_run(completed) as int, total as int, chunk as int);
            at < kept <==> all_complete(completed, at as int / chunk as int)
        }),
        0 <= run_size(leading_run(completed) as int, total as int, chunk as int) <= total,
{
    let run = leading_run(completed) as int;
    let owner = at as int / chunk as int;
    let kept = run_size(run, total as int, chunk as int);
    lemma_leading_run(completed);
    lemma_mul_nonnegative(run, chunk as int);
    lemma_fundamental_div_mod(at as int, chunk as int);
    lemma_div_pos_is_pos(at as int, chunk as int);
    assert(at < run * chunk <==> owner < run) by (nonlinear_arith)
        requires
            chunk > 0,
            at == chunk * owner + at as int % chunk as int,
            0 <= at as int % chunk as int,
            (at as int % chunk as int) < chunk,
    ;
    if owner >= run {
        if run < completed.len() {
            assert(!completed[run]);
        }
    }
}

/// Nothing is complete without a complete chunk, and one more chunk adds its bytes and one to the
/// count.
pub proof fn law_each_chunk_counts_once(
    completed: Seq<bool>,
    index: int,
    total: u64,
    chunk: u64,
)
    requires
        0 <= index < completed.len(),
        !completed[index],
    ensures
        completed_size(completed.update(index, true), total as int, chunk as int) == completed_size(
            completed,
            total as int,
            chunk as int,
        ) + chunk_len(index, total as int, chunk as int),
        completed_total(completed.update(index, true)) == completed_total(completed) + 1,
        (forall|i: int| 0 <= i < completed.len() ==> !#[trigger] completed[i]) ==> completed_size(
            completed,
            total as int,
            chunk as int,
        ) == 0 && completed_total(completed) == 0,
{
    lemma_count_of_update(completed, index);
    lemma_size_of_update(completed, index, total as int, chunk as int);
    if forall|i: int| 0 <= i < completed.len() ==> !#[trigger] completed[i] {
        lemma_nothing_complete(completed, total as int, chunk as int);
    }
}

proof fn lemma_size_of_update(completed: Seq<bool>, index: int, total: int, chunk: int)
    requires
        0 <= index < completed.len(),
        !completed[index],
    ensures
        completed_size(completed.update(index, true), total, chunk) == completed_size(
            completed,
            total,
            chunk,
        ) + chunk_len(index, total, chunk),
    decreases completed.len(),
{
    let updated = completed.update(index, true);
    if index == completed.len() - 1 {
        assert(updated.drop_last() =~= completed.drop_last());
    } else {
        assert(updated.drop_last() =~= completed.drop_last().update(index, true));
        lemma_size_of_update(completed.drop_last(), index, total, chunk);
    }
}

proof fn lemma_nothing_complete(completed: Seq<bool>, total: int, chunk: int)
    requires
        forall|i: int| 0 <= i < completed.len() ==> !#[trigger] completed[i],
    ensures
        completed_size(completed, total, chunk) == 0,
        completed_total(completed) == 0,
    decreases completed.len(),
{
    if completed.len() > 0 {
        assert(!completed[completed.len() - 1]);
        assert forall|i: int| 0 <= i < completed.drop_last().len() implies
            !#[trigger] completed.drop_last()[i] by {
            assert(!completed[i]);
        }
        lemma_nothing_complete(completed.drop_last(), total, chunk);
    }
}

/// The chunk size lies between the least and the largest for a file of this size; unless one of
/// them stands against it, it is the largest that gives each connection two chunks.
pub proof fn law_dynamic_chunk_size_is_half_a_share(total: u64, connections: usize)
    ensures
        ({
            let size = dynamic_chunk_size(total as int, connections as int);
            let sharers: int = if connections == 0 {
                1
            } else {
                connections as int
            };
            let (least, most): (int, int) = if total < 10_485_760 {
                (1_048_576, 5_242_880)
            } else if total < 104_857_600 {
                (4_194_304, 26_214_400)
            } else if total < 1_073_741_824 {
                (16_777_216, 134_217_728)
            } else if total < 10_737_418_240 {
                (67_108_864, 536_870_912)
            } else {
                (268_435_456, 1_073_741_824)
            };
            &&& least <= size <= most
            &&& size > least ==> size * (2 * sharers) <= total
            &&& size < most ==> total < (size + 1) * (2 * sharers)
        }),
{
    let size = dynamic_chunk_size(total as int, connections as int);
    let sharers: int = if connections == 0 {
        1
    } else {
        connections as int
    };
    let share = half_share(total as int, connections as int);
    let both = 2 * sharers;
    assert(total as int / 2 / 1 == total as int / 2);
    lemma_div_denominator(total as int, 2, sharers);
    assert(share == total as int / both);
    lemma_fundamental_div_mod(total as int, both);
    if size <= share {
        assert(size * both <= total) by (nonlinear_arith)
            requires
                size <= share,
                total == both * share + total as int % both,
                0 <= total as int % both,
                both > 0,
        ;
    }
    if size >= share {
        assert(total < (size + 1) * both) by (nonlinear_arith)
            requires
                size >= share,
                total == both * share + total as int % both,
                total as int % both < both,
                both > 0,
        ;
    }
}

} // verus!
