//! Choosing how much of a list of buffers one write request carries: the
//! whole buffers that fit within a limit, and a prefix of the next one.

use std::io::IoSlice;

use bytes::Bytes;
use tokio_io_utility::IoSliceExt;
use vstd::prelude::*;
use vstd::slice::slice_subrange;

verus! {

/// The total length of the buffers whose lengths are `lens`.
pub open spec fn sum_lens(lens: Seq<usize>) -> int
    decreases lens.len(),
{
    if lens.len() == 0 {
        0
    } else {
        sum_lens(lens.drop_last()) + lens.last()
    }
}

/// How many buffers, from the first, fit whole within `limit` bytes.
pub open spec fn fit_count(lens: Seq<usize>, limit: int) -> nat
    decreases lens.len(),
{
    if lens.len() == 0 || lens[0] > limit {
        0
    } else {
        1 + fit_count(lens.drop_first(), limit - lens[0])
    }
}

/// The plan of one request: `n` bytes in all, made of the buffers before
/// `end` and the first `rem_len` bytes of buffer `rem_index`.
#[derive(Debug, Clone, Copy, PartialEq, Eq, Structural)]
pub struct TakePlan {
    pub n: usize,
    pub end: usize,
    pub rem_index: usize,
    pub rem_len: usize,
}

/// The plan for buffers of lengths `lens` under `limit`: `None` when there is
/// no buffer, or when all fit and hold no byte. When a buffer does not fit,
/// the request is filled up to `limit` with a prefix of it; else the
/// remainder is an empty prefix of the first buffer.
pub open spec fn take_plan_spec(lens: Seq<usize>, limit: usize) -> Option<TakePlan> {
    if lens.len() == 0 {
        None
    } else {
        let end = fit_count(lens, limit as int);
        let n = sum_lens(lens.take(end as int));
        if end < lens.len() {
            Some(
                TakePlan {
                    n: limit,
                    end: end as usize,
                    rem_index: end as usize,
                    rem_len: (limit - n) as usize,
                },
            )
        } else if n == 0 {
            None
        } else {
            Some(TakePlan { n: n as usize, end: end as usize, rem_index: 0, rem_len: 0 })
        }
    }
}

proof fn lemma_fit_count(lens: Seq<usize>, limit: int, i: int)
    requires
        0 <= i <= lens.len(),
        sum_lens(lens.take(i)) <= limit,
        forall|k: int| 1 <= k <= i ==> sum_lens(#[trigger] lens.take(k)) <= limit,
        i == lens.len() || sum_lens(lens.take(i)) + lens[i] > limit,
    ensures
        fit_count(lens, limit) == i,
    decreases lens.len(),
{
    if lens.len() == 0 {
    } else if i == 0 {
        assert(lens.take(0) =~= Seq::<usize>::empty());
    } else {
        let t = lens.drop_first();
        assert(lens.take(1).drop_last() =~= Seq::<usize>::empty());
        assert(lens.take(1).len() == 1);
        assert(sum_lens(lens.take(1)) <= limit);
        assert(sum_lens(Seq::<usize>::empty()) == 0);
        assert(lens.take(1).last() == lens[0]);
        assert(sum_lens(lens.take(1)) == sum_lens(lens.take(1).drop_last()) + lens.take(1).last());
        assert(sum_lens(lens.take(1)) == lens[0]);
        assert forall|k: int| 0 <= k <= t.len() implies sum_lens(#[trigger] t.take(k)) == sum_lens(
            lens.take(k + 1),
        ) - lens[0] by {
            lemma_sum_shift(lens, k);
        }
        assert forall|k: int| 1 <= k <= i - 1 implies sum_lens(#[trigger] t.take(k)) <= limit
            - lens[0] by {
            assert(sum_lens(t.take(k)) == sum_lens(lens.take(k + 1)) - lens[0]);
            assert(sum_lens(lens.take(k + 1)) <= limit);
        }
        if i < lens.len() {
            assert(t[i - 1] == lens[i]);
        }
        lemma_fit_count(t, limit - lens[0], i - 1);
    }
}

proof fn lemma_sum_shift(lens: Seq<usize>, k: int)
    requires
        lens.len() > 0,
        0 <= k <= lens.len() - 1,
    ensures
        sum_lens(lens.drop_first().take(k)) == sum_lens(lens.take(k + 1)) - lens[0],
    decreases k,
{
    if k == 0 {
        assert(lens.drop_first().take(0) =~= Seq::<usize>::empty());
        assert(lens.take(1).drop_last() =~= Seq::<usize>::empty());
    } else {
        lemma_sum_shift(lens, k - 1);
        assert(lens.drop_first().take(k).drop_last() =~= lens.drop_first().take(k - 1));
        assert(lens.take(k + 1).drop_last() =~= lens.take(k));
    }
}

/// The plan of one request over buffers of lengths `lens`, under `limit`.
/// When there is one, it carries `n` bytes, no more than `limit` when a
/// buffer is cut, and the prefix taken of the buffer that is cut is shorter
/// than that buffer.
pub fn take_slices(lens: &[usize], limit: usize) -> (r: Option<TakePlan>)
    ensures
        r == take_plan_spec(lens@, limit),
        r matches Some(p) ==> p.n == sum_lens(lens@.take(p.end as int)) + p.rem_len,
        r matches Some(p) ==> (p.end < lens@.len() ==> p.n == limit && p.rem_index == p.end
            && p.rem_len < lens@[p.end as int]),
        r matches Some(p) ==> p.end <= lens@.len() && p.rem_index < lens@.len(),
        r matches Some(p) ==> p.n <= limit && p.rem_len <= lens@[p.rem_index as int],
{
    if lens.len() == 0 {
        return None;
    }
    let mut end: usize = 0;
    let mut n: usize = 0;
    while end < lens.len()
        invariant_except_break
            end <= lens@.len(),
            n == sum_lens(lens@.take(end as int)),
            n <= limit,
            forall|k: int| 1 <= k <= end ==> sum_lens(#[trigger] lens@.take(k)) <= limit,
        ensures
            end <= lens@.len(),
            n == sum_lens(lens@.take(end as int)),
            n <= limit,
            forall|k: int| 1 <= k <= end ==> sum_lens(#[trigger] lens@.take(k)) <= limit,
            end == lens@.len() || sum_lens(lens@.take(end as int)) + lens@[end as int] > limit,
        decreases lens@.len() - end,
    {
        let len = lens[end];
        if len > limit - n {
            break;
        }
        assert(lens@.take(end + 1).drop_last() =~= lens@.take(end as int));
        n = n + len;
        end = end + 1;
    }
    proof {
        lemma_fit_count(lens@, limit as int, end as int);
    }
    if end < lens.len() {
        Some(TakePlan { n: limit, end, rem_index: end, rem_len: limit - n })
    } else if n == 0 {
        None
    } else {
        Some(TakePlan { n, end, rem_index: 0, rem_len: 0 })
    }
}

/// `bytes::Bytes`, a shared buffer of bytes, carried as it is.
#[verifier::external_type_specification]
#[verifier::external_body]
pub struct ExBytes(Bytes);

/// `std::io::IoSlice`, a borrowed buffer of a vectored write, carried as it
/// is.
#[verifier::external_type_specification]
#[verifier::external_body]
pub struct ExIoSlice<'a>(IoSlice<'a>);

/// The bytes that a `Bytes` holds.
pub uninterp spec fn bytes_view(b: Bytes) -> Seq<u8>;

/// The bytes that an `IoSlice` points to.
pub uninterp spec fn io_slice_view(s: IoSlice) -> Seq<u8>;

/// `Bytes::len`: the number of bytes held.
#[verifier::external_body]
fn bytes_len(b: &Bytes) -> (r: usize)
    ensures
        r == bytes_view(*b).len(),
{
    b.len()
}

/// `Bytes::slice(0..end)`: a handle to the first `end` bytes held (it panics
/// beyond the length, which `requires` leaves out).
#[verifier::external_body]
fn bytes_prefix(b: &Bytes, end: usize) -> (r: Bytes)
    requires
        end <= bytes_view(*b).len(),
    ensures
        bytes_view(r) == bytes_view(*b).take(end as int),
{
    b.slice(0..end)
}

/// The length of an `IoSlice` (`Deref` to `[u8]`).
#[verifier::external_body]
fn io_slice_len(s: &IoSlice) -> (r: usize)
    ensures
        r == io_slice_view(*s).len(),
{
    s.len()
}

/// `IoSliceExt::into_inner` of tokio-io-utility, which gives back the slice
/// an `IoSlice` was made from: an `IoSlice` of its first `end` bytes.
#[verifier::external_body]
fn io_slice_prefix<'a>(s: &IoSlice<'a>, end: usize) -> (r: IoSlice<'a>)
    requires
        end <= io_slice_view(*s).len(),
    ensures
        io_slice_view(r) == io_slice_view(*s).take(end as int),
{
    IoSlice::new(&(*s).into_inner()[..end])
}

/// The lengths of the buffers `bs`.
pub open spec fn bytes_lens(bs: Seq<Bytes>) -> Seq<usize> {
    bs.map_values(|b: Bytes| bytes_view(b).len() as usize)
}

/// The lengths of the slices `ss`.
pub open spec fn io_slice_lens(ss: Seq<IoSlice>) -> Seq<usize> {
    ss.map_values(|s: IoSlice| io_slice_view(s).len() as usize)
}

/// One write request's share of `bytes_slice` under `limit`: the number of
/// bytes, the buffers taken whole, and a prefix of the next buffer (empty
/// when all fit). `None` when there is no buffer, or no byte in them.
pub fn take_bytes(bytes_slice: &[Bytes], limit: usize) -> (r: Option<(usize, &[Bytes], [Bytes; 1])>)
    ensures
        match take_plan_spec(bytes_lens(bytes_slice@), limit) {
            None => r is None,
            Some(p) => r matches Some(t) && t.0 == p.n && t.1@ == bytes_slice@.take(p.end as int)
                && bytes_view(t.2@[0]) == bytes_view(bytes_slice@[p.rem_index as int]).take(
                p.rem_len as int,
            ),
        },
        r matches Some(t) ==> t.0 <= limit && t.0 == sum_lens(bytes_lens(t.1@)) + bytes_view(
            t.2@[0],
        ).len(),
{
    let mut lens: Vec<usize> = Vec::new();
    let mut i: usize = 0;
    while i < bytes_slice.len()
        invariant
            i <= bytes_slice@.len(),
            lens@ =~= bytes_lens(bytes_slice@).take(i as int),
        decreases bytes_slice@.len() - i,
    {
        lens.push(bytes_len(&bytes_slice[i]));
        i = i + 1;
    }
    assert(bytes_lens(bytes_slice@).take(bytes_slice@.len() as int) =~= bytes_lens(bytes_slice@));
    match take_slices(lens.as_slice(), limit) {
        None => None,
        Some(p) => {
            let whole = slice_subrange(bytes_slice, 0, p.end);
            assert(whole@ =~= bytes_slice@.take(p.end as int));
            assert(bytes_lens(whole@) =~= lens@.take(p.end as int));
            if p.end < lens.len() {
                assert(p.rem_len < lens@[p.rem_index as int]);
            }
            let rem = bytes_prefix(&bytes_slice[p.rem_index], p.rem_len);
            Some((p.n, whole, [rem]))
        },
    }
}

/// One write request's share of `io_slices` under `limit`, as `take_bytes`
/// does for `Bytes`.
pub fn take_io_slices<'a>(io_slices: &'a [IoSlice<'a>], limit: usize) -> (r: Option<
    (usize, &'a [IoSlice<'a>], [IoSlice<'a>; 1]),
>)
    ensures
        match take_plan_spec(io_slice_lens(io_slices@), limit) {
            None => r is None,
            Some(p) => r matches Some(t) && t.0 == p.n && t.1@ == io_slices@.take(p.end as int)
                && io_slice_view(t.2@[0]) == io_slice_view(io_slices@[p.rem_index as int]).take(
                p.rem_len as int,
            ),
        },
        r matches Some(t) ==> t.0 <= limit && t.0 == sum_lens(io_slice_lens(t.1@)) + io_slice_view(
            t.2@[0],
        ).len(),
{
    let mut lens: Vec<usize> = Vec::new();
    let mut i: usize = 0;
    while i < io_slices.len()
        invariant
            i <= io_slices@.len(),
            lens@ =~= io_slice_lens(io_slices@).take(i as int),
        decreases io_slices@.len() - i,
    {
        lens.push(io_slice_len(&io_slices[i]));
        i = i + 1;
    }
    assert(io_slice_lens(io_slices@).take(io_slices@.len() as int) =~= io_slice_lens(io_slices@));
    match take_slices(lens.as_slice(), limit) {
        None => None,
        Some(p) => {
            let whole = slice_subrange(io_slices, 0, p.end);
            assert(whole@ =~= io_slices@.take(p.end as int));
            assert(io_slice_lens(whole@) =~= lens@.take(p.end as int));
            if p.end < lens.len() {
                assert(p.rem_len < lens@[p.rem_index as int]);
            }
            let rem = io_slice_prefix(&io_slices[p.rem_index], p.rem_len);
            Some((p.n, whole, [rem]))
        },
    }
}

} // verus!
