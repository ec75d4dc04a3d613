use vstd::prelude::*;
use crate::error::VideoError;
use crate::text::same_text;
use crate::template::BATCH_MODE;

verus! {

pub const JOB_FAILED_PREFIX: &'static str = "error, video processing failed: ";

pub const JOB_INCOMPLETE: &'static str = "error, video processing failed: a batch produced no output";

/// The frame numbers `start .. end`.
pub open spec fn frame_range(start: int, end: int) -> Seq<usize> {
    Seq::new((end - start) as nat, |j: int| (start + j) as usize)
}

/// Consecutive batches of `size` frame numbers from `start` up to, not
/// including, `end`; the last batch may be shorter.
pub open spec fn chunks_from(start: int, end: int, size: int) -> Seq<Seq<usize>>
    decreases end - start,
{
    if start >= end || size <= 0 {
        Seq::empty()
    } else {
        let stop = if start + size < end {
            start + size
        } else {
            end
        };
        seq![frame_range(start, stop)] + chunks_from(stop, end, size)
    }
}

/// The batches of a job of `number_of_frames` frames: the frame numbers from
/// 1 up to, not including, `number_of_frames`, in batches of `batch_size`.
pub open spec fn frame_batches(batch_size: nat, number_of_frames: nat) -> Seq<Seq<usize>> {
    chunks_from(1, number_of_frames as int, batch_size as int)
}

/// The contents of a list of batches.
pub open spec fn batches_view(b: Seq<Vec<usize>>) -> Seq<Seq<usize>> {
    b.map_values(|v: Vec<usize>| v@)
}

/// Splits the frames `1 .. number_of_frames` into batches of `batch_size`,
/// in order.
pub fn frame_batches_simple(batch_size: usize, number_of_frames: usize) -> (r: Box<Vec<Vec<usize>>>)
    requires
        batch_size > 0,
    ensures
        batches_view(r@) == frame_batches(batch_size as nat, number_of_frames as nat),
{
    let mut out: Vec<Vec<usize>> = Vec::new();
    let mut start: usize = 1;
    let ghost whole = frame_batches(batch_size as nat, number_of_frames as nat);
    while start < number_of_frames
        invariant
            batch_size > 0,
            1 <= start,
            whole == frame_batches(batch_size as nat, number_of_frames as nat),
            whole == batches_view(out@) + chunks_from(
                start as int,
                number_of_frames as int,
                batch_size as int,
            ),
        decreases number_of_frames - start,
    {
        let stop = if number_of_frames - start > batch_size {
            start + batch_size
        } else {
            number_of_frames
        };
        let mut chunk: Vec<usize> = Vec::new();
        let mut f = start;
        while f < stop
            invariant
                start <= f <= stop,
                chunk@ == frame_range(start as int, f as int),
            decreases stop - f,
        {
            chunk.push(f);
            f = f + 1;
            assert(chunk@ =~= frame_range(start as int, f as int));
        }
        let ghost before = out@;
        out.push(chunk);
        proof {
            let rest = chunks_from(stop as int, number_of_frames as int, batch_size as int);
            assert(batches_view(out@) =~= batches_view(before).push(frame_range(start as int, stop as int)));
            assert(batches_view(before) + chunks_from(start as int, number_of_frames as int, batch_size as int)
                =~= batches_view(out@) + rest);
        }
        start = stop;
    }
    proof {
        assert(batches_view(out@) + Seq::<Seq<usize>>::empty() =~= batches_view(out@));
    }
    Box::new(out)
}

/// The batches of a job whose template runs in `option` mode: batch mode
/// uses `batch_size`, any other mode one frame per batch.
pub fn frame_batches_advanced(batch_size: usize, number_of_frames: usize, option: &str) -> (r: Box<
    Vec<Vec<usize>>,
>)
    requires
        batch_size > 0,
    ensures
        batches_view(r@) == frame_batches(
            if option@ == BATCH_MODE@ {
                batch_size as nat
            } else {
                1
            },
            number_of_frames as nat,
        ),
{
    if same_text(option, BATCH_MODE) {
        frame_batches_simple(batch_size, number_of_frames)
    } else {
        frame_batches_simple(1, number_of_frames)
    }
}

/// The outputs of the batches, concatenated in batch order.
pub open spec fn concat_outputs<T>(outs: Seq<Seq<T>>) -> Seq<T>
    decreases outs.len(),
{
    if outs.len() == 0 {
        Seq::empty()
    } else {
        concat_outputs(outs.drop_last()) + outs.last()
    }
}

/// Whether every batch has its output.
pub open spec fn all_recorded<T>(slots: Seq<Option<Seq<T>>>) -> bool {
    forall|i: int| 0 <= i < slots.len() ==> #[trigger] slots[i] is Some
}

/// The outputs held by the slots, in slot order.
pub open spec fn slot_outputs<T>(slots: Seq<Option<Seq<T>>>) -> Seq<Seq<T>> {
    slots.map_values(|o: Option<Seq<T>>| o->Some_0)
}

/// The results of a job's batches, kept by batch position whatever the order
/// in which the batches finish.
pub struct BatchResults<T> {
    slots: Vec<Option<Vec<T>>>,
}

impl<T> View for BatchResults<T> {
    type V = Seq<Option<Seq<T>>>;

    closed spec fn view(&self) -> Seq<Option<Seq<T>>> {
        self.slots@.map_values(
            |o: Option<Vec<T>>|
                match o {
                    Some(v) => Some(v@),
                    None => None,
                },
        )
    }
}

impl<T> BatchResults<T> {
    /// Room for the results of `count` batches, none recorded.
    pub fn new(count: usize) -> (r: BatchResults<T>)
        ensures
            r@ == empty_slots::<T>(count as nat),
    {
        let mut slots: Vec<Option<Vec<T>>> = Vec::new();
        let mut i: usize = 0;
        while i < count
            invariant
                i <= count,
                slots@.len() == i,
                forall|k: int| 0 <= k < i ==> slots@[k] is None,
            decreases count - i,
        {
            slots.push(None);
            i = i + 1;
        }
        let r = BatchResults { slots };
        assert(r@ =~= empty_slots::<T>(count as nat));
        r
    }

    /// The number of batches.
    pub fn len(&self) -> (r: usize)
        ensures
            r == self@.len(),
    {
        self.slots.len()
    }

    /// Records the output of the batch at `index`.
    pub fn record(&mut self, index: usize, output: Vec<T>)
        requires
            index < old(self)@.len(),
        ensures
            final(self)@ == old(self)@.update(index as int, Some(output@)),
    {
        let ghost out = output@;
        self.slots.set(index, Some(output));
        assert(self@ =~= old(self)@.update(index as int, Some(out)));
    }

    /// The job's outcome: with an abort signal, its error, wrapped; else the
    /// outputs of all batches concatenated in batch order; a batch left
    /// without output is an error too.
    pub fn finish(self, signal: Option<VideoError>) -> (r: Result<Vec<T>, VideoError>)
        ensures
            signal matches Some(e) ==> (r matches Err(x) && x@ == JOB_FAILED_PREFIX@ + e@),
            signal is None && all_recorded(self@) ==> (r matches Ok(v) && v@ == concat_outputs(
                slot_outputs(self@),
            )),
            signal is None && !all_recorded(self@) ==> (r matches Err(x) && x@ == JOB_INCOMPLETE@),
    {
        if let Some(e) = signal {
            let mut text = String::from_str(JOB_FAILED_PREFIX);
            text.append(e.message().as_str());
            return Err(VideoError::MsgError(text));
        }
        let ghost whole = self@;
        let mut slots = self.slots;
        let mut out: Vec<T> = Vec::new();
        let mut i: usize = 0;
        while i < slots.len()
            invariant
                signal is None,
                whole == self@,
                i <= slots@.len(),
                whole.len() == slots@.len(),
                forall|k: int|
                    i <= k < slots@.len() ==> #[trigger] whole[k] == match slots@[k] {
                        Some(v) => Some(v@),
                        None => None,
                    },
                forall|k: int| 0 <= k < i ==> #[trigger] whole[k] is Some,
                out@ == concat_outputs(slot_outputs(whole.subrange(0, i as int))),
            decreases slots@.len() - i,
        {
            let ghost cur = slots@[i as int];
            assert(whole[i as int] == match cur {
                Some(v) => Some(v@),
                None => None,
            });
            let taken = slots[i].take();
            assert(taken == cur);
            match taken {
                Some(v) => {
                    let ghost seen = v@;
                    let mut v = v;
                    out.append(&mut v);
                    proof {
                        let pre = slot_outputs(whole.subrange(0, i as int));
                        let now = slot_outputs(whole.subrange(0, i + 1));
                        assert(now.drop_last() =~= pre);
                        assert(now.last() == seen);
                    }
                },
                None => {
                    assert(!all_recorded(whole)) by {
                        assert(whole[i as int] is None);
                    }
                    return Err(VideoError::msg(JOB_INCOMPLETE));
                },
            }
            i = i + 1;
        }
        proof {
            assert(whole.subrange(0, whole.len() as int) =~= whole);
        }
        Ok(out)
    }
}

/// `n` slots, none recorded.
pub open spec fn empty_slots<T>(n: nat) -> Seq<Option<Seq<T>>> {
    Seq::new(n, |i: int| None::<Seq<T>>)
}

/// The slots after the batches in `order` recorded their outputs, one after
/// the other.
pub open spec fn record_all<T>(slots: Seq<Option<Seq<T>>>, order: Seq<nat>, outs: Seq<Seq<T>>) -> Seq<
    Option<Seq<T>>,
>
    decreases order.len(),
{
    if order.len() == 0 {
        slots
    } else {
        record_all(slots, order.drop_last(), outs).update(
            order.last() as int,
            Some(outs[order.last() as int]),
        )
    }
}

proof fn lemma_record_prefix<T>(n: nat, order: Seq<nat>, outs: Seq<Seq<T>>)
    requires
        outs.len() == n,
        forall|k: int| 0 <= k < order.len() ==> #[trigger] order[k] < n,
    ensures
        record_all(empty_slots(n), order, outs).len() == n,
        forall|j: int|
            0 <= j < n ==> #[trigger] record_all(empty_slots(n), order, outs)[j]
                == if order.contains(j as nat) {
                Some(outs[j])
            } else {
                None
            },
    decreases order.len(),
{
    if order.len() > 0 {
        let pre = order.drop_last();
        assert forall|k: int| 0 <= k < pre.len() implies #[trigger] pre[k] < n by {
            assert(pre[k] == order[k]);
        }
        lemma_record_prefix(n, pre, outs);
        assert forall|j: int| 0 <= j < n implies #[trigger] order.contains(j as nat) == (pre.contains(j as nat)
            || order.last() == j) by {
            if pre.contains(j as nat) {
                let k = choose|k: int| 0 <= k < pre.len() && pre[k] == j as nat;
                assert(order[k] == j as nat);
            }
            if order.contains(j as nat) && order.last() != j {
                let k = choose|k: int| 0 <= k < order.len() && order[k] == j as nat;
                assert(k < order.len() - 1);
                assert(pre[k] == j as nat);
            }
            if order.last() == j {
                assert(order[order.len() - 1] == j as nat);
            }
        }
    }
}

/// However the batches interleave, once every batch has recorded its own
/// output (each position `0 .. n` appearing in `order`, repeats allowed), all
/// slots are filled and the job's output is the batches' outputs
/// concatenated in batch order.
pub proof fn lemma_order_preserved<T>(order: Seq<nat>, outs: Seq<Seq<T>>)
    requires
        forall|k: int| 0 <= k < order.len() ==> #[trigger] order[k] < outs.len(),
        forall|j: int| 0 <= j < outs.len() ==> #[trigger] order.contains(j as nat),
    ensures
        all_recorded(record_all(empty_slots(outs.len()), order, outs)),
        concat_outputs(
            slot_outputs(record_all(empty_slots(outs.len()), order, outs)),
        ) == concat_outputs(outs),
{
    let n = outs.len();
    lemma_record_prefix(n, order, outs);
    let slots = record_all(empty_slots(n), order, outs);
    assert forall|i: int| 0 <= i < slots.len() implies #[trigger] slots[i] is Some by {
        assert(order.contains(i as nat));
    }
    assert forall|i: int| 0 <= i < n implies #[trigger] slot_outputs(slots)[i] == outs[i] by {
        assert(order.contains(i as nat));
    }
    assert(slot_outputs(slots) =~= outs);
}

proof fn lemma_concat_front<T>(first: Seq<T>, rest: Seq<Seq<T>>)
    ensures
        concat_outputs(seq![first] + rest) == first + concat_outputs(rest),
    decreases rest.len(),
{
    if rest.len() == 0 {
        assert((seq![first] + rest).drop_last() =~= Seq::<Seq<T>>::empty());
        assert((seq![first] + rest).last() == first);
        assert(concat_outputs((seq![first] + rest).drop_last()) == Seq::<T>::empty());
        assert(first + Seq::<T>::empty() =~= first);
        assert(Seq::<T>::empty() + first =~= first);
    } else {
        assert((seq![first] + rest).drop_last() =~= seq![first] + rest.drop_last());
        lemma_concat_front(first, rest.drop_last());
        assert((seq![first] + rest).last() == rest.last());
        assert(first + concat_outputs(rest.drop_last()) + rest.last() =~= first + (concat_outputs(
            rest.drop_last(),
        ) + rest.last()));
    }
}

/// The batches of `start .. end` are non-empty, hold at most `size` frames
/// each, and together hold every frame of `start .. end` once, in order.
pub proof fn lemma_chunks_partition(start: int, end: int, size: int)
    requires
        size > 0,
        start <= end,
    ensures
        concat_outputs(chunks_from(start, end, size)) == frame_range(start, end),
        forall|k: int|
            0 <= k < chunks_from(start, end, size).len() ==> 0 < #[trigger] chunks_from(
                start,
                end,
                size,
            )[k].len() <= size,
    decreases end - start,
{
    if start < end {
        let stop = if start + size < end {
            start + size
        } else {
            end
        };
        lemma_chunks_partition(stop, end, size);
        let rest = chunks_from(stop, end, size);
        lemma_concat_front(frame_range(start, stop), rest);
        assert(frame_range(start, stop) + frame_range(stop, end) =~= frame_range(start, end));
        assert forall|k: int| 0 <= k < chunks_from(start, end, size).len() implies 0
            < #[trigger] chunks_from(start, end, size)[k].len() <= size by {
            if k > 0 {
                assert(chunks_from(start, end, size)[k] == rest[k - 1]);
            }
        }
    } else {
        assert(frame_range(start, end) =~= Seq::<usize>::empty());
    }
}

/// The batches of a job are non-empty, hold at most `batch_size` frames
/// each, and together hold the frames `1 .. number_of_frames` once each, in
/// order.
pub proof fn lemma_frame_batches_partition(batch_size: nat, number_of_frames: nat)
    requires
        batch_size > 0,
    ensures
        number_of_frames >= 1 ==> concat_outputs(frame_batches(batch_size, number_of_frames))
            == frame_range(1, number_of_frames as int),
        forall|k: int|
            0 <= k < frame_batches(batch_size, number_of_frames).len() ==> 0
                < #[trigger] frame_batches(batch_size, number_of_frames)[k].len() <= batch_size,
{
    if number_of_frames >= 1 {
        lemma_chunks_partition(1, number_of_frames as int, batch_size as int);
    }
}

} // verus!
