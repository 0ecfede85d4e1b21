//! Cutting a stream of samples that arrives in chunks of any length into the
//! frames of fixed length that a model scores.
//!
//! Samples wait in a buffer. A delivery appends its chunk; then whole frames
//! are taken off the front, one at a time, and what is shorter than a frame
//! stays for the next delivery.
use vstd::arithmetic::div_mod::lemma_fundamental_div_mod;
use vstd::arithmetic::div_mod::lemma_fundamental_div_mod_converse;
use vstd::arithmetic::div_mod::lemma_mod_pos_bound;
use vstd::arithmetic::div_mod::lemma_small_mod;
use vstd::arithmetic::div_mod::lemma_basic_div;
use vstd::arithmetic::mul::lemma_mul_is_distributive_add_other_way;
use vstd::prelude::*;
use vstd::slice::slice_to_vec;

verus! {

/// The number of whole frames of `frame` samples among `samples` samples.
pub open spec fn whole_frames(samples: nat, frame: nat) -> nat {
    samples / frame
}

/// The frame number `k`, counted from zero, of `samples`.
pub open spec fn frame_at<T>(samples: Seq<T>, frame: nat, k: int) -> Seq<T> {
    samples.subrange(k * frame, k * frame + frame)
}

/// What stays of `samples` once every whole frame is taken off its front.
pub open spec fn leftover<T>(samples: Seq<T>, frame: nat) -> Seq<T> {
    samples.subrange(samples.len() - samples.len() % frame, samples.len() as int)
}

/// Appends the samples of `data` to `buffer`.
pub fn append_chunk<T: Copy>(buffer: &mut Vec<T>, data: &[T])
    ensures
        final(buffer)@ == old(buffer)@ + data@,
{
    let mut chunk = slice_to_vec(data);
    buffer.append(&mut chunk);
}

/// Takes the first `samples_per_frame` samples off `buffer`.
pub fn take_frame<T>(buffer: &mut Vec<T>, samples_per_frame: usize) -> (frame: Vec<T>)
    requires
        samples_per_frame <= old(buffer)@.len(),
    ensures
        frame@ == old(buffer)@.subrange(0, samples_per_frame as int),
        final(buffer)@ == old(buffer)@.subrange(
            samples_per_frame as int,
            old(buffer)@.len() as int,
        ),
{
    let mut rest = buffer.split_off(samples_per_frame);
    core::mem::swap(buffer, &mut rest);
    rest
}

/// After `taken` whole frames, what remains of `total` is shorter than a
/// frame exactly when every whole frame has been taken.
pub proof fn lemma_all_frames_taken(total: nat, frame: nat, taken: nat, remaining: nat)
    requires
        frame > 0,
        total == taken * frame + remaining,
        remaining < frame,
    ensures
        taken == whole_frames(total, frame),
        remaining == total % frame,
{
    lemma_fundamental_div_mod_converse(total as int, frame as int, taken as int, remaining as int);
}

/// The chunks of `chunks`, one after another.
pub open spec fn joined<T>(chunks: Seq<Seq<T>>) -> Seq<T>
    decreases chunks.len(),
{
    if chunks.len() == 0 {
        Seq::empty()
    } else {
        joined(chunks.drop_last()) + chunks.last()
    }
}

/// What waits in the buffer after the chunks of `chunks` were delivered one
/// by one, each followed by the taking of every whole frame.
pub open spec fn buffer_after<T>(buffer: Seq<T>, chunks: Seq<Seq<T>>, frame: nat) -> Seq<T>
    decreases chunks.len(),
{
    if chunks.len() == 0 {
        buffer
    } else {
        leftover(buffer_after(buffer, chunks.drop_last(), frame) + chunks.last(), frame)
    }
}

/// The number of frames taken, over all deliveries of `chunks`.
pub open spec fn frames_taken<T>(buffer: Seq<T>, chunks: Seq<Seq<T>>, frame: nat) -> nat
    decreases chunks.len(),
{
    if chunks.len() == 0 {
        0
    } else {
        frames_taken(buffer, chunks.drop_last(), frame) + whole_frames(
            (buffer_after(buffer, chunks.drop_last(), frame) + chunks.last()).len(),
            frame,
        )
    }
}

/// What is left over is shorter than a frame, and is what was there where
/// that was shorter than a frame already.
pub proof fn lemma_leftover_is_short<T>(samples: Seq<T>, frame: nat)
    requires
        frame > 0,
    ensures
        leftover(samples, frame).len() == samples.len() % frame,
        leftover(samples, frame).len() < frame,
        samples.len() < frame ==> leftover(samples, frame) == samples && whole_frames(
            samples.len(),
            frame,
        ) == 0,
{
    lemma_mod_pos_bound(samples.len() as int, frame as int);
    lemma_fundamental_div_mod(samples.len() as int, frame as int);
    if samples.len() < frame {
        lemma_small_mod(samples.len(), frame);
        lemma_basic_div(samples.len() as int, frame as int);
        assert(leftover(samples, frame) =~= samples);
    }
}

/// To deliver one more chunk to what an earlier stream left over gives the
/// same as to have had the chunk at the end of that stream.
pub proof fn lemma_delivery_extends<T>(earlier: Seq<T>, chunk: Seq<T>, frame: nat)
    requires
        frame > 0,
    ensures
        leftover(leftover(earlier, frame) + chunk, frame) == leftover(earlier + chunk, frame),
        whole_frames(earlier.len(), frame) + whole_frames(
            (leftover(earlier, frame) + chunk).len(),
            frame,
        ) == whole_frames((earlier + chunk).len(), frame),
{
    let f = frame as int;
    let n = earlier.len() as int;
    let q1 = n / f;
    let r1 = n % f;
    lemma_fundamental_div_mod(n, f);
    lemma_mod_pos_bound(n, f);
    let waiting = leftover(earlier, frame) + chunk;
    let m = waiting.len() as int;
    assert(m == r1 + chunk.len());
    let q2 = m / f;
    let r2 = m % f;
    lemma_fundamental_div_mod(m, f);
    lemma_mod_pos_bound(m, f);
    let all = earlier + chunk;
    assert(all.len() == n + chunk.len());
    assert(all.len() == (q1 + q2) * f + r2) by {
        lemma_mul_is_distributive_add_other_way(f, q1, q2);
        assert(f * q1 == q1 * f) by (nonlinear_arith);
        assert(f * q2 == q2 * f) by (nonlinear_arith);
    }
    lemma_fundamental_div_mod_converse(all.len() as int, f, q1 + q2, r2);
    assert(leftover(waiting, frame) =~= leftover(all, frame));
}

/// Deliveries compose: however a stream is cut into chunks, the frames taken
/// over all deliveries are as many as the whole stream holds, and what waits
/// in the end is what the whole stream leaves over.
pub proof fn lemma_deliveries_compose<T>(buffer: Seq<T>, chunks: Seq<Seq<T>>, frame: nat)
    requires
        frame > 0,
        buffer.len() < frame,
    ensures
        buffer_after(buffer, chunks, frame) == leftover(buffer + joined(chunks), frame),
        frames_taken(buffer, chunks, frame) == whole_frames(
            (buffer + joined(chunks)).len(),
            frame,
        ),
    decreases chunks.len(),
{
    if chunks.len() == 0 {
        assert(buffer + joined(chunks) =~= buffer);
        lemma_leftover_is_short(buffer, frame);
    } else {
        let earlier_chunks = chunks.drop_last();
        lemma_deliveries_compose(buffer, earlier_chunks, frame);
        let earlier = buffer + joined(earlier_chunks);
        lemma_delivery_extends(earlier, chunks.last(), frame);
        assert(earlier + chunks.last() =~= buffer + joined(chunks));
    }
}

/// Chunks that are each shorter than a frame and together exactly one frame,
/// delivered to an empty buffer, have one frame taken and leave nothing; a
/// further chunk shorter than a frame then waits alone, with no frame taken.
pub proof fn lemma_one_frame_in_pieces<T>(chunks: Seq<Seq<T>>, further: Seq<T>, frame: nat)
    requires
        frame > 0,
        forall|i: int| 0 <= i < chunks.len() ==> (#[trigger] chunks[i]).len() < frame,
        joined(chunks).len() == frame,
        further.len() < frame,
    ensures
        frames_taken(Seq::<T>::empty(), chunks, frame) == 1,
        buffer_after(Seq::<T>::empty(), chunks, frame) == Seq::<T>::empty(),
        frames_taken(Seq::<T>::empty(), chunks.push(further), frame) == 1,
        buffer_after(Seq::<T>::empty(), chunks.push(further), frame) == further,
{
    let empty = Seq::<T>::empty();
    lemma_deliveries_compose(empty, chunks, frame);
    assert(empty + joined(chunks) =~= joined(chunks));
    lemma_fundamental_div_mod_converse(frame as int, frame as int, 1, 0);
    assert(leftover(joined(chunks), frame) =~= empty);
    let more = chunks.push(further);
    assert(more.drop_last() =~= chunks);
    assert(more.last() == further);
    assert(empty + further =~= further);
    lemma_leftover_is_short(further, frame);
}

} // verus!
