use vstd::prelude::*;

use ringbuf::traits::{Consumer, Observer, Producer, Split};
use ringbuf::{HeapCons, HeapProd, HeapRb};

use crate::player_thread::{prefill_step, prefill_target, spec_prefill_step, PREFILL_GUARD};

verus! {

/// Writing half of the sample ring (a `ringbuf::HeapRb<i16>` split in two).
/// It moves to the player thread; the reading half goes to the audio
/// callback, which drains it concurrently.
#[verifier::external_body]
pub struct SampleProducer {
    inner: HeapProd<i16>,
}

/// Reading half of the sample ring, drained by the audio callback.
#[verifier::external_body]
pub struct SampleConsumer {
    inner: HeapCons<i16>,
}

/// Number of samples the ring behind `p` holds at most. Fixed when the ring
/// is made.
pub uninterp spec fn producer_capacity(p: SampleProducer) -> nat;

/// Every sample `p` has put into its ring since the ring was made, oldest
/// first. The ring holds a suffix of it (what the consumer has not taken
/// yet), so fewer than `producer_written(p).len()` samples are ever queued.
pub uninterp spec fn producer_written(p: SampleProducer) -> Seq<i16>;

/// Every sample `c` has taken out of its ring since the ring was made,
/// oldest first.
pub uninterp spec fn consumer_taken(c: SampleConsumer) -> Seq<i16>;

/// Samples the consumer `c` sees queued: those between its read position
/// and the ring's write position as `c` last fetched it (ringbuf's caching
/// consumer refetches that position only when it runs out), oldest first.
pub uninterp spec fn consumer_queue(c: SampleConsumer) -> Seq<i16>;

/// Room the ring is sure to have for `p`: the capacity less everything `p`
/// ever wrote (the consumer can only have made more), or none.
pub open spec fn sure_room(p: SampleProducer) -> int {
    if producer_written(p).len() <= producer_capacity(p) {
        producer_capacity(p) - producer_written(p).len()
    } else {
        0
    }
}

/// `n` samples of silence.
pub open spec fn silence(n: nat) -> Seq<i16> {
    Seq::new(n, |i: int| 0i16)
}

/// Makes a `ringbuf::HeapRb<i16>` of `capacity` slots with `HeapRb::new` and
/// splits it with `Split::split`. The producer's capacity is the one asked
/// for (ringbuf allocates exactly that many slots); nothing has been written
/// or taken yet.
#[verifier::external_body]
fn sample_ring(capacity: usize) -> (r: (SampleProducer, SampleConsumer))
    requires
        capacity > 0,
    ensures
        producer_capacity(r.0) == capacity,
        producer_written(r.0) == Seq::<i16>::empty(),
        consumer_taken(r.1) == Seq::<i16>::empty(),
        consumer_queue(r.1) == Seq::<i16>::empty(),
{
    let (p, c) = HeapRb::<i16>::new(capacity).split();
    (SampleProducer { inner: p }, SampleConsumer { inner: c })
}

impl SampleProducer {
    /// Appends one sample with `Producer::try_push`; a full ring hands the
    /// sample back. The ring is never full while fewer samples than its
    /// capacity were ever written (ringbuf counts the free slots as the
    /// capacity less the written-but-unread ones).
    #[verifier::external_body]
    fn try_push(&mut self, sample: i16) -> (r: Result<(), i16>)
        ensures
            r matches Err(s) ==> s == sample,
            r is Ok ==> producer_written(*final(self)) == producer_written(*old(self)).push(sample),
            r is Err ==> producer_written(*final(self)) == producer_written(*old(self)),
            sure_room(*old(self)) > 0 ==> r is Ok,
            producer_capacity(*final(self)) == producer_capacity(*old(self)),
    {
        self.inner.try_push(sample)
    }

    /// Appends as many leading samples of `samples` as fit, with
    /// `Producer::push_slice`, and returns how many that was: all of them,
    /// or as many as the ring had free slots. How many slots the concurrent
    /// consumer has freed is unknown, so only the sure room bounds the count
    /// from below.
    #[verifier::external_body]
    fn push_slice(&mut self, samples: &[i16]) -> (r: usize)
        ensures
            r <= samples@.len(),
            r >= vstd::math::min(samples@.len() as int, sure_room(*old(self))),
            producer_written(*final(self)) == producer_written(*old(self)) + samples@.take(r as int),
            producer_capacity(*final(self)) == producer_capacity(*old(self)),
    {
        self.inner.push_slice(samples)
    }

    /// Samples queued right now, by `Observer::occupied_len`: never more than
    /// the capacity, nor than this producer ever wrote. The consumer drains
    /// concurrently, so nothing more is claimed of the number.
    #[verifier::external_body]
    fn occupied_len(&self) -> (r: usize)
        ensures
            r <= producer_capacity(*self),
            r <= producer_written(*self).len(),
    {
        self.inner.occupied_len()
    }

    /// The ring's capacity, by `Observer::capacity`, which ringbuf documents
    /// as constant for the ring's whole life.
    #[verifier::external_body]
    fn capacity(&self) -> (r: usize)
        ensures
            r == producer_capacity(*self),
    {
        self.inner.capacity().get()
    }

    /// One round of queueing `samples[written..]`: pushes what the ring has
    /// room for and returns how far into `samples` has now been queued. The
    /// caller waits and calls again until the result reaches the length.
    pub fn push_from(&mut self, samples: &[i16], written: usize) -> (r: usize)
        requires
            written <= samples@.len(),
        ensures
            written <= r <= samples@.len(),
            r >= written + vstd::math::min(samples@.len() - written, sure_room(*old(self))),
            producer_written(*final(self)) == producer_written(*old(self)) + samples@.subrange(
                written as int,
                r as int,
            ),
            producer_capacity(*final(self)) == producer_capacity(*old(self)),
    {
        let rest = vstd::slice::slice_subrange(samples, written, samples.len());
        let n = self.push_slice(rest);
        assert(rest@.take(n as int) =~= samples@.subrange(written as int, written + n));
        written + n
    }

    /// Samples the prefill aims to have queued: `target_ms` of audio for
    /// `channels` channels at `sample_rate`, capped 64 samples short of
    /// this ring's capacity.
    pub fn prefill_goal(&self, sample_rate: u32, channels: u16, target_ms: u32) -> (r: usize)
        requires
            (sample_rate * target_ms / 1000) * channels <= usize::MAX,
        ensures
            r == vstd::math::min(
                (sample_rate * target_ms / 1000) * channels,
                if producer_capacity(*self) >= 64 {
                    producer_capacity(*self) - 64
                } else {
                    0
                },
            ),
    {
        let cap = self.capacity();
        prefill_target(sample_rate, channels, target_ms, cap)
    }

    /// Whether the prefill should run another emulator step: `prefill_step`
    /// applied to the number of samples queued right now. That number changes
    /// under the concurrent consumer; it is never more than the capacity nor
    /// than everything ever written.
    pub fn needs_prefill(&self, target: usize, guard: u32) -> (r: bool)
        ensures
            exists|queued: usize|
                #![trigger spec_prefill_step(queued, target, guard)]
                {
                    &&& queued <= producer_capacity(*self)
                    &&& queued <= producer_written(*self).len()
                    &&& r == spec_prefill_step(queued, target, guard)
                },
            r ==> guard < PREFILL_GUARD && target > 0,
            guard < PREFILL_GUARD && (target > producer_capacity(*self) || target
                > producer_written(*self).len()) ==> r,
    {
        let queued = self.occupied_len();
        prefill_step(queued, target, guard)
    }
}

impl SampleConsumer {
    /// Takes the oldest queued sample with `Consumer::try_pop`. While the
    /// consumer's queue holds samples, that is its first one. When it is
    /// empty, ringbuf refetches the producer's position first: `None` then
    /// means the ring was found empty; a sample that arrived meanwhile may
    /// come back instead, and which of the two happens is not claimed.
    #[verifier::external_body]
    fn try_pop(&mut self) -> (r: Option<i16>)
        ensures
            consumer_queue(*old(self)).len() > 0 ==> r == Some(consumer_queue(*old(self))[0])
                && consumer_queue(*final(self)) == consumer_queue(*old(self)).drop_first(),
            r is None ==> consumer_queue(*old(self)).len() == 0 && consumer_queue(
                *final(self),
            ).len() == 0,
            r matches Some(s) ==> consumer_taken(*final(self)) == consumer_taken(*old(self)).push(s),
            r is None ==> consumer_taken(*final(self)) == consumer_taken(*old(self)),
    {
        self.inner.try_pop()
    }

    /// Moves queued samples, oldest first, into the front of `out` until
    /// `out` is full or the ring is empty, and returns how many were moved.
    /// Everything the consumer already saw queued comes first, in order (as
    /// much of it as fits); what the concurrent producer added since may
    /// follow. Stopping short of a full `out` means the ring was found empty.
    /// The slots past the count are left as they were.
    pub fn drain_into(&mut self, out: &mut [i16]) -> (r: usize)
        ensures
            final(out)@.len() == old(out)@.len(),
            r <= old(out)@.len(),
            r >= vstd::math::min(old(out)@.len() as int, consumer_queue(*old(self)).len() as int),
            forall|i: int|
                0 <= i < vstd::math::min(r as int, consumer_queue(*old(self)).len() as int)
                    ==> final(out)@[i] == consumer_queue(*old(self))[i],
            r < old(out)@.len() ==> consumer_queue(*final(self)).len() == 0,
            r < consumer_queue(*old(self)).len() ==> consumer_queue(*final(self))
                == consumer_queue(*old(self)).subrange(r as int, consumer_queue(*old(self)).len() as int),
            forall|i: int| r <= i < old(out)@.len() ==> final(out)@[i] == old(out)@[i],
            consumer_taken(*final(self)) == consumer_taken(*old(self)) + final(out)@.take(r as int),
    {
        let ghost q0 = consumer_queue(*self);
        let mut filled: usize = 0;
        let len = out.len();
        while filled < len
            invariant
                filled <= len,
                len == out@.len(),
                q0 == consumer_queue(*old(self)),
                forall|i: int| filled <= i < len ==> out@[i] == old(out)@[i],
                consumer_taken(*self) == consumer_taken(*old(self)) + out@.take(filled as int),
                filled <= q0.len() ==> consumer_queue(*self) == q0.subrange(
                    filled as int,
                    q0.len() as int,
                ),
                forall|i: int|
                    0 <= i < vstd::math::min(filled as int, q0.len() as int) ==> out@[i] == q0[i],
            ensures
                filled <= len,
                filled < len ==> consumer_queue(*self).len() == 0,
                filled < len ==> filled >= q0.len(),
            decreases len - filled,
        {
            let ghost before = out@;
            let ghost qb = consumer_queue(*self);
            match self.try_pop() {
                Some(s) => {
                    out[filled] = s;
                    assert(out@.take(filled + 1) =~= before.take(filled as int).push(s));
                    proof {
                        if filled < q0.len() {
                            assert(qb[0] == q0[filled as int]);
                            assert(consumer_queue(*self) =~= q0.subrange(
                                filled + 1,
                                q0.len() as int,
                            ));
                        }
                    }
                    filled = filled + 1;
                },
                None => {
                    proof {
                        if filled < q0.len() {
                            assert(qb.len() > 0);
                        }
                    }
                    break;
                },
            }
        }
        filled
    }
}

/// Opens the sample ring for a device of `sample_rate` and `channels`: a ring
/// of `ring_capacity` slots with `silence_prefill_len` samples of silence
/// queued, and nothing taken from it yet.
pub fn open_sample_ring(sample_rate: u32, channels: u16) -> (r: (SampleProducer, SampleConsumer))
    requires
        (sample_rate / 5) * channels <= usize::MAX,
    ensures
        producer_capacity(r.0) == vstd::math::max((sample_rate / 5) * channels, 4096),
        producer_written(r.0) == silence(((sample_rate / 10) * channels) as nat),
        consumer_taken(r.1) == Seq::<i16>::empty(),
        consumer_queue(r.1) == Seq::<i16>::empty(),
{
    let cap = ring_capacity(sample_rate, channels);
    let (mut producer, consumer) = sample_ring(cap);
    assert((sample_rate / 10) * channels <= (sample_rate / 5) * channels) by (nonlinear_arith)
        requires sample_rate >= 0, channels >= 0;
    let n = silence_prefill_len(sample_rate, channels);
    queue_silence(&mut producer, n);
    assert(Seq::<i16>::empty() + silence(n as nat) =~= silence(n as nat));
    (producer, consumer)
}

/// Ring size for a device: about 200 ms of audio for all its channels, and
/// never less than 4096 samples.
pub fn ring_capacity(sample_rate: u32, channels: u16) -> (r: usize)
    requires
        (sample_rate / 5) * channels <= usize::MAX,
    ensures
        r == vstd::math::max((sample_rate / 5) * channels, 4096),
{
    let per_channel: usize = (sample_rate / 5) as usize;
    let total: usize = if channels == 0 {
        0
    } else {
        per_channel * (channels as usize)
    };
    if total > 4096 {
        total
    } else {
        4096
    }
}

/// Samples of silence queued when the stream opens: about 100 ms for all
/// channels, so the first callback never finds the ring empty.
pub fn silence_prefill_len(sample_rate: u32, channels: u16) -> (r: usize)
    requires
        (sample_rate / 10) * channels <= usize::MAX,
    ensures
        r == (sample_rate / 10) * channels,
{
    let per_channel: usize = (sample_rate / 10) as usize;
    if channels == 0 {
        0
    } else {
        per_channel * (channels as usize)
    }
}

/// Try to queue `count` silent samples; a full ring just drops the rest.
/// Every push is tried, so all of them go in when the ring is sure to have
/// the room, and at least as many as it is sure to have room for otherwise.
pub fn queue_silence(producer: &mut SampleProducer, count: usize)
    ensures
        producer_capacity(*final(producer)) == producer_capacity(*old(producer)),
        exists|k: nat|
            #![trigger silence(k)]
            {
                &&& k <= count
                &&& k >= vstd::math::min(count as int, sure_room(*old(producer)))
                &&& producer_written(*final(producer)) == producer_written(*old(producer))
                    + silence(k)
            },
{
    let ghost w0 = producer_written(*producer);
    let ghost room = sure_room(*producer);
    let ghost mut k: nat = 0;
    let mut i: usize = 0;
    assert(w0 + silence(0) =~= w0);
    while i < count
        invariant
            i <= count,
            k <= i,
            k >= vstd::math::min(i as int, room),
            producer_capacity(*producer) == producer_capacity(*old(producer)),
            producer_written(*producer) == w0 + silence(k),
            w0 == producer_written(*old(producer)),
            room == sure_room(*old(producer)),
        decreases count - i,
    {
        let r = producer.try_push(0);
        if r.is_ok() {
            proof {
                assert(w0 + silence(k) + seq![0i16] =~= w0 + silence(k + 1));
                k = k + 1;
            }
        }
        i = i + 1;
    }
    assert(producer_written(*producer) == producer_written(*old(producer)) + silence(k));
}

/// What one audio callback did with the output buffer.
#[derive(Clone, Copy, Debug)]
pub struct FillOutcome {
    /// Leading slots filled from the ring.
    pub filled: usize,
    /// The ring ran dry while audio was expected: count an underrun.
    pub underrun: bool,
}

/// Fill the device buffer from the ring: queued samples first, oldest
/// first, silence for whatever the ring could not supply. While no audio is
/// expected the ring is left alone, so what was queued before a pause plays
/// on after it.
pub fn fill_buffer_i16(out: &mut [i16], consumer: &mut SampleConsumer, audio_expected: bool) -> (r:
    FillOutcome)
    ensures
        final(out)@.len() == old(out)@.len(),
        r.filled <= old(out)@.len(),
        forall|i: int| r.filled <= i < final(out)@.len() ==> final(out)@[i] == 0i16,
        r.underrun == (r.filled < old(out)@.len() && audio_expected),
        !audio_expected ==> r.filled == 0 && *final(consumer) == *old(consumer),
        audio_expected ==> r.filled >= vstd::math::min(
            old(out)@.len() as int,
            consumer_queue(*old(consumer)).len() as int,
        ),
        forall|i: int|
            0 <= i < vstd::math::min(r.filled as int, consumer_queue(*old(consumer)).len() as int)
                ==> final(out)@[i] == consumer_queue(*old(consumer))[i],
        audio_expected && r.filled < old(out)@.len() ==> consumer_queue(*final(consumer)).len() == 0,
        consumer_taken(*final(consumer)) == consumer_taken(*old(consumer)) + final(out)@.take(
            r.filled as int,
        ),
{
    let filled = if audio_expected {
        consumer.drain_into(out)
    } else {
        0
    };
    let ghost drained = out@;
    let len = out.len();
    let underrun = filled < len && audio_expected;
    let mut k: usize = filled;
    while k < len
        invariant
            filled <= k <= len,
            len == out@.len(),
            drained.len() == len,
            forall|i: int| filled <= i < k ==> out@[i] == 0i16,
            forall|i: int| 0 <= i < filled ==> out@[i] == drained[i],
        decreases len - k,
    {
        out[k] = 0;
        k = k + 1;
    }
    assert(out@.take(filled as int) =~= drained.take(filled as int));
    FillOutcome { filled, underrun }
}

} // verus!
