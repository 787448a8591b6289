//! How the stages fit together: channel sizes, the verdict over the three
//! stages, and the laws of a whole run.
use vstd::prelude::*;
use crate::meter::{ends_meter, Stats};
use crate::sink::{sink_step, write_failure_spec};
use crate::source::{source_step, ReadOutcome};

verus! {

/// How many chunks the data channel holds before the source waits.
pub const DATA_CHANNEL_CAPACITY: usize = 1024;

/// How one stage ended.
#[derive(Debug)]
pub enum StageOutcome<E> {
    /// It finished cleanly.
    Done,
    /// It stopped on an error of its own.
    Failed(E),
    /// It crashed.
    Crashed,
}

/// The verdict over the three stages: a crash of any stage first, else the
/// first error in the order source, meter, sink, else success.
pub open spec fn combine_spec<E>(
    source: StageOutcome<E>,
    meter: StageOutcome<E>,
    sink: StageOutcome<E>,
) -> StageOutcome<E> {
    if source is Crashed || meter is Crashed || sink is Crashed {
        StageOutcome::Crashed
    } else if source is Failed {
        source
    } else if meter is Failed {
        meter
    } else if sink is Failed {
        sink
    } else {
        StageOutcome::Done
    }
}

/// Folds the outcomes of the three stages into the outcome of the run.
pub fn combine_outcomes<E>(
    source: StageOutcome<E>,
    meter: StageOutcome<E>,
    sink: StageOutcome<E>,
) -> (r: StageOutcome<E>)
    ensures
        r == combine_spec(source, meter, sink),
{
    if matches!(source, StageOutcome::Crashed) || matches!(meter, StageOutcome::Crashed)
        || matches!(sink, StageOutcome::Crashed) {
        return StageOutcome::Crashed;
    }
    if matches!(source, StageOutcome::Failed(_)) {
        return source;
    }
    if matches!(meter, StageOutcome::Failed(_)) {
        return meter;
    }
    if matches!(sink, StageOutcome::Failed(_)) {
        return sink;
    }
    StageOutcome::Done
}

/// The bytes of `chunks`, one after another.
pub open spec fn flatten(chunks: Seq<Seq<u8>>) -> Seq<u8>
    decreases chunks.len(),
{
    if chunks.len() == 0 {
        Seq::empty()
    } else {
        chunks[0] + flatten(chunks.drop_first())
    }
}

/// The messages that the source sends on the data channel for `input` when
/// every read fills as much of a `cap`-byte buffer as the input has left.
pub open spec fn source_messages(input: Seq<u8>, cap: usize) -> Seq<Seq<u8>>
    decreases input.len(),
{
    let n: int = if input.len() < cap { input.len() as int } else { cap as int };
    match source_step(input, ReadOutcome::Filled(n as usize)) {
        Some(c) => if n > 0 {
            seq![c] + source_messages(input.skip(n), cap)
        } else {
            seq![Seq::empty()]
        },
        None => seq![Seq::empty()],
    }
}

/// The messages that the source sends on the data channel for `input` when
/// its reads return `sizes[0]`, `sizes[1]`, ... bytes, each cut to what the
/// input has left; the first read that returns nothing, or a read past the
/// last size, ends the input.
pub open spec fn source_run(input: Seq<u8>, sizes: Seq<usize>) -> Seq<Seq<u8>>
    decreases sizes.len(),
{
    if sizes.len() == 0 {
        seq![Seq::empty()]
    } else {
        let n: int = if input.len() < sizes[0] { input.len() as int } else { sizes[0] as int };
        match source_step(input, ReadOutcome::Filled(n as usize)) {
            Some(c) => seq![c] + source_run(input.skip(n), sizes.drop_first()),
            None => seq![Seq::empty()],
        }
    }
}

/// The bytes that the sink writes when it is handed `msgs` in order.
pub open spec fn sink_written(msgs: Seq<Seq<u8>>) -> Seq<u8>
    decreases msgs.len(),
{
    if msgs.len() == 0 {
        Seq::empty()
    } else {
        match sink_step(Some(msgs[0])) {
            Some(b) => b + sink_written(msgs.drop_first()),
            None => Seq::empty(),
        }
    }
}

/// The byte counts that go to the meter alongside `msgs`.
pub open spec fn chunk_counts(msgs: Seq<Seq<u8>>) -> Seq<usize> {
    Seq::new(msgs.len(), |i: int| msgs[i].len() as usize)
}

/// The total that the meter reaches when it is handed `counts` in order.
pub open spec fn metered_total(counts: Seq<usize>) -> nat
    decreases counts.len(),
{
    if counts.len() == 0 || ends_meter(Some(counts[0])) {
        0
    } else {
        counts[0] as nat + metered_total(counts.drop_first())
    }
}

/// Every data message of a run is a non-empty chunk of at most `cap` bytes,
/// the last message is the empty sentinel, and the chunks make up the input.
pub proof fn lemma_source_messages_shape(input: Seq<u8>, cap: usize)
    requires
        cap >= 1,
    ensures
        source_messages(input, cap).len() >= 1,
        source_messages(input, cap).last().len() == 0,
        forall|i: int| 0 <= i < source_messages(input, cap).len() - 1
            ==> 0 < #[trigger] source_messages(input, cap)[i].len() <= cap,
        flatten(source_messages(input, cap)) == input,
    decreases input.len(),
{
    let msgs = source_messages(input, cap);
    if input.len() == 0 {
        assert(msgs =~= seq![Seq::<u8>::empty()]);
        assert(flatten(msgs.drop_first()) == Seq::<u8>::empty());
        assert(flatten(msgs) =~= input);
    } else {
        let n: int = if input.len() < cap { input.len() as int } else { cap as int };
        let rest = source_messages(input.skip(n), cap);
        lemma_source_messages_shape(input.skip(n), cap);
        assert(msgs == seq![input.take(n)] + rest);
        assert(msgs.drop_first() =~= rest);
        assert forall|i: int| 0 <= i < msgs.len() - 1 implies 0 < #[trigger] msgs[i].len() <= cap by {
            if i > 0 {
                assert(msgs[i] == rest[i - 1]);
            }
        }
        assert(flatten(msgs) =~= input);
    }
}

/// Whatever the chunk capacity, the bytes written to the output are the
/// bytes read from the input, in the same order.
pub proof fn lemma_relay_round_trip(input: Seq<u8>, cap: usize)
    requires
        cap >= 1,
    ensures
        sink_written(source_messages(input, cap)) == input,
    decreases input.len(),
{
    let msgs = source_messages(input, cap);
    if input.len() == 0 {
        assert(msgs =~= seq![Seq::<u8>::empty()]);
        assert(sink_written(msgs) =~= input);
    } else {
        let n: int = if input.len() < cap { input.len() as int } else { cap as int };
        lemma_relay_round_trip(input.skip(n), cap);
        assert(msgs.drop_first() =~= source_messages(input.skip(n), cap));
        assert(sink_written(msgs) =~= input);
    }
}

/// Whatever sizes the reads come in, the sink writes the bytes of the
/// chunks that were read, in order, once the sentinel follows them.
pub proof fn lemma_relay_any_reads(pieces: Seq<Seq<u8>>)
    requires
        forall|i: int| 0 <= i < pieces.len() ==> #[trigger] pieces[i].len() > 0,
    ensures
        sink_written(pieces.push(Seq::empty())) == flatten(pieces),
    decreases pieces.len(),
{
    let msgs = pieces.push(Seq::empty());
    if pieces.len() == 0 {
        assert(msgs[0] == Seq::<u8>::empty());
    } else {
        let rest = pieces.drop_first();
        assert forall|i: int| 0 <= i < rest.len() implies #[trigger] rest[i].len() > 0 by {
            assert(rest[i] == pieces[i + 1]);
        }
        lemma_relay_any_reads(rest);
        assert(msgs.drop_first() =~= rest.push(Seq::empty()));
        assert(msgs[0] == pieces[0]);
        assert(pieces[0].len() > 0);
    }
}

/// Whatever sizes the reads come in, from one byte up to the capacity
/// `cap`, as long as there are enough of them to exhaust the input: every
/// data message is a chunk of one to `cap` bytes, the last message is the
/// sentinel, the chunks make up the input, the sink writes exactly the
/// input, and the meter counts its size.
pub proof fn lemma_relay_short_reads(input: Seq<u8>, sizes: Seq<usize>, cap: usize)
    requires
        sizes.len() >= input.len(),
        forall|i: int| 0 <= i < sizes.len() ==> 1 <= #[trigger] sizes[i] <= cap,
    ensures
        source_run(input, sizes).len() >= 1,
        source_run(input, sizes).last().len() == 0,
        forall|i: int| 0 <= i < source_run(input, sizes).len() - 1
            ==> 0 < #[trigger] source_run(input, sizes)[i].len() <= cap,
        flatten(source_run(input, sizes)) == input,
        sink_written(source_run(input, sizes)) == input,
        metered_total(chunk_counts(source_run(input, sizes))) == input.len(),
    decreases sizes.len(),
{
    let msgs = source_run(input, sizes);
    if input.len() == 0 {
        if sizes.len() > 0 {
            assert(source_step(input, ReadOutcome::Filled(0)) is None);
        }
        assert(msgs =~= seq![Seq::<u8>::empty()]);
        assert(flatten(msgs.drop_first()) == Seq::<u8>::empty());
        assert(flatten(msgs) =~= input);
        assert(sink_written(msgs) =~= input);
        assert(chunk_counts(msgs)[0] == 0);
    } else {
        let n: int = if input.len() < sizes[0] { input.len() as int } else { sizes[0] as int };
        let tail = sizes.drop_first();
        assert forall|i: int| 0 <= i < tail.len() implies 1 <= #[trigger] tail[i] <= cap by {
            assert(tail[i] == sizes[i + 1]);
        }
        assert(1 <= sizes[0] <= cap);
        let rest = source_run(input.skip(n), tail);
        lemma_relay_short_reads(input.skip(n), tail, cap);
        assert(msgs == seq![input.take(n)] + rest);
        assert(msgs.drop_first() =~= rest);
        assert forall|i: int| 0 <= i < msgs.len() - 1 implies 0 < #[trigger] msgs[i].len() <= cap by {
            if i > 0 {
                assert(msgs[i] == rest[i - 1]);
            }
        }
        assert(flatten(msgs) =~= input);
        assert(sink_written(msgs) =~= input);
        assert(chunk_counts(msgs).drop_first() =~= chunk_counts(rest));
        assert(chunk_counts(msgs)[0] == n);
    }
}

/// The meter's total over a run equals the sum of the chunk sizes sent,
/// which is the size of the input and of the output alike.
pub proof fn lemma_metered_total(input: Seq<u8>, cap: usize)
    requires
        cap >= 1,
    ensures
        metered_total(chunk_counts(source_messages(input, cap))) == input.len(),
        metered_total(chunk_counts(source_messages(input, cap)))
            == sink_written(source_messages(input, cap)).len(),
    decreases input.len(),
{
    let msgs = source_messages(input, cap);
    lemma_relay_round_trip(input, cap);
    if input.len() == 0 {
        assert(msgs =~= seq![Seq::<u8>::empty()]);
        assert(chunk_counts(msgs)[0] == 0);
    } else {
        let n: int = if input.len() < cap { input.len() as int } else { cap as int };
        lemma_metered_total(input.skip(n), cap);
        assert(msgs.drop_first() =~= source_messages(input.skip(n), cap));
        assert(chunk_counts(msgs).drop_first() =~= chunk_counts(msgs.drop_first()));
        assert(chunk_counts(msgs)[0] == n);
    }
}

/// A meter that takes the counts `counts` one by one, the states it passes
/// through being `states` (each the update of the one before by that
/// count), up to the sentinel that ends the list, ends with its starting
/// total plus `metered_total(counts)`.
pub proof fn lemma_meter_follows_counts(states: Seq<Stats>, counts: Seq<usize>, times: Seq<u64>)
    requires
        counts.len() >= 1,
        states.len() == counts.len(),
        times.len() == counts.len(),
        ends_meter(Some(counts.last())),
        forall|i: int|
            #![trigger counts[i]]
            0 <= i < counts.len() - 1 ==> {
                &&& !ends_meter(Some(counts[i]))
                &&& states[i].update_spec(states[i + 1], counts[i] as nat, times[i])
            },
    ensures
        states.last().total() == states[0].total() + metered_total(counts),
    decreases counts.len(),
{
    if counts.len() > 1 {
        let (s2, c2, t2) = (states.drop_first(), counts.drop_first(), times.drop_first());
        assert forall|i: int|
            #![trigger c2[i]]
            0 <= i < c2.len() - 1 implies {
                &&& !ends_meter(Some(c2[i]))
                &&& s2[i].update_spec(s2[i + 1], c2[i] as nat, t2[i])
            } by {
            let j = i + 1;
            assert(counts[j] == c2[i]);
            assert(states[j] == s2[i] && states[j + 1] == s2[i + 1] && times[j] == t2[i]);
        }
        lemma_meter_follows_counts(s2, c2, t2);
        assert(!ends_meter(Some(counts[0])));
        assert(counts.drop_first() == c2);
    }
}

/// A sentinel as the first message ends both downstream stages before they
/// write or count anything, whatever follows it; an empty input sends just
/// that sentinel.
pub proof fn lemma_sentinel_first(rest: Seq<Seq<u8>>, counts: Seq<usize>, cap: usize)
    requires
        cap >= 1,
    ensures
        sink_written(seq![Seq::<u8>::empty()] + rest) == Seq::<u8>::empty(),
        metered_total(seq![0usize] + counts) == 0,
        source_messages(Seq::<u8>::empty(), cap) == seq![Seq::<u8>::empty()],
        sink_written(source_messages(Seq::<u8>::empty(), cap)) == Seq::<u8>::empty(),
        metered_total(chunk_counts(source_messages(Seq::<u8>::empty(), cap))) == 0,
{
    assert((seq![Seq::<u8>::empty()] + rest)[0] == Seq::<u8>::empty());
    assert((seq![0usize] + counts)[0] == 0);
    assert(source_messages(Seq::<u8>::empty(), cap) =~= seq![Seq::<u8>::empty()]);
    assert(chunk_counts(seq![Seq::<u8>::empty()])[0] == 0);
}

/// A broken pipe on the output, in a run where the source and the meter
/// finished cleanly, makes the whole run a success.
pub proof fn lemma_broken_pipe_is_success<E>(source: StageOutcome<E>, meter: StageOutcome<E>, err: E)
    requires
        source is Done,
        meter is Done,
    ensures
        combine_spec(source, meter, write_failure_spec(true, err)) is Done,
{
}

} // verus!
