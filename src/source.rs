//! The source stage: turns each read of the input into the messages it sends.
use vstd::prelude::*;
use crate::meter::ends_meter;
use crate::sink::sink_step;

verus! {

/// The most bytes one read of the input asks for.
pub const CHUNK_SIZE: usize = 65536;

/// What one read of the input gave.
#[derive(PartialEq, Eq, Structural, Debug, Clone, Copy)]
pub enum ReadOutcome {
    /// This many bytes were placed at the front of the buffer; zero at the
    /// end of the input.
    Filled(usize),
    /// The read failed.
    Failed,
}

/// What the source stage does after one read.
#[derive(Debug)]
pub enum SourceAction {
    /// Send `count` to the meter and `chunk` to the sink, then read again.
    Forward { count: usize, chunk: Vec<u8> },
    /// Send the sentinel on both channels and stop.
    Finish,
}

impl SourceAction {
    /// The chunk that is sent to the sink, if any.
    pub open spec fn chunk_view(self) -> Option<Seq<u8>> {
        match self {
            SourceAction::Forward { count, chunk } => Some(chunk@),
            SourceAction::Finish => None,
        }
    }
}

/// The chunk that a read forwards: the bytes read, unless there were none
/// or the read failed, either of which ends the input.
pub open spec fn source_step(buffer: Seq<u8>, outcome: ReadOutcome) -> Option<Seq<u8>> {
    match outcome {
        ReadOutcome::Filled(n) => if n > 0 { Some(buffer.take(n as int)) } else { None },
        ReadOutcome::Failed => None,
    }
}

/// Decides what to send after a read into `buffer` gave `outcome`.
pub fn source_action(buffer: &[u8], outcome: ReadOutcome) -> (r: SourceAction)
    requires
        outcome matches ReadOutcome::Filled(n) ==> n <= buffer@.len(),
    ensures
        r.chunk_view() == source_step(buffer@, outcome),
        r matches SourceAction::Forward { count, chunk } ==> count == chunk@.len(),
{
    let n: usize = match outcome {
        ReadOutcome::Filled(n) => n,
        ReadOutcome::Failed => 0,
    };
    if n == 0 {
        return SourceAction::Finish;
    }
    let mut chunk: Vec<u8> = Vec::with_capacity(n);
    let mut i: usize = 0;
    while i < n
        invariant
            n <= buffer@.len(),
            i <= n,
            chunk@ == buffer@.take(i as int),
        decreases n - i,
    {
        chunk.push(buffer[i]);
        i = i + 1;
        assert(chunk@ =~= buffer@.take(i as int));
    }
    SourceAction::Forward { count: n, chunk }
}

/// Whether the source reads again after handing a chunk to the data
/// channel: only if the sink end took it; a closed channel ends the stage.
pub fn keep_reading(delivered: bool) -> (r: bool)
    ensures
        r == delivered,
{
    delivered
}

/// The end-of-stream markers the source sends when it stops: the count `0`
/// to the meter and the empty chunk to the sink, each of which ends its
/// stage.
pub fn end_of_stream() -> (r: (usize, Vec<u8>))
    ensures
        r.0 == 0,
        r.1@.len() == 0,
        ends_meter(Some(r.0)),
        sink_step(Some(r.1@)) is None,
{
    (0, Vec::new())
}

} // verus!
