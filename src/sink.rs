//! The sink stage: which chunks are written, and how a failed write ends it.
use vstd::prelude::*;
use crate::pipeline::StageOutcome;

verus! {

/// What the sink stage does with one message of the data channel.
#[derive(Debug)]
pub enum SinkAction {
    /// Write these bytes in full, then wait for the next chunk.
    Write(Vec<u8>),
    /// Stop with success.
    Stop,
}

impl SinkAction {
    /// The bytes that are written, if any.
    pub open spec fn bytes_view(self) -> Option<Seq<u8>> {
        match self {
            SinkAction::Write(b) => Some(b@),
            SinkAction::Stop => None,
        }
    }
}

/// A message of the data channel as bytes; `None` when the channel closed.
pub open spec fn message_view(msg: Option<Vec<u8>>) -> Option<Seq<u8>> {
    match msg {
        Some(c) => Some(c@),
        None => None,
    }
}

/// The bytes that a message makes the sink write: a non-empty chunk is
/// written as it is; the empty chunk and a closed channel end the stage.
pub open spec fn sink_step(msg: Option<Seq<u8>>) -> Option<Seq<u8>> {
    match msg {
        Some(c) => if c.len() > 0 { Some(c) } else { None },
        None => None,
    }
}

/// Decides what to do with one message (`None`: the channel closed).
pub fn sink_action(msg: Option<Vec<u8>>) -> (r: SinkAction)
    ensures
        r.bytes_view() == sink_step(message_view(msg)),
{
    match msg {
        Some(c) => {
            if c.len() > 0 {
                SinkAction::Write(c)
            } else {
                SinkAction::Stop
            }
        },
        None => SinkAction::Stop,
    }
}

/// How the sink ends after a write failed with `err`.
pub open spec fn write_failure_spec<E>(broken_pipe: bool, err: E) -> StageOutcome<E> {
    if broken_pipe { StageOutcome::Done } else { StageOutcome::Failed(err) }
}

/// The end of the sink after a failed write: the reader of the output going
/// away (a broken pipe) is a clean stop, any other failure is reported.
pub fn write_failure_outcome<E>(broken_pipe: bool, err: E) -> (r: StageOutcome<E>)
    ensures
        r == write_failure_spec(broken_pipe, err),
{
    if broken_pipe {
        StageOutcome::Done
    } else {
        StageOutcome::Failed(err)
    }
}

} // verus!
