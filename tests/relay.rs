use std::io::Read;

use pipeviewer::meter::{MeterAction, Stats};
use pipeviewer::pipeline::{combine_outcomes, StageOutcome, DATA_CHANNEL_CAPACITY};
use pipeviewer::sink::{sink_action, write_failure_outcome, SinkAction};
use pipeviewer::source::{
    end_of_stream, keep_reading, source_action, ReadOutcome, SourceAction, CHUNK_SIZE,
};

struct Run {
    chunk_sizes: Vec<usize>,
    sentinel_sent: bool,
    output: Vec<u8>,
    metered: u64,
}

/// Drives the three stages' decisions in turn over an in-memory input.
fn run(input: &[u8], cap: usize) -> Run {
    let mut reader = input;
    let mut buffer = vec![0u8; cap];
    let mut messages: Vec<Vec<u8>> = Vec::new();
    let mut counts: Vec<usize> = Vec::new();
    let mut chunk_sizes = Vec::new();
    loop {
        let outcome = match reader.read(&mut buffer) {
            Ok(n) => ReadOutcome::Filled(n),
            Err(_) => ReadOutcome::Failed,
        };
        match source_action(&buffer, outcome) {
            SourceAction::Forward { count, chunk } => {
                chunk_sizes.push(chunk.len());
                counts.push(count);
                messages.push(chunk);
            }
            SourceAction::Finish => break,
        }
    }
    let (last_count, last_chunk) = end_of_stream();
    counts.push(last_count);
    messages.push(last_chunk);
    let sentinel_sent = messages.last().map(|m| m.is_empty()).unwrap_or(false);

    let mut output = Vec::new();
    for m in messages {
        match sink_action(Some(m)) {
            SinkAction::Write(bytes) => output.extend_from_slice(&bytes),
            SinkAction::Stop => break,
        }
    }

    let mut stats = Stats::new(0);
    let mut now = 0u64;
    for c in counts {
        now += 7;
        match stats.on_message(Some(c), now, true) {
            MeterAction::Finish { .. } => break,
            _ => {}
        }
    }
    Run { chunk_sizes, sentinel_sent, output, metered: stats.total_bytes() }
}

#[test]
fn scenario_2500_bytes_in_chunks_of_1000() {
    let input: Vec<u8> = (0..2500u32).map(|i| (i % 251) as u8).collect();
    let r = run(&input, 1000);
    assert_eq!(r.chunk_sizes, vec![1000, 1000, 500]);
    assert!(r.sentinel_sent);
    assert_eq!(r.output.len(), 2500);
    assert_eq!(r.output, input);
    assert_eq!(r.metered, 2500);
}

#[test]
fn round_trip_for_many_capacities() {
    let input: Vec<u8> = (0..3001u32).map(|i| (i * 7 % 256) as u8).collect();
    for cap in [1usize, 2, 3, 7, 64, 1000, 3000, 3001, 5000, CHUNK_SIZE] {
        let r = run(&input, cap);
        assert_eq!(r.output, input);
        assert_eq!(r.metered, 3001);
        assert!(r.chunk_sizes.iter().all(|&n| n >= 1 && n <= cap));
    }
}

#[test]
fn empty_input_sends_only_the_sentinel() {
    let r = run(&[], 1000);
    assert!(r.chunk_sizes.is_empty());
    assert!(r.sentinel_sent);
    assert!(r.output.is_empty());
    assert_eq!(r.metered, 0);
}

#[test]
fn source_forwards_exactly_the_bytes_read() {
    let buffer = [9u8, 8, 7, 6, 5];
    match source_action(&buffer, ReadOutcome::Filled(3)) {
        SourceAction::Forward { count, chunk } => {
            assert_eq!(count, 3);
            assert_eq!(chunk, vec![9, 8, 7]);
        }
        SourceAction::Finish => panic!("expected a chunk"),
    }
    assert!(matches!(source_action(&buffer, ReadOutcome::Filled(0)), SourceAction::Finish));
    assert!(matches!(source_action(&buffer, ReadOutcome::Failed), SourceAction::Finish));
}

#[test]
fn sink_stops_on_empty_chunk_and_on_closed_channel() {
    assert!(matches!(sink_action(Some(Vec::new())), SinkAction::Stop));
    assert!(matches!(sink_action(None), SinkAction::Stop));
    match sink_action(Some(vec![1, 2, 3])) {
        SinkAction::Write(b) => assert_eq!(b, vec![1, 2, 3]),
        SinkAction::Stop => panic!("expected a write"),
    }
}

#[test]
fn broken_pipe_is_a_clean_stop() {
    let sink: StageOutcome<&str> = write_failure_outcome(true, "broken pipe");
    assert!(matches!(sink, StageOutcome::Done));
    let run = combine_outcomes(StageOutcome::Done, StageOutcome::Done, sink);
    assert!(matches!(run, StageOutcome::Done));
}

#[test]
fn other_write_failures_are_reported() {
    let sink: StageOutcome<&str> = write_failure_outcome(false, "disk full");
    assert!(matches!(sink, StageOutcome::Failed("disk full")));
    let run = combine_outcomes(StageOutcome::Done, StageOutcome::Done, sink);
    assert!(matches!(run, StageOutcome::Failed("disk full")));
}

#[test]
fn first_error_wins_and_a_crash_beats_errors() {
    let r = combine_outcomes(
        StageOutcome::Failed("open input"),
        StageOutcome::Done,
        StageOutcome::Failed("write"),
    );
    assert!(matches!(r, StageOutcome::Failed("open input")));
    let r = combine_outcomes(StageOutcome::Done, StageOutcome::Failed("meter"), StageOutcome::Failed("write"));
    assert!(matches!(r, StageOutcome::Failed("meter")));
    let r = combine_outcomes(StageOutcome::Failed("open input"), StageOutcome::Done, StageOutcome::Crashed);
    assert!(matches!(r, StageOutcome::Crashed));
    let r: StageOutcome<&str> = combine_outcomes(StageOutcome::Done, StageOutcome::Done, StageOutcome::Done);
    assert!(matches!(r, StageOutcome::Done));
}

#[test]
fn channel_and_chunk_sizes() {
    assert_eq!(DATA_CHANNEL_CAPACITY, 1024);
    assert_eq!(CHUNK_SIZE, 64 * 1024);
}

#[test]
fn backpressure_bounds_the_lead_of_the_source() {
    // With nobody draining the data channel, the source gets at most its
    // capacity of chunks ahead before a send would have to wait.
    let cap = 4;
    let (tx, rx) = crossbeam::channel::bounded::<Vec<u8>>(cap);
    let input: Vec<u8> = (0..100u8).collect();
    let mut reader: &[u8] = &input;
    let mut buffer = vec![0u8; 10];
    let mut queued = 0;
    loop {
        let n = reader.read(&mut buffer).unwrap();
        match source_action(&buffer, ReadOutcome::Filled(n)) {
            SourceAction::Forward { chunk, .. } => {
                if tx.try_send(chunk).is_err() {
                    break;
                }
                queued += 1;
            }
            SourceAction::Finish => break,
        }
    }
    assert_eq!(queued, cap);
    assert_eq!(rx.len(), cap);
    assert_eq!(rx.recv().unwrap(), (0..10u8).collect::<Vec<u8>>());
}

#[test]
fn end_markers_and_closed_channel() {
    let (count, chunk) = end_of_stream();
    assert_eq!(count, 0);
    assert!(chunk.is_empty());
    assert!(keep_reading(true));
    assert!(!keep_reading(false));
}

#[test]
fn short_reads_still_relay_every_byte() {
    // A reader that hands out at most 1, 2, 3, ... bytes per read.
    let input: Vec<u8> = (0..200u32).map(|i| (i * 13 % 256) as u8).collect();
    let mut pos = 0usize;
    let mut step = 0usize;
    let mut buffer = vec![0u8; 16];
    let mut output = Vec::new();
    let mut stats = Stats::new(0);
    loop {
        step = step % 16 + 1;
        let n = step.min(input.len() - pos);
        buffer[..n].copy_from_slice(&input[pos..pos + n]);
        pos += n;
        match source_action(&buffer, ReadOutcome::Filled(n)) {
            SourceAction::Forward { count, chunk } => {
                assert!(count >= 1 && count <= 16);
                stats.on_message(Some(count), pos as u64, true);
                match sink_action(Some(chunk)) {
                    SinkAction::Write(b) => output.extend_from_slice(&b),
                    SinkAction::Stop => panic!("a data chunk stopped the sink"),
                }
            }
            SourceAction::Finish => break,
        }
    }
    assert_eq!(output, input);
    assert_eq!(stats.total_bytes(), 200);
}
