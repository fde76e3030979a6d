use glia_fab_desktop::clock::{epoch_ms_from_millis, epoch_ms_now, to_epoch_ms};
use glia_fab_desktop::json::JsonField;
use glia_fab_desktop::pump::{handle_chunk, pump_step, PumpAction, PumpTarget, ReadOutcome};
use glia_fab_desktop::watcher::{watch_step, Phase, PollOutcome, WatchAction, WatchEvent};
use std::time::{Duration, UNIX_EPOCH};

fn job_target() -> PumpTarget {
    PumpTarget::Job { job_id: "j".to_string(), run_id: "r".to_string() }
}

#[test]
fn closed_or_failed_stream_stops_the_pump() {
    let target = PumpTarget::Session { session_id: "s".to_string() };
    let actions = pump_step(&target, &ReadOutcome::Data(Vec::new()));
    assert_eq!(actions.len(), 1);
    assert!(matches!(actions[0], PumpAction::Stop));
    let actions = pump_step(&target, &ReadOutcome::Failed);
    assert_eq!(actions.len(), 1);
    assert!(matches!(actions[0], PumpAction::Stop));
}

#[test]
fn session_output_is_published() {
    let target = PumpTarget::Session { session_id: "s".to_string() };
    let actions = pump_step(&target, &ReadOutcome::Data(b"hello".to_vec()));
    assert_eq!(actions.len(), 1);
    match &actions[0] {
        PumpAction::Publish(event) => {
            assert_eq!(event.topic, "pty_output");
            assert_eq!(event.payload.fields[0].0, "session_id");
            assert!(matches!(&event.payload.fields[0].1, JsonField::Text(t) if t == "s"));
            assert_eq!(event.payload.fields[1].0, "data");
            assert!(matches!(&event.payload.fields[1].1, JsonField::Text(t) if t == "hello"));
        }
        _ => panic!("expected a publish action"),
    }
}

#[test]
fn job_output_is_logged_before_it_is_published() {
    let actions = pump_step(&job_target(), &ReadOutcome::Data(b"hello\n".to_vec()));
    assert_eq!(actions.len(), 2);
    assert!(matches!(&actions[0], PumpAction::AppendTranscript(bytes) if bytes == b"hello\n"));
    match &actions[1] {
        PumpAction::Publish(event) => {
            assert_eq!(event.topic, "job_output");
            assert!(matches!(&event.payload.fields[0].1, JsonField::Text(t) if t == "j"));
            assert!(matches!(&event.payload.fields[1].1, JsonField::Text(t) if t == "r"));
            assert!(matches!(&event.payload.fields[2].1, JsonField::Text(t) if t == "hello\n"));
        }
        _ => panic!("expected a publish action"),
    }
}

#[test]
fn transcript_takes_the_bytes_as_read_and_invalid_bytes_are_published_replaced() {
    let actions = pump_step(&job_target(), &ReadOutcome::Data(vec![b'a', 0xff, b'b']));
    assert_eq!(actions.len(), 2);
    assert!(matches!(&actions[0], PumpAction::AppendTranscript(bytes) if *bytes == vec![b'a', 0xff, b'b']));
    match &actions[1] {
        PumpAction::Publish(event) => {
            assert!(matches!(&event.payload.fields[2].1, JsonField::Text(t) if t == "a\u{fffd}b"));
        }
        _ => panic!("expected a publish action"),
    }
}

#[test]
fn character_split_over_two_reads_reaches_the_transcript_whole() {
    let whole = "\u{4e16}".as_bytes().to_vec();
    let mut transcript: Vec<u8> = Vec::new();
    let mut published = String::new();
    for read in [whole[..1].to_vec(), whole[1..].to_vec()] {
        for action in pump_step(&job_target(), &ReadOutcome::Data(read)) {
            match action {
                PumpAction::AppendTranscript(bytes) => transcript.extend(bytes),
                PumpAction::Publish(event) => match &event.payload.fields[2].1 {
                    JsonField::Text(text) => published.push_str(text),
                    _ => panic!("expected text"),
                },
                PumpAction::Stop => panic!("expected no stop"),
            }
        }
    }
    assert_eq!(transcript, whole);
    assert_eq!(published, "\u{fffd}\u{fffd}\u{fffd}");
}

#[test]
fn chunk_is_handled_as_given() {
    let actions = handle_chunk(&job_target(), &vec![1, 2, 3], "x");
    assert_eq!(actions.len(), 2);
    assert!(matches!(&actions[0], PumpAction::AppendTranscript(bytes) if *bytes == vec![1, 2, 3]));
    match &actions[1] {
        PumpAction::Publish(event) => {
            assert!(matches!(&event.payload.fields[2].1, JsonField::Text(t) if t == "x"));
        }
        _ => panic!("expected a publish action"),
    }
    let session = PumpTarget::Session { session_id: "s".to_string() };
    let actions = handle_chunk(&session, &vec![1, 2, 3], "x");
    assert_eq!(actions.len(), 1);
    assert!(matches!(&actions[0], PumpAction::Publish(_)));
}

#[test]
fn watcher_walks_through_the_phases() {
    let (phase, action) = watch_step(Phase::Spawned, WatchEvent::Started);
    assert_eq!((phase, action), (Phase::Running, WatchAction::Poll));
    let (phase, action) = watch_step(phase, WatchEvent::Polled(PollOutcome::StillRunning));
    assert_eq!((phase, action), (Phase::Running, WatchAction::SleepThenPoll { millis: 120 }));
    let (phase, action) = watch_step(phase, WatchEvent::Polled(PollOutcome::Exited(3)));
    assert_eq!(phase, Phase::ExitDetected { exit_code: Some(3) });
    assert_eq!(action, WatchAction::Finalize { exit_code: Some(3) });
    let (again, action) = watch_step(phase, WatchEvent::Polled(PollOutcome::Exited(3)));
    assert_eq!((again, action), (phase, WatchAction::Idle));
    let (phase, action) = watch_step(phase, WatchEvent::Recorded);
    assert_eq!((phase, action), (Phase::Finalized, WatchAction::Idle));
    for event in [
        WatchEvent::Started,
        WatchEvent::Polled(PollOutcome::Exited(1)),
        WatchEvent::Polled(PollOutcome::StillRunning),
        WatchEvent::Polled(PollOutcome::Failed),
        WatchEvent::Recorded,
    ] {
        assert_eq!(watch_step(Phase::Finalized, event), (Phase::Finalized, WatchAction::Idle));
    }
}

#[test]
fn failed_poll_finalizes_without_a_code() {
    let (phase, action) = watch_step(Phase::Running, WatchEvent::Polled(PollOutcome::Failed));
    assert_eq!(phase, Phase::ExitDetected { exit_code: None });
    assert_eq!(action, WatchAction::Finalize { exit_code: None });
}

#[test]
fn events_out_of_turn_change_nothing() {
    assert_eq!(
        watch_step(Phase::Spawned, WatchEvent::Polled(PollOutcome::Exited(0))),
        (Phase::Spawned, WatchAction::Idle)
    );
    assert_eq!(watch_step(Phase::Running, WatchEvent::Started), (Phase::Running, WatchAction::Idle));
    assert_eq!(watch_step(Phase::Running, WatchEvent::Recorded), (Phase::Running, WatchAction::Idle));
}

#[test]
fn epoch_milliseconds() {
    assert_eq!(to_epoch_ms(UNIX_EPOCH), Some(0));
    assert_eq!(to_epoch_ms(UNIX_EPOCH + Duration::from_millis(1500)), Some(1500));
    assert_eq!(to_epoch_ms(UNIX_EPOCH + Duration::from_micros(2999)), Some(2));
    assert_eq!(to_epoch_ms(UNIX_EPOCH - Duration::from_secs(1)), None);
    assert_eq!(epoch_ms_from_millis(None), None);
    assert_eq!(epoch_ms_from_millis(Some(42)), Some(42));
    assert_eq!(epoch_ms_from_millis(Some(u64::MAX as u128)), Some(u64::MAX));
    assert_eq!(epoch_ms_from_millis(Some(u64::MAX as u128 + 1)), Some(0));
    assert_eq!(epoch_ms_from_millis(Some((7u128 << 64) + 5)), Some(5));
    assert!(epoch_ms_now() > 1_600_000_000_000);
}
