use transcode_jobs::orchestration::{advance, Action, Event, Phase};

fn fail_message(a: Action) -> String {
    match a {
        Action::Fail { message } => message,
        other => panic!("expected a failure, got {other:?}"),
    }
}

#[test]
fn a_job_runs_to_completion() {
    let (p, a) = advance(Phase::Probing, Event::Split { total: 2 });
    assert_eq!(p, Phase::Submitting { total: 2 });
    assert!(matches!(a, Action::StartProcessing { total: 2 }));
    let (p, a) = advance(p, Event::AllSubmitted);
    assert_eq!(p, Phase::Waiting { total: 2, succeeded: 0 });
    assert!(matches!(a, Action::Wait));
    let (p, a) = advance(p, Event::ChunkFinished { result: Ok(()) });
    assert_eq!(p, Phase::Waiting { total: 2, succeeded: 1 });
    assert!(matches!(a, Action::Wait));
    let (p, a) = advance(p, Event::ChunkFinished { result: Ok(()) });
    assert_eq!(p, Phase::Merging);
    assert!(matches!(a, Action::Merge));
    let (p, a) = advance(p, Event::Merged { result: Ok(()) });
    assert_eq!(p, Phase::Completed);
    assert!(matches!(a, Action::Complete));
    let (p, a) = advance(p, Event::ChunkFinished { result: Ok(()) });
    assert_eq!(p, Phase::Completed);
    assert!(matches!(a, Action::Ignore));
}

#[test]
fn failures_carry_their_context() {
    let (p, a) = advance(Phase::Probing, Event::ProbeFailed { error: "ffprobe returned unexpected duration: \"\"".to_string() });
    assert_eq!(p, Phase::Failed);
    assert_eq!(fail_message(a), "ffprobe returned unexpected duration: \"\"");

    let (p, a) = advance(Phase::Submitting { total: 3 }, Event::SubmitFailed { index: 12, error: "refused".to_string() });
    assert_eq!(p, Phase::Failed);
    assert_eq!(fail_message(a), "submit chunk 12: refused");

    let (p, a) = advance(Phase::Waiting { total: 3, succeeded: 1 }, Event::ChunkFinished { result: Err("timed out after 3600s".to_string()) });
    assert_eq!(p, Phase::Failed);
    assert_eq!(fail_message(a), "chunk failed: timed out after 3600s");

    let (p, a) = advance(Phase::Merging, Event::Merged { result: Err("ffmpeg: Invalid data".to_string()) });
    assert_eq!(p, Phase::Failed);
    assert_eq!(fail_message(a), "merge failed: ffmpeg: Invalid data");

    let (p, a) = advance(Phase::Failed, Event::Merged { result: Ok(()) });
    assert_eq!(p, Phase::Failed);
    assert!(matches!(a, Action::Ignore));
}

#[test]
fn a_single_chunk_goes_straight_to_merging() {
    let (p, _) = advance(Phase::Waiting { total: 1, succeeded: 0 }, Event::ChunkFinished { result: Ok(()) });
    assert_eq!(p, Phase::Merging);
}

#[test]
fn stopped_pollers_lead_to_merging() {
    let (p, a) = advance(Phase::Waiting { total: 4, succeeded: 1 }, Event::PollersGone);
    assert_eq!(p, Phase::Merging);
    assert!(matches!(a, Action::Merge));
}
