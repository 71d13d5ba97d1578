use transcode_jobs::chunks::chunk_bounds;
use transcode_jobs::commands::{
    chunk_file_name, concat_args, concat_manifest, dotted_name, duration_probe_args, file_extension,
    keyframe_probe_args, remote_concat_args, transcode_args,
};
use transcode_jobs::encoding::{AudioCodec, EncodingOptions, Preset, VideoCodec};
use transcode_jobs::model::ChunkStatus;
use transcode_jobs::polling::{
    chunk_status_for, executor_name, poll_finished, timeout_message, worker_label, ChunkPoller,
    ExecutorDirectory, ExecutorEntry, ProcessSnapshot, PROCESS_FAILED, PROCESS_RUNNING, PROCESS_SUCCESS,
};
use transcode_jobs::tasks::{
    assign_retry, report_step, worker_task, AssignRetry, ReportAction, ReportEvent, WorkerTask,
};

#[test]
fn process_states_match_colonyos() {
    assert_eq!(PROCESS_RUNNING, colonyos::core::RUNNING);
    assert_eq!(PROCESS_SUCCESS, colonyos::core::SUCCESS);
    assert_eq!(PROCESS_FAILED, colonyos::core::FAILED);
}

#[test]
fn chunk_status_of_process_state() {
    assert_eq!(chunk_status_for(colonyos::core::WAITING), ChunkStatus::Queued);
    assert_eq!(chunk_status_for(PROCESS_RUNNING), ChunkStatus::Running);
    assert_eq!(chunk_status_for(PROCESS_SUCCESS), ChunkStatus::Done);
    assert_eq!(chunk_status_for(PROCESS_FAILED), ChunkStatus::Failed);
    assert_eq!(chunk_status_for(42), ChunkStatus::Queued);
}

#[test]
fn poll_ends_on_success_or_failure() {
    assert_eq!(poll_finished(PROCESS_SUCCESS, &vec![]), Some(Ok(())));
    assert_eq!(poll_finished(PROCESS_FAILED, &vec!["disk full".to_string(), "x".to_string()]), Some(Err("disk full".to_string())));
    assert_eq!(poll_finished(PROCESS_FAILED, &vec![]), Some(Err("unknown".to_string())));
    assert_eq!(poll_finished(PROCESS_RUNNING, &vec!["ignored".to_string()]), None);
}

fn directory() -> ExecutorDirectory {
    ExecutorDirectory {
        entries: vec![
            ExecutorEntry { id: "aaa".to_string(), name: "first".to_string() },
            ExecutorEntry { id: "bbb".to_string(), name: "second".to_string() },
            ExecutorEntry { id: "aaa".to_string(), name: "again".to_string() },
        ],
    }
}

#[test]
fn worker_names() {
    let d = directory();
    assert_eq!(worker_label(false, "aaa", &d), None);
    assert_eq!(worker_label(true, "", &d), None);
    assert_eq!(worker_label(true, "bbb", &d).as_deref(), Some("second"));
    // a later entry for the same id wins, as in a map collected from the list
    assert_eq!(worker_label(true, "aaa", &d).as_deref(), Some("again"));
    assert_eq!(worker_label(true, "0123456789abcdef", &d).as_deref(), Some("01234567"));
    assert_eq!(worker_label(true, "short", &d).as_deref(), Some("short"));
}

#[test]
fn poller_reports_changes_only() {
    let mut p = ChunkPoller::new();
    assert!(!p.observe(ChunkStatus::Queued, &None));
    assert!(p.observe(ChunkStatus::Running, &None));
    assert!(!p.observe(ChunkStatus::Running, &None));
    assert!(p.observe(ChunkStatus::Running, &Some("w1".to_string())));
    assert!(!p.observe(ChunkStatus::Running, &Some("w1".to_string())));
    assert!(p.observe(ChunkStatus::Done, &Some("w1".to_string())));
}

#[test]
fn messages() {
    assert_eq!(timeout_message(3600), "timed out after 3600s");
    assert_eq!(executor_name("box7"), "ffmpeg-executor-box7");
}

#[test]
fn worker_functions() {
    assert_eq!(worker_task("transcode_chunk"), Ok(WorkerTask::TranscodeChunk));
    assert_eq!(worker_task("merge_chunks"), Ok(WorkerTask::MergeChunks));
    assert_eq!(worker_task("resize"), Err("unknown function: resize".to_string()));
}

#[test]
fn chunks_meet_end_to_end() {
    assert_eq!(chunk_bounds(&vec![0.0f64], 42.5), vec![(0.0, 42.5)]);
    assert_eq!(
        chunk_bounds(&vec![0.0f64, 59.5, 121.0], 150.0),
        vec![(0.0, 59.5), (59.5, 121.0), (121.0, 150.0)]
    );
}

#[test]
fn transcode_command_line() {
    let enc = EncodingOptions {
        video_codec: VideoCodec::Copy,
        audio_codec: AudioCodec::Aac,
        preset: Preset::Fast,
        crf: 20,
        resolution: None,
    };
    assert_eq!(
        transcode_args("60.000000", "/tmp/x/input.mp4", "59.500000", "/tmp/x/output.mkv", &enc),
        vec![
            "-ss", "60.000000", "-i", "/tmp/x/input.mp4", "-t", "59.500000", "-y", "-c:v", "copy", "-c:a", "aac",
            "-b:a", "192k", "-avoid_negative_ts", "make_zero", "/tmp/x/output.mkv"
        ]
    );
}

#[test]
fn concat_and_probe_command_lines() {
    assert_eq!(
        concat_args("/t/list.txt", "/t/output.mp4"),
        vec!["-f", "concat", "-safe", "0", "-i", "/t/list.txt", "-c", "copy", "-y", "/t/output.mp4"]
    );
    assert_eq!(
        remote_concat_args("/t/list.txt", "/t/output.mp4"),
        vec![
            "-f", "concat", "-safe", "0", "-protocol_whitelist", "file,http,https,tcp,tls,crypto", "-i",
            "/t/list.txt", "-c", "copy", "-y", "/t/output.mp4"
        ]
    );
    assert_eq!(
        duration_probe_args("http://m/x"),
        vec!["-v", "quiet", "-show_entries", "format=duration", "-of", "csv=p=0", "http://m/x"]
    );
    assert_eq!(
        keyframe_probe_args("http://m/x"),
        vec![
            "-v", "quiet", "-select_streams", "v:0", "-show_packets", "-show_entries", "packet=pts_time,flags",
            "-of", "csv=print_section=0", "http://m/x"
        ]
    );
}

#[test]
fn manifest_and_names() {
    assert_eq!(
        concat_manifest(&vec!["http://a/1".to_string(), "/b/2.mp4".to_string()]),
        "file 'http://a/1'\nfile '/b/2.mp4'\n"
    );
    assert_eq!(concat_manifest(&vec![]), "");
    assert_eq!(file_extension("job/clip.final.MOV"), "MOV");
    assert_eq!(file_extension("noext"), "noext");
    assert_eq!(file_extension("trailing."), "");
    assert_eq!(dotted_name("input", "mp4"), "input.mp4");
    assert_eq!(chunk_file_name(0, "mp4"), "chunk_0000.mp4");
    assert_eq!(chunk_file_name(42, "webm"), "chunk_0042.webm");
}

#[test]
fn poll_steps_follow_a_process() {
    let d = directory();
    let mut p = ChunkPoller::new();
    let snap = |state: i32, assigned: bool, id: &str, errors: Vec<&str>| ProcessSnapshot {
        state,
        is_assigned: assigned,
        executor_id: id.to_string(),
        errors: errors.into_iter().map(|e| e.to_string()).collect(),
    };
    let s = p.step(&snap(colonyos::core::WAITING, false, "", vec![]), &d);
    assert!(s.report.is_none() && s.end.is_none());
    let s = p.step(&snap(PROCESS_RUNNING, true, "bbb", vec![]), &d);
    assert_eq!(s.report, Some((ChunkStatus::Running, Some("second".to_string()))));
    assert!(s.end.is_none());
    let s = p.step(&snap(PROCESS_RUNNING, true, "bbb", vec![]), &d);
    assert!(s.report.is_none());
    let s = p.step(&snap(PROCESS_FAILED, true, "bbb", vec!["ffmpeg exited 1"]), &d);
    assert_eq!(s.report, Some((ChunkStatus::Failed, Some("second".to_string()))));
    assert_eq!(s.end, Some(Err("ffmpeg exited 1".to_string())));
}

#[test]
fn worker_retries_and_reports() {
    assert_eq!(assign_retry(false), AssignRetry::Immediately);
    assert_eq!(assign_retry(true), AssignRetry::AfterPause { secs: 1 });
    assert_eq!(
        report_step(ReportEvent::Handled { result: Ok("k/chunk.mp4".to_string()) }),
        ReportAction::SetOutput { output_key: "k/chunk.mp4".to_string() }
    );
    assert_eq!(report_step(ReportEvent::Handled { result: Err("boom".to_string()) }), ReportAction::Fail);
    assert_eq!(report_step(ReportEvent::OutputSet { ok: true }), ReportAction::Close);
    assert_eq!(report_step(ReportEvent::OutputSet { ok: false }), ReportAction::Stop);
    assert_eq!(report_step(ReportEvent::Closed { ok: true }), ReportAction::Stop);
}
