use transcode_jobs::encoding::{AudioCodec, EncodingOptions, Preset, VideoCodec};
use transcode_jobs::submission::{chunk_submission, ChunkArg};
use transcode_jobs::keys::{chunk_key, final_output_key, input_key, output_stem_of, uuid_string};
use transcode_jobs::model::{ChunkStatus, CreateJobRequest, JobStatus, Progress, Timestamp};
use transcode_jobs::store::{new_job, open_job, ApiError, JobStore};

fn request(name: &str, fmt: &str) -> CreateJobRequest {
    CreateJobRequest {
        filename: name.to_string(),
        output_format: fmt.to_string(),
        encoding: EncodingOptions {
            video_codec: VideoCodec::H264,
            audio_codec: AudioCodec::Aac,
            preset: Preset::Fast,
            crf: 23,
            resolution: None,
        },
    }
}

fn at(secs: i64) -> Timestamp {
    Timestamp { secs, nanos: 0 }
}

#[test]
fn uuid_rendering_matches_uuid_crate() {
    for v in [0u128, 1, u128::MAX, 0x67e5504410b1426f9247bb680e5fe0c8, 0x0123456789abcdef0fedcba987654321] {
        assert_eq!(uuid_string(v), uuid::Uuid::from_u128(v).to_string());
    }
}

#[test]
fn object_keys() {
    let id = 0x67e5504410b1426f9247bb680e5fe0c8u128;
    assert_eq!(input_key(id, "clip.mov"), "67e55044-10b1-426f-9247-bb680e5fe0c8/clip.mov");
    assert_eq!(final_output_key(id, "clip.final.mov", "mp4"), "67e55044-10b1-426f-9247-bb680e5fe0c8/clip.final.mp4");
    assert_eq!(chunk_key(id, 7, "webm"), "67e55044-10b1-426f-9247-bb680e5fe0c8/chunks/chunk_0007.webm");
    assert_eq!(chunk_key(id, 12345, "mkv"), "67e55044-10b1-426f-9247-bb680e5fe0c8/chunks/chunk_12345.mkv");
}

#[test]
fn output_stem_follows_path_rules() {
    assert_eq!(output_stem_of("movie.mp4"), "movie");
    assert_eq!(output_stem_of(".hidden"), ".hidden");
    assert_eq!(output_stem_of("noext"), "noext");
    assert_eq!(output_stem_of("dir/a.b.c"), "a.b");
    assert_eq!(output_stem_of(""), "output");
    assert_eq!(output_stem_of(".."), "output");
    assert_eq!(output_stem_of("a."), "a");
    assert_eq!(output_stem_of("..a"), ".");
    assert_eq!(output_stem_of("..."), "..");
    assert_eq!(output_stem_of("/srv/x.y/clip.mkv"), "clip");
}

#[test]
fn opened_job_waits_for_upload() {
    let job = open_job(request("a.mp4", "mkv"));
    assert_eq!(job.status, JobStatus::PendingUpload);
    assert_eq!(job.filename, "a.mp4");
    assert_eq!(job.chunks_completed, 0);
    assert!(job.chunks.is_empty() && job.error.is_none() && job.progress.is_none());
    assert_eq!((job.id >> 76) & 0xf, 4);
    assert_eq!((job.id >> 62) & 0x3, 2);
    let other = open_job(request("a.mp4", "mkv"));
    assert_ne!(job.id, other.id);
}

#[test]
fn upload_report_is_accepted_once() {
    let mut store = JobStore::new();
    store.insert_job(new_job(5, request("a.mp4", "mp4"), at(10)));
    let queued = store.mark_uploaded(5).unwrap();
    assert_eq!(queued.status, JobStatus::Queued);
    assert_eq!(store.get(5).unwrap().status, JobStatus::Queued);
    assert_eq!(store.mark_uploaded(5).unwrap_err(), ApiError::Conflict);
    assert_eq!(store.mark_uploaded(6).unwrap_err(), ApiError::NotFound);
}

#[test]
fn download_needs_completion() {
    let mut store = JobStore::new();
    store.insert_job(new_job(1, request("talk.webm", "mp4"), at(1)));
    assert_eq!(store.download_key(1).unwrap_err(), ApiError::Conflict);
    assert_eq!(store.download_key(2).unwrap_err(), ApiError::NotFound);
    store.mark_uploaded(1).unwrap();
    store.start_processing(1, 2, at(2)).unwrap();
    let done = store.complete(1, at(3)).unwrap();
    assert_eq!(done.status, JobStatus::Completed);
    assert_eq!(done.progress, Some(Progress::Complete));
    assert_eq!(done.finished_at, Some(at(3)));
    assert_eq!(store.download_key(1).unwrap(), format!("{}/talk.mp4", uuid::Uuid::from_u128(1)));
}

#[test]
fn failed_job_keeps_reason_and_is_not_downloadable() {
    let mut store = JobStore::new();
    store.insert_job(new_job(9, request("x.mp4", "mp4"), at(1)));
    let failed = store.fail(9, "chunk failed: boom".to_string(), at(4)).unwrap();
    assert_eq!(failed.status, JobStatus::Failed);
    assert_eq!(failed.error.as_deref(), Some("chunk failed: boom"));
    assert_eq!(store.download_key(9).unwrap_err(), ApiError::Conflict);
    assert!(store.fail(10, "x".to_string(), at(4)).is_none());
}

#[test]
fn processing_and_chunk_records() {
    let mut store = JobStore::new();
    store.insert_job(new_job(3, request("x.mp4", "mp4"), at(1)));
    let started = store.start_processing(3, 3, at(2)).unwrap();
    assert_eq!(started.status, JobStatus::Processing);
    assert_eq!(started.chunk_count, Some(3));
    assert_eq!(started.started_at, Some(at(2)));
    assert_eq!(started.chunks.iter().map(|c| c.index).collect::<Vec<_>>(), vec![0, 1, 2]);
    assert!(started.chunks.iter().all(|c| c.status == ChunkStatus::Queued && c.worker.is_none()));

    let j = store.record_chunk(3, 1, ChunkStatus::Running, Some("worker-a".to_string()), 3).unwrap();
    assert_eq!(j.chunks[1].status, ChunkStatus::Running);
    assert_eq!(j.chunks[1].worker.as_deref(), Some("worker-a"));
    assert_eq!(j.progress, None);

    let j = store.record_chunk(3, 1, ChunkStatus::Done, None, 3).unwrap();
    assert_eq!(j.chunks[1].status, ChunkStatus::Done);
    assert_eq!(j.chunks[1].worker.as_deref(), Some("worker-a"));
    assert_eq!(j.chunks_completed, 1);
    assert_eq!(j.progress, Some(Progress::Chunks { done: 1, total: 3 }));

    let j = store.record_chunk(3, 0, ChunkStatus::Done, Some("worker-b".to_string()), 3).unwrap();
    assert_eq!(j.chunks[0].worker.as_deref(), Some("worker-b"));
    assert_eq!(j.chunks_completed, 2);
    assert_eq!(j.progress, Some(Progress::Chunks { done: 2, total: 3 }));
    assert!(store.record_chunk(4, 0, ChunkStatus::Done, None, 1).is_none());
}

#[test]
fn every_done_report_is_counted() {
    let mut store = JobStore::new();
    store.insert_job(new_job(3, request("x.mp4", "mp4"), at(1)));
    store.start_processing(3, 2, at(2)).unwrap();
    store.record_chunk(3, 1, ChunkStatus::Done, None, 2).unwrap();

    // a second done report on the same chunk counts again
    let j = store.record_chunk(3, 1, ChunkStatus::Done, None, 2).unwrap();
    assert_eq!(j.chunks_completed, 2);
    assert_eq!(j.progress, Some(Progress::Chunks { done: 2, total: 2 }));

    // a later report overwrites a finished chunk's status, not the count
    let j = store.record_chunk(3, 1, ChunkStatus::Running, None, 2).unwrap();
    assert_eq!(j.chunks[1].status, ChunkStatus::Running);
    assert_eq!(j.chunks_completed, 2);
    assert_eq!(j.progress, Some(Progress::Chunks { done: 2, total: 2 }));

    // an index past the chunk list changes no chunk, but a done report counts
    let j = store.record_chunk(3, 9, ChunkStatus::Done, None, 2).unwrap();
    assert_eq!(j.chunks.len(), 2);
    assert_eq!(j.chunks[0].status, ChunkStatus::Queued);
    assert_eq!(j.chunks_completed, 3);
    let j = store.record_chunk(3, 9, ChunkStatus::Failed, None, 2).unwrap();
    assert_eq!(j.chunks_completed, 3);
}

#[test]
fn listing_is_newest_first_and_complete() {
    let mut store = JobStore::new();
    store.insert_job(new_job(1, request("a", "mp4"), at(5)));
    store.insert_job(new_job(2, request("b", "mp4"), Timestamp { secs: 7, nanos: 3 }));
    store.insert_job(new_job(3, request("c", "mp4"), at(6)));
    store.insert_job(new_job(4, request("d", "mp4"), Timestamp { secs: 7, nanos: 1 }));
    let ids: Vec<u128> = store.list_jobs().iter().map(|j| j.id).collect();
    assert_eq!(ids, vec![2, 4, 3, 1]);
    assert!(JobStore::new().list_jobs().is_empty());
}

#[test]
fn inserting_under_an_existing_id_replaces() {
    let mut store = JobStore::new();
    store.insert_job(new_job(1, request("a", "mp4"), at(5)));
    store.insert_job(new_job(1, request("b", "mkv"), at(6)));
    let all = store.list_jobs();
    assert_eq!(all.len(), 1);
    assert_eq!(all[0].filename, "b");
}

#[test]
fn no_later_step_reopens_an_upload() {
    let mut store = JobStore::new();
    store.insert_job(new_job(7, request("a.mp4", "mp4"), at(1)));
    store.mark_uploaded(7).unwrap();
    for step in 0..4 {
        match step {
            0 => {
                store.start_processing(7, 1, at(2));
            }
            1 => {
                store.record_chunk(7, 0, ChunkStatus::Done, None, 1);
            }
            2 => {
                store.fail(7, "x".to_string(), at(3));
            }
            _ => {
                store.complete(7, at(4));
            }
        }
        assert_eq!(store.mark_uploaded(7).unwrap_err(), ApiError::Conflict);
    }
}

#[test]
fn chunk_submission_names_function_executor_and_arguments() {
    let id = 0x67e5504410b1426f9247bb680e5fe0c8u128;
    let s = chunk_submission(id, 3, "http://minio:9000/uploads/in.mp4", "mkv");
    assert_eq!(s.func_name, "transcode_chunk");
    assert_eq!(s.executor_type, "ffmpeg-executor");
    assert_eq!(s.max_exec_time, -1);
    assert_eq!(s.output_key, "67e55044-10b1-426f-9247-bb680e5fe0c8/chunks/chunk_0003.mkv");
    let names: Vec<&str> = s.kwargs.iter().map(|(n, _)| n.as_str()).collect();
    assert_eq!(names, vec!["input_url", "start_time", "duration", "output_key", "encoding"]);
    assert!(matches!(&s.kwargs[0].1, ChunkArg::Text(t) if t == "http://minio:9000/uploads/in.mp4"));
    assert!(matches!(s.kwargs[1].1, ChunkArg::StartTime));
    assert!(matches!(s.kwargs[2].1, ChunkArg::Duration));
    assert!(matches!(&s.kwargs[3].1, ChunkArg::Text(t) if *t == s.output_key));
    assert!(matches!(s.kwargs[4].1, ChunkArg::Encoding));
}
