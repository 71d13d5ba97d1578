# transcode_jobs

A chunked video transcoding service: an HTTP backend that opens jobs,
splits each uploaded video into keyframe-aligned chunks, farms the chunks
out to ffmpeg executors over ColonyOS, merges the results and publishes
progress; and the executor that does the transcoding.

`src/` is the verified core, written in Verus:

- `encoding` — codec, preset and quality settings and the ffmpeg flags they select.
- `commands` — ffmpeg/ffprobe argument lists, concat manifests, file names.
- `ffmpeg` — reading ffmpeg's error output into a failure summary, and
  ffprobe's packet listing into keyframe times.
- `keys` — object-store keys of a job's upload, chunks and output.
- `model` — the job and chunk records.
- `store` — the table of jobs and every step that changes it, with the laws
  that relate the steps (an upload is accepted once, only completed jobs
  download, listings are newest first, ...).
- `polling` — following a chunk's ColonyOS process.
- `chunks` — turning chunk start times into contiguous chunks.
- `tasks` — the functions the executor serves.
- `text` — character-level helpers with exact specifications.
- `system` — fresh ids and the clock.

`app/` is the unverified shell: the axum server, the S3 and ColonyOS
calls, the executor loop, serde forms of the records, and the
floating-point arithmetic on seconds. Run it with no argument for the
backend, or with `worker` for the executor.
