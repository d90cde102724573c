# video_transcoder

A worker that turns uploaded videos into HLS renditions. It listens on a
queue for upload notifications, finds the uploaded file under a mounted
bucket, marks the video record as processing, runs ffmpeg to produce a
ladder of renditions (144p up to 1080p, never taller than the input) and two
thumbnails, and marks the record as ready.

- `src/` is the verified library: the path layout of a job, the rendition
  ladder and the ffmpeg argument lists, the status updates of a video record,
  and the order of steps for a notification and for a job, as state machines
  whose laws are proved.
- `app/` is the program around it: the queue, the database, the file system,
  probing the input with ffmpeg and running ffmpeg.
- `tests/` runs the library on concrete inputs.
