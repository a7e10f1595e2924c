# home_camera

A batch recorder for an RTSP camera: it records the stream for a configured
length with ffmpeg, writes an MP4 file and uploads it to S3-compatible storage
under a key of the form `<camera>/YYYY/MM/DD/HH.mp4`.

The logic lives in a library verified with Verus (`src/`):

- `config`: reading and checking the settings from environment variables
- `key`: camera-id sanitization, object keys and local file names
- `retry`: exponential backoff with a cap
- `h264_depacketizer`: reassembling H.264 RTP payloads (single NAL unit,
  STAP-A, FU-A) into AVCC access units
- `mp4_recorder`: which samples the MP4 writer emits, with which durations,
  offsets and sample entry, and the `shiguredo_mp4` muxer that takes them
- `recorder`: validating the RTSP URL, the ffmpeg command line and the
  failure report built from ffmpeg's error output
- `storage`: the steps of a multipart upload (requests built and responses
  read with `shiguredo_s3`), part numbering and request URLs
- `slack_client`: the Slack relay endpoint URL and message body
- `text`: the string operations the above are built from

`app/` holds the program around it: reading the environment and the clock,
running ffmpeg, sending HTTP requests to S3 and the Slack relay, writing the
MP4 file. `tests/` holds
the tests.
