# vdub

A video dubbing engine: it fetches a video, transcribes it, translates the
sentences with a chat model, writes subtitle files, speaks the translation and
burns the subtitles into the video.

## Layout

- `src/` is the library, verified with Verus. It holds the logic of the
  pipeline: configuration and its validation, tool detection, the command
  lines handed to ffmpeg, yt-dlp and the speech engines, sentence splitting,
  the translation loop (a state machine), subtitle writing and reading (SRT
  and ASS), the Aliyun request signing, task state and progress, and the
  console messages. Each public function states its result in its `ensures`;
  the laws that span several functions are public proof functions (for
  example `srt::srt_round_trip`, `media::resolution_round_trip`,
  `pipeline::progress_grows`).
- `app/` is the program around it: the command line, the web server, files,
  processes, HTTP and WebSocket calls, and the parts that compute with
  floating-point times.
- `tests/` runs the library on concrete values.
