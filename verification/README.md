# EasyVietsub

A desktop tool for Vietnamese subtitles: it transcribes speech with Whisper,
translates subtitles with Gemini, edits them, exports SRT/ASS files and burns
subtitles into video with FFmpeg.

The logic is a library verified with Verus (`src/`); the desktop shell around
it (`app/`) does the I/O: Tauri commands, FFmpeg and FFprobe processes, HTTP
calls, files and caches.

## Layout

- `src/text.rs` — characters, trimming, decimal and hexadecimal rendering,
  integer parsing, searching, splitting, joining and lines, each with its
  mathematical definition.
- `src/srt.rs` — SRT timestamps, rendering segments as SRT and parsing SRT.
- `src/roundtrip.rs` — what rendering and parsing SRT do to each other.
- `src/ass.rs` — colours, alignment and the ASS document.
- `src/gemini.rs` — prompts, replies, the model allowlist, adaptive chunk
  sizes and the direct audio mode.
- `src/translation.rs` — the chunk-by-chunk translation job and the retry of
  a failing chunk by halves.
- `src/media.rs` — FFprobe reports, FFmpeg progress, filter paths, audio
  chunks, decoded PCM and how a render ends.
- `src/runtime.rs` — program names, sidecars, accelerators and the steps that
  install a local FFmpeg.
- `src/stream.rs` — the `stream://` protocol: paths, MIME types, byte ranges.
- `src/whisper.rs` — the model catalogue and how transcription runs.
- `src/registry.rs` — running jobs keyed by id.
- `src/settings.rs` — settings, project snapshots and the cache age rule.
- `src/error.rs` — error categories and their messages.
- `tests/` — tests of the library on concrete values.
- `app/` — the desktop application.
