# vopus9

The decision logic of *vopus9*, a batch encoder that turns videos into
Matroska files with VP9 video and Opus audio by driving `ffmpeg` and
`mediainfo`, written in Verus with its behaviour stated in contracts.

Layout:

- `src/` — the verified library:
  - `video_info.rs` reads a mediainfo XML report (dimensions, codec, tracks);
  - `ordering.rs` orders tracks stably by stream order;
  - `encoder.rs` chooses CRF and bitrates, reads bitrate options and
    progress lines, names output files and builds the ffmpeg command line;
  - `batch.rs` decides the steps for each file of a batch (output choice,
    encode, replacing the source, counting);
  - `cli.rs`, `dependencies.rs`, `scanner.rs`, `progress.rs` hold the
    settings, the tool check, the video-extension test and the batch counts;
  - `text.rs` and `paths.rs` hold character-level text utilities and the
    path operations taken from std.
- `app/` — the command-line program: argument parsing with clap, running
  the external tools, reading files, floating-point measures and display.
- `tests/` — tests of the library.

Options not offered: skipping files that are already VP9, a minimum CRF
given alongside a target bitrate, and a frame-rate override are not part of
this tool. No file is skipped, a target bitrate is passed alone, and the
frame rate is the source's.
