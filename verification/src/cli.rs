//! Command-line settings and encoding speed presets.

use vstd::prelude::*;

verus! {

/// The settings the encoder is run with.
///
/// Paths are held as text.
#[derive(Clone, Debug)]
pub struct Cli {
    /// Input video file.
    pub input: Option<String>,
    /// Output video file (a `_000x` suffix avoids overwriting).
    pub output: Option<String>,
    /// Output directory.
    pub output_dir: Option<String>,
    /// Source directory: every video inside is encoded.
    pub input_dir: Option<String>,
    /// Descend into subdirectories of the source directory.
    pub recursive: bool,
    /// Video bitrate: `auto`, or a number with an optional `K` or `M` suffix.
    pub video_bitrate: Option<String>,
    /// Audio bitrate: `auto`, or a number with an optional `K` suffix.
    pub audio_bitrate: Option<String>,
    /// Constant rate factor: `auto` or 8 to 48.
    pub crf: Option<String>,
    /// Encoding speed.
    pub speed: Speed,
    /// Only display information about the videos.
    pub info: bool,
    /// Delete the source after a successful encode; the output takes its name.
    pub delete: bool,
    /// Rename the source to `_old_<name>`; the output takes its name.
    pub rename: bool,
}

/// Settings that cannot be used together.
#[derive(Clone, Copy, Debug, PartialEq, Eq, Structural)]
pub enum CliError {
    /// `delete` and `rename` were both asked for.
    DeleteAndRename,
}

impl Cli {
    /// Refuses `delete` together with `rename`.
    pub fn check_flags(&self) -> (r: Result<(), CliError>)
        ensures
            r is Err <==> self.delete && self.rename,
            r matches Err(e) ==> e == CliError::DeleteAndRename,
    {
        if self.delete && self.rename {
            Err(CliError::DeleteAndRename)
        } else {
            Ok(())
        }
    }
}

/// Encoding speed preset.
#[derive(Clone, Copy, Debug, PartialEq, Eq, Structural)]
pub enum Speed {
    Low,
    Medium,
    Fast,
}

/// The libvpx `-deadline` and `-speed` values of a preset.
pub open spec fn speed_args(s: Speed) -> (Seq<char>, Seq<char>) {
    match s {
        Speed::Low => ("good"@, "4"@),
        Speed::Medium => ("good"@, "6"@),
        Speed::Fast => ("realtime"@, "6"@),
    }
}

impl Speed {
    /// The `-deadline` and `-speed` arguments for ffmpeg's libvpx-vp9 encoder.
    pub fn to_ffmpeg_args(&self) -> (r: (String, String))
        ensures
            (r.0@, r.1@) == speed_args(*self),
    {
        match self {
            Speed::Low => ("good".to_owned(), "4".to_owned()),
            Speed::Medium => ("good".to_owned(), "6".to_owned()),
            Speed::Fast => ("realtime".to_owned(), "6".to_owned()),
        }
    }
}

} // verus!
