//! Decision logic of a VP9/Opus batch encoder: reading mediainfo reports,
//! choosing quality settings, naming output files and building the encoder's
//! command line.

pub mod batch;
pub mod cli;
pub mod dependencies;
pub mod encoder;
pub mod ordering;
pub mod paths;
pub mod progress;
pub mod scanner;
pub mod text;
pub mod video_info;
