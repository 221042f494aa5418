use vopus9::cli::{Cli, Speed};
use vopus9::dependencies::{check_dependencies, DependencyError, Tool, ToolStatus};
use vopus9::encoder::{
    determine_output_path, ffmpeg_args, make_unique_path, post_process_actions,
    temp_output_path, FileAction, PathError,
};
use vopus9::progress::ProgressManager;
use vopus9::video_info::{AudioTrack, SubtitleTrack, VideoInfo};

fn base_cli() -> Cli {
    Cli {
        input: None,
        output: None,
        output_dir: None,
        input_dir: None,
        recursive: false,
        video_bitrate: None,
        audio_bitrate: None,
        crf: None,
        speed: Speed::Fast,
        info: false,
        delete: false,
        rename: false,
    }
}

fn nothing_exists(_: &str) -> bool {
    false
}

#[test]
fn explicit_output_used_when_free() {
    let mut cli = base_cli();
    cli.output = Some("out/movie.mkv".to_string());
    assert_eq!(determine_output_path(&cli, "in/movie.mp4", &nothing_exists), Ok("out/movie.mkv".to_string()));
}

#[test]
fn explicit_output_numbered_when_taken() {
    let mut cli = base_cli();
    cli.output = Some("out/movie.mkv".to_string());
    let taken = |p: &str| p == "out/movie.mkv" || p == "out/movie_0001.mkv";
    assert_eq!(determine_output_path(&cli, "in/movie.mp4", &taken), Ok("out/movie_0002.mkv".to_string()));
}

#[test]
fn output_numbered_beside_input() {
    let cli = base_cli();
    assert_eq!(
        determine_output_path(&cli, "/videos/my_video.mp4", &nothing_exists),
        Ok("/videos/my_video_0001.mkv".to_string())
    );
    assert_eq!(
        determine_output_path(&cli, "/videos/a/clip.mp4", &nothing_exists),
        Ok("/videos/a/clip_0001.mkv".to_string())
    );
    assert_eq!(determine_output_path(&cli, "clip.mp4", &nothing_exists), Ok("clip_0001.mkv".to_string()));
    assert_eq!(determine_output_path(&cli, "v/a", &nothing_exists), Ok("v/a_0001.mkv".to_string()));
    let taken = |p: &str| p == "clip_0001.mkv";
    assert_eq!(determine_output_path(&cli, "clip.mp4", &taken), Ok("clip_0002.mkv".to_string()));
}

#[test]
fn output_directory_used() {
    let mut cli = base_cli();
    cli.output_dir = Some("/out".to_string());
    assert_eq!(
        determine_output_path(&cli, "videos/clip.avi", &nothing_exists),
        Ok("/out/clip_0001.mkv".to_string())
    );
    assert_eq!(
        determine_output_path(&cli, "/videos/a/clip.mp4", &nothing_exists),
        Ok("/out/clip_0001.mkv".to_string())
    );
    cli.input_dir = Some("/videos".to_string());
    assert_eq!(
        determine_output_path(&cli, "/videos/a/clip.mp4", &nothing_exists),
        Ok("/out/clip_0001.mkv".to_string())
    );
}

#[test]
fn input_directory_without_output_directory() {
    let mut cli = base_cli();
    cli.input_dir = Some("/videos".to_string());
    assert_eq!(
        determine_output_path(&cli, "/videos/clip.mp4", &nothing_exists),
        Ok("/videos/clip_0001.mkv".to_string())
    );
}

#[test]
fn recursive_mode_keeps_structure() {
    let mut cli = base_cli();
    cli.input_dir = Some("/videos".to_string());
    cli.output_dir = Some("/out".to_string());
    cli.recursive = true;
    assert_eq!(
        determine_output_path(&cli, "/videos/a/b/clip.mp4", &nothing_exists),
        Ok("/out/a/b/clip_0001.mkv".to_string())
    );
    assert_eq!(
        determine_output_path(&cli, "elsewhere/clip.mp4", &nothing_exists),
        Ok("/out/elsewhere/clip_0001.mkv".to_string())
    );
    cli.output_dir = None;
    assert_eq!(
        determine_output_path(&cli, "/videos/a/clip.mp4", &nothing_exists),
        Ok("/videos/a/clip_0001.mkv".to_string())
    );
}

#[test]
fn default_output_gives_up_when_all_taken() {
    let cli = base_cli();
    let all_taken = |_: &str| true;
    assert_eq!(determine_output_path(&cli, "clip.mp4", &all_taken), Err(PathError::NoUniqueName));
}

#[test]
fn numbered_alternatives() {
    assert_eq!(make_unique_path("dir/file.tar.gz", &nothing_exists), Ok("dir/file.tar_0001.gz".to_string()));
    assert_eq!(make_unique_path("noext", &nothing_exists), Ok("noext_0001.".to_string()));
    assert_eq!(make_unique_path(".hidden", &nothing_exists), Ok(".hidden_0001.".to_string()));
    let taken = |p: &str| p != "v_0123.mkv";
    assert_eq!(make_unique_path("v.mkv", &taken), Ok("v_0123.mkv".to_string()));
    let all_taken = |_: &str| true;
    assert_eq!(make_unique_path("v.mkv", &all_taken), Err(PathError::NoUniqueName));
    let only_last = |p: &str| p != "v_9999.mkv";
    assert_eq!(make_unique_path("v.mkv", &only_last), Ok("v_9999.mkv".to_string()));
}

#[test]
fn temporary_output() {
    assert_eq!(temp_output_path("/v/clip.mp4"), Some("/v/clip.temp.mkv".to_string()));
    assert_eq!(temp_output_path("clip.mp4"), Some("clip.temp.mkv".to_string()));
    assert_eq!(temp_output_path("/"), None);
}

#[test]
fn replacing_the_source() {
    let mut cli = base_cli();
    assert_eq!(post_process_actions(&cli, "/v/clip.mp4", "/v/clip.temp.mkv"), Some(vec![]));
    cli.delete = true;
    assert_eq!(
        post_process_actions(&cli, "/v/clip.mp4", "/v/clip.temp.mkv"),
        Some(vec![
            FileAction::Remove("/v/clip.mp4".to_string()),
            FileAction::Rename("/v/clip.temp.mkv".to_string(), "/v/clip.mp4".to_string()),
        ])
    );
    cli.delete = false;
    cli.rename = true;
    assert_eq!(
        post_process_actions(&cli, "/v/clip.mp4", "/v/clip.temp.mkv"),
        Some(vec![
            FileAction::Rename("/v/clip.mp4".to_string(), "/v/_old_clip.mp4".to_string()),
            FileAction::Rename("/v/clip.temp.mkv".to_string(), "/v/clip.mp4".to_string()),
        ])
    );
    assert_eq!(post_process_actions(&cli, "/v/clip.mp4", "/"), None);
}

fn sample_info() -> VideoInfo {
    VideoInfo {
        duration_text: "5400.123".to_string(),
        width: 1920,
        height: 1080,
        video_stream_order: 0,
        video_codec: "AVC".to_string(),
        audio_tracks: vec![
            AudioTrack { stream_order: 1, channels: 2, language: "fr".to_string(), codec: "AAC".to_string() },
            AudioTrack { stream_order: 2, channels: 6, language: "en".to_string(), codec: "AC-3".to_string() },
        ],
        subtitle_tracks: vec![SubtitleTrack {
            stream_order: 3,
            language: "und".to_string(),
            codec: "UTF-8".to_string(),
        }],
        framerate_text: Some("23.976".to_string()),
    }
}

fn blank(flag: &str) -> Vec<String> {
    let mut v = vec![];
    for tag in [
        "BPS=",
        "DURATION=",
        "NUMBER_OF_FRAMES=",
        "NUMBER_OF_BYTES=",
        "_STATISTICS_WRITING_APP=",
        "_STATISTICS_WRITING_DATE_UTC=",
        "_STATISTICS_TAGS=",
    ] {
        v.push(flag.to_string());
        v.push(tag.to_string());
    }
    v
}

fn strings(v: &[&str]) -> Vec<String> {
    v.iter().map(|s| s.to_string()).collect()
}

#[test]
fn command_line_with_auto_crf() {
    let info = sample_info();
    let args = ffmpeg_args(
        "in.mkv",
        "out.mkv",
        &info,
        Speed::Fast,
        None,
        None,
        &vec![128_000, 384_000],
        Some(("23.976".to_string(), "239".to_string())),
    );
    let mut expected = strings(&[
        "-i", "in.mkv", "-map", "0:v:0", "-map", "0:a", "-map", "0:s", "-c:v", "libvpx-vp9",
        "-row-mt", "1", "-crf", "28", "-r", "23.976", "-g", "239", "-deadline", "realtime",
        "-speed", "6", "-c:a", "libopus", "-b:a:0", "128k", "-ac:a:0", "2", "-b:a:1", "384k",
        "-ac:a:1", "6", "-c:s", "copy", "-map_metadata", "0:g", "-map_metadata:s:v", "0:s:v",
        "-map_metadata:s:a", "0:s:a", "-map_metadata:s:s", "0:s:s",
    ]);
    expected.extend(blank("-metadata:s:v"));
    expected.extend(strings(&["-metadata:s:v", "ENCODER="]));
    expected.extend(blank("-metadata:s:a:0"));
    expected.extend(blank("-metadata:s:a:1"));
    expected.extend(blank("-metadata:s:s:0"));
    expected.extend(strings(&["-y", "out.mkv", "-progress", "pipe:1", "-nostats"]));
    assert_eq!(args, expected);
}

#[test]
fn command_line_with_target_bitrate() {
    let mut info = sample_info();
    info.subtitle_tracks.clear();
    info.audio_tracks.truncate(1);
    let args = ffmpeg_args("a", "b", &info, Speed::Low, Some(2_500_000), Some(30), &vec![96_500], None);
    let mut expected = strings(&[
        "-i", "a", "-map", "0:v:0", "-map", "0:a", "-c:v", "libvpx-vp9", "-row-mt", "1", "-b:v",
        "2500000", "-deadline", "good", "-speed", "4", "-c:a", "libopus", "-b:a:0", "96k",
        "-ac:a:0", "2", "-map_metadata", "0:g", "-map_metadata:s:v", "0:s:v",
        "-map_metadata:s:a", "0:s:a",
    ]);
    expected.extend(blank("-metadata:s:v"));
    expected.extend(strings(&["-metadata:s:v", "ENCODER="]));
    expected.extend(blank("-metadata:s:a:0"));
    expected.extend(strings(&["-y", "b", "-progress", "pipe:1", "-nostats"]));
    assert_eq!(args, expected);
}

#[test]
fn command_line_with_given_crf() {
    let mut info = sample_info();
    info.audio_tracks.clear();
    info.subtitle_tracks.clear();
    let args = ffmpeg_args("a", "b", &info, Speed::Medium, None, Some(22), &vec![], None);
    assert_eq!(args[0..6], strings(&["-i", "a", "-map", "0:v:0", "-map", "0:a"])[..]);
    assert_eq!(args[8..12], strings(&["-row-mt", "1", "-crf", "22"])[..]);
    assert_eq!(args[12..16], strings(&["-deadline", "good", "-speed", "6"])[..]);
}

#[test]
fn progress_counts() {
    let mut p = ProgressManager::new(3);
    assert_eq!((p.total(), p.completed(), p.failed()), (3, 0, 0));
    p.start_file(1);
    p.file_completed();
    p.start_file(2);
    p.file_failed();
    p.start_file(3);
    p.file_completed();
    assert_eq!((p.total(), p.completed(), p.failed()), (3, 2, 1));
}

#[test]
fn dependency_checks_stop_at_first_problem() {
    assert_eq!(check_dependencies(&|_: Tool| ToolStatus::Working), Ok(()));
    assert_eq!(
        check_dependencies(&|t: Tool| if t == Tool::Ffmpeg { ToolStatus::NotFound } else { ToolStatus::Working }),
        Err(DependencyError { tool: Tool::Ffmpeg, status: ToolStatus::NotFound })
    );
    assert_eq!(
        check_dependencies(&|t: Tool| if t == Tool::Mediainfo { ToolStatus::Failed } else { ToolStatus::Working }),
        Err(DependencyError { tool: Tool::Mediainfo, status: ToolStatus::Failed })
    );
    assert_eq!(
        check_dependencies(&|_: Tool| ToolStatus::FailedToRun),
        Err(DependencyError { tool: Tool::Ffmpeg, status: ToolStatus::FailedToRun })
    );
    assert_eq!(Tool::Ffmpeg.program(), "ffmpeg");
    assert_eq!(Tool::Mediainfo.program(), "mediainfo");
    assert_eq!(Tool::Ffmpeg.version_flag(), "-version");
    assert_eq!(Tool::Mediainfo.version_flag(), "--version");
}

#[test]
fn streams_mapped_in_source_order() {
    let mut info = sample_info();
    info.video_stream_order = 2;
    info.audio_tracks[0].stream_order = 0;
    info.audio_tracks[1].stream_order = 1;
    info.subtitle_tracks[0].stream_order = 1;
    let args = ffmpeg_args("a", "b", &info, Speed::Fast, None, None, &vec![128_000, 384_000], None);
    assert_eq!(
        args[0..10],
        strings(&["-i", "a", "-map", "0:a:0", "-map", "0:a:1", "-map", "0:s:0", "-map", "0:v:0"])[..]
    );
    assert_eq!(args[10], "-c:v");
}

#[test]
fn streams_grouped_when_source_is_in_group_order() {
    let mut info = sample_info();
    info.video_stream_order = 1;
    info.audio_tracks[0].stream_order = 1;
    info.audio_tracks[1].stream_order = 4;
    info.subtitle_tracks[0].stream_order = 4;
    let args = ffmpeg_args("a", "b", &info, Speed::Fast, None, None, &vec![128_000, 384_000], None);
    assert_eq!(args[0..8], strings(&["-i", "a", "-map", "0:v:0", "-map", "0:a", "-map", "0:s"])[..]);
    info.subtitle_tracks[0].stream_order = 3;
    let args = ffmpeg_args("a", "b", &info, Speed::Fast, None, None, &vec![128_000, 384_000], None);
    assert_eq!(
        args[0..10],
        strings(&["-i", "a", "-map", "0:v:0", "-map", "0:a:0", "-map", "0:s:0", "-map", "0:a:1"])[..]
    );
}
