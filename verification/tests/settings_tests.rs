use vopus9::cli::{Cli, CliError, Speed};
use vopus9::encoder::{
    audio_bitrate_label, choose_audio_bitrates, calculate_auto_audio_bitrate, calculate_auto_bitrate, calculate_auto_crf,
    determine_audio_bitrate, determine_crf, determine_video_bitrate, parse_bitrate,
    parse_out_time, parse_uppercase_bitrate, Bitrate, BitrateError, CrfError,
};
use vopus9::video_info::{AudioTrack, VideoInfo};

fn base_cli() -> Cli {
    Cli {
        input: None,
        output: None,
        output_dir: None,
        input_dir: None,
        recursive: false,
        video_bitrate: None,
        audio_bitrate: None,
        crf: None,
        speed: Speed::Fast,
        info: false,
        delete: false,
        rename: false,
    }
}

fn info(width: u32, height: u32) -> VideoInfo {
    VideoInfo {
        duration_text: "60".to_string(),
        width,
        height,
        video_stream_order: 0,
        video_codec: "AVC".to_string(),
        audio_tracks: vec![],
        subtitle_tracks: vec![],
        framerate_text: None,
    }
}

#[test]
fn speed_presets() {
    assert_eq!(Speed::Low.to_ffmpeg_args(), ("good".to_string(), "4".to_string()));
    assert_eq!(Speed::Medium.to_ffmpeg_args(), ("good".to_string(), "6".to_string()));
    assert_eq!(Speed::Fast.to_ffmpeg_args(), ("realtime".to_string(), "6".to_string()));
}

#[test]
fn auto_crf_by_pixel_count() {
    assert_eq!(calculate_auto_crf(0, 0), 34);
    assert_eq!(calculate_auto_crf(640, 480), 34);
    assert_eq!(calculate_auto_crf(854, 480), 34);
    assert_eq!(calculate_auto_crf(1279, 720), 34);
    assert_eq!(calculate_auto_crf(1280, 720), 32);
    assert_eq!(calculate_auto_crf(1000, 1000), 32);
    assert_eq!(calculate_auto_crf(1920, 800), 31);
    assert_eq!(calculate_auto_crf(1920, 1080), 28);
    assert_eq!(calculate_auto_crf(2560, 1440), 26);
    assert_eq!(calculate_auto_crf(3000, 1800), 24);
    assert_eq!(calculate_auto_crf(3840, 1600), 22);
    assert_eq!(calculate_auto_crf(3840, 2160), 20);
    assert_eq!(calculate_auto_crf(u32::MAX, u32::MAX), 20);
}

#[test]
fn auto_bitrate_by_pixel_count() {
    assert_eq!(calculate_auto_bitrate(640, 480), 1_000_000);
    assert_eq!(calculate_auto_bitrate(854, 480), 1_000_000);
    assert_eq!(calculate_auto_bitrate(1280, 720), 1_500_000);
    assert_eq!(calculate_auto_bitrate(1000, 1000), 1_500_000);
    assert_eq!(calculate_auto_bitrate(1920, 800), 2_000_000);
    assert_eq!(calculate_auto_bitrate(1920, 1080), 3_000_000);
    assert_eq!(calculate_auto_bitrate(2560, 1440), 4_000_000);
    assert_eq!(calculate_auto_bitrate(3000, 1800), 6_000_000);
    assert_eq!(calculate_auto_bitrate(3840, 1600), 8_000_000);
    assert_eq!(calculate_auto_bitrate(3840, 2160), 12_000_000);
}

#[test]
fn auto_settings_depend_on_pixels_only() {
    assert_eq!(calculate_auto_crf(1920, 1080), calculate_auto_crf(1080, 1920));
    assert_eq!(calculate_auto_bitrate(1920, 1080), calculate_auto_bitrate(1080, 1920));
    assert!(calculate_auto_crf(3840, 2160) <= calculate_auto_crf(1920, 1080));
    assert!(calculate_auto_bitrate(3840, 2160) >= calculate_auto_bitrate(1920, 1080));
}

#[test]
fn auto_audio_bitrate_by_channels() {
    for (ch, br) in [
        (0u32, 128_000u32),
        (1, 128_000),
        (2, 128_000),
        (3, 256_000),
        (5, 256_000),
        (6, 384_000),
        (7, 384_000),
        (8, 512_000),
        (24, 512_000),
    ] {
        assert_eq!(calculate_auto_audio_bitrate(ch), br);
    }
    assert!(calculate_auto_audio_bitrate(2) <= calculate_auto_audio_bitrate(6));
}

#[test]
fn audio_bitrate_labels() {
    assert_eq!(audio_bitrate_label(2), "~128 kbps");
    assert_eq!(audio_bitrate_label(6), "~384 kbps");
    assert_eq!(audio_bitrate_label(8), "~512 kbps");
}

#[test]
fn bitrate_with_suffixes() {
    assert_eq!(parse_bitrate("1500K"), Ok(Bitrate::Bits(1_500_000)));
    assert_eq!(parse_bitrate("1500k"), Ok(Bitrate::Bits(1_500_000)));
    assert_eq!(parse_bitrate("  128k \t"), Ok(Bitrate::Bits(128_000)));
    assert_eq!(parse_bitrate("+10K"), Ok(Bitrate::Bits(10_000)));
    assert_eq!(parse_bitrate("2M"), Ok(Bitrate::Megabits("2".to_string())));
    assert_eq!(parse_bitrate(" 1.5m"), Ok(Bitrate::Megabits("1.5".to_string())));
    assert_eq!(parse_bitrate("800000"), Ok(Bitrate::Bits(800_000)));
    assert_eq!(parse_bitrate("4294967K"), Ok(Bitrate::Bits(4_294_967_000)));
}

#[test]
fn bitrate_errors() {
    assert_eq!(parse_bitrate("abc"), Err(BitrateError::InvalidFormat));
    assert_eq!(parse_bitrate(""), Err(BitrateError::InvalidFormat));
    assert_eq!(parse_bitrate("-5"), Err(BitrateError::InvalidFormat));
    assert_eq!(parse_bitrate("4294967296"), Err(BitrateError::InvalidFormat));
    assert_eq!(parse_bitrate("12xK"), Err(BitrateError::InvalidKilobits));
    assert_eq!(parse_bitrate("K"), Err(BitrateError::InvalidKilobits));
    assert_eq!(parse_bitrate("1.5K"), Err(BitrateError::InvalidKilobits));
    assert_eq!(parse_bitrate("4294968K"), Err(BitrateError::KilobitsOverflow));
    assert_eq!(parse_bitrate("5000000k"), Err(BitrateError::KilobitsOverflow));
}

#[test]
fn uppercase_bitrate_reading() {
    assert_eq!(parse_uppercase_bitrate("96K"), Ok(Bitrate::Bits(96_000)));
    assert_eq!(parse_uppercase_bitrate("96k"), Err(BitrateError::InvalidFormat));
    assert_eq!(parse_uppercase_bitrate("3M"), Ok(Bitrate::Megabits("3".to_string())));
    assert_eq!(parse_uppercase_bitrate("007"), Ok(Bitrate::Bits(7)));
}

#[test]
fn bitrate_read_back() {
    for n in [0u32, 1, 96, 128, 4_294_967] {
        assert_eq!(parse_uppercase_bitrate(&format!("{}K", n)), Ok(Bitrate::Bits(n * 1000)));
    }
    for n in [0u32, 7, 1_500_000, u32::MAX] {
        assert_eq!(parse_uppercase_bitrate(&n.to_string()), Ok(Bitrate::Bits(n)));
    }
}

#[test]
fn video_bitrate_choice() {
    let mut cli = base_cli();
    assert_eq!(determine_video_bitrate(&cli, &info(1920, 1080)), Ok(None));
    cli.video_bitrate = Some("auto".to_string());
    assert_eq!(determine_video_bitrate(&cli, &info(1920, 1080)), Ok(Some(Bitrate::Bits(3_000_000))));
    assert_eq!(determine_video_bitrate(&cli, &info(3840, 2160)), Ok(Some(Bitrate::Bits(12_000_000))));
    cli.video_bitrate = Some("AUTO".to_string());
    assert_eq!(determine_video_bitrate(&cli, &info(1920, 1080)), Err(BitrateError::InvalidFormat));
    cli.video_bitrate = Some("2500K".to_string());
    assert_eq!(determine_video_bitrate(&cli, &info(1920, 1080)), Ok(Some(Bitrate::Bits(2_500_000))));
    cli.video_bitrate = Some("2M".to_string());
    assert_eq!(
        determine_video_bitrate(&cli, &info(1920, 1080)),
        Ok(Some(Bitrate::Megabits("2".to_string())))
    );
}

#[test]
fn audio_bitrate_choice() {
    let mut cli = base_cli();
    assert_eq!(determine_audio_bitrate(&cli, 6), Ok(None));
    cli.audio_bitrate = Some("auto".to_string());
    assert_eq!(determine_audio_bitrate(&cli, 6), Ok(Some(Bitrate::Bits(384_000))));
    assert_eq!(determine_audio_bitrate(&cli, 2), Ok(Some(Bitrate::Bits(128_000))));
    cli.audio_bitrate = Some("160K".to_string());
    assert_eq!(determine_audio_bitrate(&cli, 6), Ok(Some(Bitrate::Bits(160_000))));
    cli.audio_bitrate = Some("loud".to_string());
    assert_eq!(determine_audio_bitrate(&cli, 6), Err(BitrateError::InvalidFormat));
}

#[test]
fn crf_choice() {
    let mut cli = base_cli();
    assert_eq!(determine_crf(&cli, &info(1920, 1080)), Ok(None));
    cli.crf = Some("auto".to_string());
    assert_eq!(determine_crf(&cli, &info(1920, 1080)), Ok(Some(28)));
    assert_eq!(determine_crf(&cli, &info(640, 360)), Ok(Some(34)));
    assert_eq!(determine_crf(&cli, &info(1280, 720)), Ok(Some(32)));
    cli.crf = Some("22".to_string());
    assert_eq!(determine_crf(&cli, &info(1920, 1080)), Ok(Some(22)));
    cli.crf = Some("8".to_string());
    assert_eq!(determine_crf(&cli, &info(1920, 1080)), Ok(Some(8)));
    cli.crf = Some("48".to_string());
    assert_eq!(determine_crf(&cli, &info(1920, 1080)), Ok(Some(48)));
    cli.crf = Some("7".to_string());
    assert_eq!(determine_crf(&cli, &info(1920, 1080)), Err(CrfError::OutOfRange));
    cli.crf = Some("49".to_string());
    assert_eq!(determine_crf(&cli, &info(1920, 1080)), Err(CrfError::OutOfRange));
    cli.crf = Some("best".to_string());
    assert_eq!(determine_crf(&cli, &info(1920, 1080)), Err(CrfError::Invalid));
    cli.crf = Some(" 22".to_string());
    assert_eq!(determine_crf(&cli, &info(1920, 1080)), Err(CrfError::Invalid));
}

#[test]
fn crf_always_in_range() {
    let mut cli = base_cli();
    cli.crf = Some("auto".to_string());
    for (w, h) in [(0u32, 0u32), (640, 480), (1920, 1080), (7680, 4320), (u32::MAX, u32::MAX)] {
        let c = determine_crf(&cli, &info(w, h)).unwrap().unwrap();
        assert!((8..=48).contains(&c));
    }
}

#[test]
fn progress_lines() {
    assert_eq!(parse_out_time("out_time_ms=123456789"), Some(123_456_789));
    assert_eq!(parse_out_time("out_time_ms=0"), Some(0));
    assert_eq!(parse_out_time("out_time_ms=N/A"), None);
    assert_eq!(parse_out_time("out_time_ms="), None);
    assert_eq!(parse_out_time("out_time=00:00:01.000000"), None);
    assert_eq!(parse_out_time("frame=10"), None);
    assert_eq!(parse_out_time(" out_time_ms=5"), None);
    assert_eq!(parse_out_time("out_time_ms=18446744073709551615"), Some(u64::MAX));
    assert_eq!(parse_out_time("out_time_ms=18446744073709551616"), None);
}

#[test]
fn progress_line_read_back() {
    for n in [0u64, 42, 1_000_000, u64::MAX] {
        assert_eq!(parse_out_time(&format!("out_time_ms={}", n)), Some(n));
    }
}

#[test]
fn delete_and_rename_conflict() {
    let mut cli = base_cli();
    assert_eq!(cli.check_flags(), Ok(()));
    cli.delete = true;
    assert_eq!(cli.check_flags(), Ok(()));
    cli.rename = true;
    assert_eq!(cli.check_flags(), Err(CliError::DeleteAndRename));
    cli.delete = false;
    assert_eq!(cli.check_flags(), Ok(()));
}

fn with_tracks(channels: &[u32]) -> VideoInfo {
    let mut i = info(1920, 1080);
    for (k, c) in channels.iter().enumerate() {
        i.audio_tracks.push(AudioTrack {
            stream_order: k as u32 + 1,
            channels: *c,
            language: "und".to_string(),
            codec: "AAC".to_string(),
        });
    }
    i
}

#[test]
fn one_audio_bitrate_per_track() {
    let mut cli = base_cli();
    assert_eq!(
        choose_audio_bitrates(&cli, &with_tracks(&[2, 6, 8])),
        Ok(vec![Bitrate::Bits(128_000), Bitrate::Bits(384_000), Bitrate::Bits(512_000)])
    );
    assert_eq!(choose_audio_bitrates(&cli, &with_tracks(&[])), Ok(vec![]));
    cli.audio_bitrate = Some("auto".to_string());
    assert_eq!(
        choose_audio_bitrates(&cli, &with_tracks(&[1, 4])),
        Ok(vec![Bitrate::Bits(128_000), Bitrate::Bits(256_000)])
    );
    cli.audio_bitrate = Some("96k".to_string());
    assert_eq!(
        choose_audio_bitrates(&cli, &with_tracks(&[1, 4])),
        Ok(vec![Bitrate::Bits(96_000), Bitrate::Bits(96_000)])
    );
    cli.audio_bitrate = Some("x".to_string());
    assert_eq!(choose_audio_bitrates(&cli, &with_tracks(&[1, 4])), Err(BitrateError::InvalidFormat));
    assert_eq!(choose_audio_bitrates(&cli, &with_tracks(&[])), Ok(vec![]));
}

#[test]
fn kilobit_suffix_in_either_case() {
    for n in [0u32, 1, 128, 4_294_967] {
        assert_eq!(parse_bitrate(&format!("{}k", n)), Ok(Bitrate::Bits(n * 1000)));
        assert_eq!(parse_bitrate(&format!("{}K", n)), Ok(Bitrate::Bits(n * 1000)));
    }
}
