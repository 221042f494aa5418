use vopus9::video_info::{
    parse_audio_tracks, parse_duration_text, parse_subtitle_tracks, AudioTrack, InfoError,
    ResolutionCategory, SubtitleTrack, VideoInfo,
};

const REPORT: &str = r#"<?xml version="1.0" encoding="UTF-8"?>
<MediaInfo>
<media ref="movie.mkv">
<track type="General">
<Duration>5400.123</Duration>
<FileSize>123456</FileSize>
</track>
<track type="Video">
<StreamOrder>0</StreamOrder>
<Format>VP9</Format>
<Duration>5400.000</Duration>
<Width>1920</Width>
<Height>1080</Height>
<FrameRate>23.976</FrameRate>
</track>
<track type="Audio" typeorder="1">
<StreamOrder>2</StreamOrder>
<Format>AC-3</Format>
<Channels>6</Channels>
<Language>en</Language>
</track>
<track type="Audio" typeorder="2">
<StreamOrder>1</StreamOrder>
<Format>AAC</Format>
<Channels>2</Channels>
<Language>fr</Language>
</track>
<track type="Text">
<StreamOrder>3</StreamOrder>
<Format>UTF-8</Format>
</track>
</media>
</MediaInfo>
"#;

fn audio(order: u32, channels: u32, language: &str, codec: &str) -> AudioTrack {
    AudioTrack {
        stream_order: order,
        channels,
        language: language.to_string(),
        codec: codec.to_string(),
    }
}

fn subtitle(order: u32, language: &str, codec: &str) -> SubtitleTrack {
    SubtitleTrack { stream_order: order, language: language.to_string(), codec: codec.to_string() }
}

#[test]
fn full_report() {
    let info = VideoInfo::from_xml(REPORT).unwrap();
    assert_eq!(info.duration_text, "5400.123");
    assert_eq!(info.width, 1920);
    assert_eq!(info.height, 1080);
    assert_eq!(info.video_stream_order, 0);
    assert_eq!(info.video_codec, "VP9");
    assert_eq!(info.framerate_text, Some("23.976".to_string()));
    assert_eq!(info.audio_tracks, vec![audio(1, 2, "fr", "AAC"), audio(2, 6, "en", "AC-3")]);
    assert_eq!(info.subtitle_tracks, vec![subtitle(3, "und", "UTF-8")]);
    assert!(info.is_vp9());
    assert_eq!(info.get_resolution_category(), ResolutionCategory::P1080);
}

#[test]
fn duration_text() {
    assert_eq!(parse_duration_text(REPORT), Some("5400.123".to_string()));
    assert_eq!(parse_duration_text("<Width>1</Width>"), None);
    assert_eq!(parse_duration_text("<Duration>12"), None);
}

#[test]
fn report_errors_in_reading_order() {
    assert_eq!(VideoInfo::from_xml(""), Err(InfoError::DurationNotFound));
    assert_eq!(VideoInfo::from_xml("<Duration>1</Duration>"), Err(InfoError::WidthNotFound));
    assert_eq!(
        VideoInfo::from_xml("<Duration>1</Duration><Width>wide</Width>"),
        Err(InfoError::InvalidWidth)
    );
    assert_eq!(
        VideoInfo::from_xml("<Duration>1</Duration><Width>640</Width>"),
        Err(InfoError::HeightNotFound)
    );
    assert_eq!(
        VideoInfo::from_xml("<Duration>1</Duration><Width>640</Width><Height>-1</Height>"),
        Err(InfoError::InvalidHeight)
    );
    assert_eq!(
        VideoInfo::from_xml("<Duration>1</Duration><Width>640</Width><Height>480</Height>"),
        Err(InfoError::VideoStreamOrderNotFound)
    );
    assert_eq!(
        VideoInfo::from_xml(
            "<Duration>1</Duration><Width>640</Width><Height>480</Height><track type=\"Video\"><StreamOrder>x</StreamOrder>"
        ),
        Err(InfoError::InvalidVideoStreamOrder)
    );
}

#[test]
fn minimal_report_defaults() {
    let xml = "<Duration>2.5</Duration><Width>640</Width><Height>480</Height><track type=\"Video\"><StreamOrder>0</StreamOrder></track>";
    let info = VideoInfo::from_xml(xml).unwrap();
    assert_eq!(info.video_codec, "Unknown");
    assert_eq!(info.framerate_text, None);
    assert!(info.audio_tracks.is_empty());
    assert!(info.subtitle_tracks.is_empty());
    assert!(!info.is_vp9());
    assert_eq!(info.get_resolution_category(), ResolutionCategory::LessThan720p);
}

#[test]
fn audio_track_defaults_and_skips() {
    let xml = [
        "<track type=\"Audio\"><Format>Opus</Format></track>",
        "<track type=\"Audio\"><StreamOrder>5</StreamOrder><Channels>many</Channels></track>",
        "<track type=\"Audio\"><StreamOrder>x</StreamOrder><Channels>1</Channels><Language>de</Language></track>",
        "<track type=\"Audio\"><StreamOrder>4</StreamOrder>",
    ]
    .concat();
    assert_eq!(
        parse_audio_tracks(&xml),
        vec![audio(0, 1, "de", "Unknown"), audio(5, 2, "und", "Unknown")]
    );
}

#[test]
fn tracks_keep_report_order_within_equal_stream_order() {
    let xml = [
        "<track type=\"Audio\"><StreamOrder>3</StreamOrder><Language>a</Language></track>",
        "<track type=\"Audio\"><StreamOrder>1</StreamOrder><Language>b</Language></track>",
        "<track type=\"Audio\"><StreamOrder>3</StreamOrder><Language>c</Language></track>",
        "<track type=\"Audio\"><StreamOrder>1</StreamOrder><Language>d</Language></track>",
        "<track type=\"Audio\"><StreamOrder>2</StreamOrder><Language>e</Language></track>",
    ]
    .concat();
    let tracks = parse_audio_tracks(&xml);
    let langs: Vec<&str> = tracks.iter().map(|t| t.language.as_str()).collect();
    assert_eq!(langs, vec!["b", "d", "e", "a", "c"]);
    let orders: Vec<u32> = tracks.iter().map(|t| t.stream_order).collect();
    assert_eq!(orders, vec![1, 1, 2, 3, 3]);
}

#[test]
fn ordering_is_unique_and_keeps_sorted_input() {
    let sorted = [
        "<track type=\"Text\"><StreamOrder>1</StreamOrder><Language>x</Language></track>",
        "<track type=\"Text\"><StreamOrder>1</StreamOrder><Language>y</Language></track>",
        "<track type=\"Text\"><StreamOrder>7</StreamOrder><Language>z</Language></track>",
    ]
    .concat();
    assert_eq!(
        parse_subtitle_tracks(&sorted),
        vec![subtitle(1, "x", "Unknown"), subtitle(1, "y", "Unknown"), subtitle(7, "z", "Unknown")]
    );
    assert_eq!(parse_subtitle_tracks(&sorted), parse_subtitle_tracks(&sorted));
}

#[test]
fn subtitle_tracks_only_from_text_sections() {
    let xml = [
        "<track type=\"Audio\"><StreamOrder>1</StreamOrder></track>",
        "<track type=\"Text\" typeorder=\"2\"><StreamOrder>9</StreamOrder><Language>es</Language><Format>PGS</Format></track>",
        "<track type=\"Text\" typeorder=\"1\"><StreamOrder>8</StreamOrder></track>",
    ]
    .concat();
    assert_eq!(
        parse_subtitle_tracks(&xml),
        vec![subtitle(8, "und", "Unknown"), subtitle(9, "es", "PGS")]
    );
}

#[test]
fn vp9_detection_ignores_case() {
    let mut info = VideoInfo::from_xml(REPORT).unwrap();
    info.video_codec = "vp9".to_string();
    assert!(info.is_vp9());
    info.video_codec = "Google VP9 profile 0".to_string();
    assert!(info.is_vp9());
    info.video_codec = "AVC".to_string();
    assert!(!info.is_vp9());
    info.video_codec = "VP8".to_string();
    assert!(!info.is_vp9());
}

#[test]
fn resolution_categories() {
    let mut info = VideoInfo::from_xml(REPORT).unwrap();
    for (h, c, label) in [
        (0u32, ResolutionCategory::LessThan720p, "<720p"),
        (719, ResolutionCategory::LessThan720p, "<720p"),
        (720, ResolutionCategory::P720, "720p"),
        (1079, ResolutionCategory::P720, "720p"),
        (1080, ResolutionCategory::P1080, "1080p"),
        (2159, ResolutionCategory::P1080, "1080p"),
        (2160, ResolutionCategory::P2160, "4K"),
    ] {
        info.height = h;
        assert_eq!(info.get_resolution_category(), c);
        assert_eq!(c.label(), label);
    }
}
