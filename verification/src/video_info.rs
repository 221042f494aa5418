//! What a mediainfo XML report says about a video file.

use vstd::prelude::*;

use crate::ordering::{sort_by_stream_order, stably_ordered, views, StreamOrdered};
use crate::text::{
    ascii_upper, is_ascii_text,
    chars_of, find_chars, find_from, lemma_find_from, occurs_at, parse_unsigned,
    parse_unsigned_chars, slice_chars, string_from_chars, tag_text, tag_text_chars, text_or,
    to_uppercase, uppercase,
};

verus! {

/// An audio track.
#[derive(Clone, Debug, PartialEq, Eq)]
pub struct AudioTrack {
    pub stream_order: u32,
    pub channels: u32,
    pub language: String,
    pub codec: String,
}

/// A subtitle track.
#[derive(Clone, Debug, PartialEq, Eq)]
pub struct SubtitleTrack {
    pub stream_order: u32,
    pub language: String,
    pub codec: String,
}

/// An audio track with its texts as characters.
pub struct AudioTrackView {
    pub stream_order: u32,
    pub channels: u32,
    pub language: Seq<char>,
    pub codec: Seq<char>,
}

/// A subtitle track with its texts as characters.
pub struct SubtitleTrackView {
    pub stream_order: u32,
    pub language: Seq<char>,
    pub codec: Seq<char>,
}

impl View for AudioTrack {
    type V = AudioTrackView;

    open spec fn view(&self) -> AudioTrackView {
        AudioTrackView {
            stream_order: self.stream_order,
            channels: self.channels,
            language: self.language@,
            codec: self.codec@,
        }
    }
}

impl View for SubtitleTrack {
    type V = SubtitleTrackView;

    open spec fn view(&self) -> SubtitleTrackView {
        SubtitleTrackView {
            stream_order: self.stream_order,
            language: self.language@,
            codec: self.codec@,
        }
    }
}

impl StreamOrdered for AudioTrack {
    open spec fn order_of(v: AudioTrackView) -> u32 {
        v.stream_order
    }

    fn order(&self) -> (k: u32) {
        self.stream_order
    }

    fn duplicate(&self) -> (r: Self) {
        AudioTrack {
            stream_order: self.stream_order,
            channels: self.channels,
            language: self.language.clone(),
            codec: self.codec.clone(),
        }
    }
}

impl StreamOrdered for SubtitleTrack {
    open spec fn order_of(v: SubtitleTrackView) -> u32 {
        v.stream_order
    }

    fn order(&self) -> (k: u32) {
        self.stream_order
    }

    fn duplicate(&self) -> (r: Self) {
        SubtitleTrack {
            stream_order: self.stream_order,
            language: self.language.clone(),
            codec: self.codec.clone(),
        }
    }
}

/// The number in an optional text, or `default` when the text is missing or
/// is not a `u32`.
pub open spec fn number_or(o: Option<Seq<char>>, default: u32) -> u32 {
    match o {
        Some(t) => match parse_unsigned(t, u32::MAX as nat) {
            Some(n) => n as u32,
            None => default,
        },
        None => default,
    }
}

/// The audio track described by the report section `t`, whose stream order
/// element holds `so`.
pub open spec fn audio_track_of(t: Seq<char>, so: Seq<char>) -> AudioTrackView {
    AudioTrackView {
        stream_order: number_or(Some(so), 0),
        channels: number_or(tag_text(t, "<Channels>"@, "</Channels>"@, 0), 2),
        language: text_or(tag_text(t, "<Language>"@, "</Language>"@, 0), "und"@),
        codec: text_or(tag_text(t, "<Format>"@, "</Format>"@, 0), "Unknown"@),
    }
}

/// The subtitle track described by the report section `t`, whose stream
/// order element holds `so`.
pub open spec fn subtitle_track_of(t: Seq<char>, so: Seq<char>) -> SubtitleTrackView {
    SubtitleTrackView {
        stream_order: number_or(Some(so), 0),
        language: text_or(tag_text(t, "<Language>"@, "</Language>"@, 0), "und"@),
        codec: text_or(tag_text(t, "<Format>"@, "</Format>"@, 0), "Unknown"@),
    }
}

/// The sections of the report `x` that begin with `open` at or after `pos`,
/// each running to the first `</track>` after its start, paired with their
/// stream order text, in report order. A section without a stream order is
/// skipped; the search stops at a section that is never closed.
pub open spec fn sections_from(x: Seq<char>, open: Seq<char>, pos: int) -> Seq<(Seq<char>, Seq<char>)>
    decreases x.len() + 1 - pos,
{
    if pos < 0 {
        Seq::empty()
    } else {
        match find_from(x, open, pos) {
            None => Seq::empty(),
            Some(a) => match find_from(x, "</track>"@, a) {
                None => Seq::empty(),
                Some(e) => {
                    proof {
                        reveal_strlit("</track>");
                        lemma_find_from(x, open, pos);
                        lemma_find_from(x, "</track>"@, a);
                    }
                    let t = x.subrange(a, e + "</track>"@.len());
                    match tag_text(t, "<StreamOrder>"@, "</StreamOrder>"@, 0) {
                        None => sections_from(x, open, a + 1),
                        Some(so) => seq![(t, so)] + sections_from(x, open, e + "</track>"@.len()),
                    }
                },
            },
        }
    }
}

/// A track type read from a report section.
pub trait ReportTrack: StreamOrdered {
    /// The track described by the section `t`, whose stream order element
    /// holds `so`.
    spec fn of_section(t: Seq<char>, so: Seq<char>) -> Self::V;

    /// Reads the track described by the section `t` with stream order text `so`.
    fn from_section(t: &Vec<char>, so: &Vec<char>) -> (r: Self)
        ensures
            r@ == Self::of_section(t@, so@),
    ;
}

/// The tracks of type `T` in the report `x`, whose sections begin with
/// `open`, in report order.
pub open spec fn tracks_in<T: ReportTrack>(x: Seq<char>, open: Seq<char>) -> Seq<T::V> {
    sections_from(x, open, 0).map_values(|s: (Seq<char>, Seq<char>)| T::of_section(s.0, s.1))
}

/// The audio tracks of the report `x`, in report order.
pub open spec fn audio_tracks_in(x: Seq<char>) -> Seq<AudioTrackView> {
    tracks_in::<AudioTrack>(x, "<track type=\"Audio\""@)
}

/// The subtitle tracks of the report `x`, in report order.
pub open spec fn subtitle_tracks_in(x: Seq<char>) -> Seq<SubtitleTrackView> {
    tracks_in::<SubtitleTrack>(x, "<track type=\"Text\""@)
}

fn number_or_exec(o: Option<Vec<char>>, default: u32) -> (n: u32)
    ensures
        n == number_or(
            match o {
                Some(t) => Some(t@),
                None => None,
            },
            default,
        ),
{
    match o {
        Some(t) => match parse_unsigned_chars(&t, 0xffff_ffff) {
            Some(n) => n as u32,
            None => default,
        },
        None => default,
    }
}

fn text_or_exec(o: Option<Vec<char>>, default: &str) -> (s: String)
    ensures
        s@ == text_or(
            match o {
                Some(t) => Some(t@),
                None => None,
            },
            default@,
        ),
{
    match o {
        Some(t) => string_from_chars(&t),
        None => default.to_owned(),
    }
}

/// The sections of `x` that begin with `open`, with their stream order texts.
fn collect_sections(x: &Vec<char>, open: &str) -> (r: Vec<(Vec<char>, Vec<char>)>)
    ensures
        r@.map_values(|s: (Vec<char>, Vec<char>)| (s.0@, s.1@)) == sections_from(x@, open@, 0),
{
    let o = chars_of(open);
    let close = chars_of("</track>");
    proof {
        reveal_strlit("</track>");
    }
    let mut out: Vec<(Vec<char>, Vec<char>)> = Vec::new();
    let mut pos: usize = 0;
    loop
        invariant
            o@ == open@,
            close@ == "</track>"@,
            close@.len() == 8,
            pos <= x@.len() + 1,
            out@.map_values(|s: (Vec<char>, Vec<char>)| (s.0@, s.1@)) + sections_from(
                x@,
                open@,
                pos as int,
            ) == sections_from(x@, open@, 0),
        decreases x@.len() + 1 - pos,
    {
        let ghost done = out@.map_values(|s: (Vec<char>, Vec<char>)| (s.0@, s.1@));
        match find_chars(x, &o, pos) {
            None => {
                assert(done =~= done + sections_from(x@, open@, pos as int));
                return out;
            },
            Some(a) => {
                proof {
                    lemma_find_from(x@, o@, pos as int);
                }
                match find_chars(x, &close, a) {
                    None => {
                        assert(done =~= done + sections_from(x@, open@, pos as int));
                        return out;
                    },
                    Some(e) => {
                        proof {
                            lemma_find_from(x@, close@, a as int);
                        }
                        assert(e + close@.len() <= x@.len());
                        let t = slice_chars(x, a, e + close.len());
                        match tag_text_chars(&t, "<StreamOrder>", "</StreamOrder>", 0) {
                            None => {
                                pos = a + 1;
                            },
                            Some(so) => {
                                let ghost item = (t@, so@);
                                out.push((t, so));
                                assert(out@.map_values(|s: (Vec<char>, Vec<char>)| (s.0@, s.1@))
                                    =~= done.push(item));
                                assert(done.push(item) + sections_from(x@, open@, e + 8) =~= done
                                    + (seq![item] + sections_from(x@, open@, e + 8)));
                                pos = e + close.len();
                            },
                        }
                    },
                }
            },
        }
    }
}

impl ReportTrack for AudioTrack {
    open spec fn of_section(t: Seq<char>, so: Seq<char>) -> AudioTrackView {
        audio_track_of(t, so)
    }

    fn from_section(t: &Vec<char>, so: &Vec<char>) -> (r: Self) {
        assert(so@.subrange(0, so@.len() as int) =~= so@);
        AudioTrack {
            stream_order: number_or_exec(Some(slice_chars(so, 0, so.len())), 0),
            channels: number_or_exec(tag_text_chars(t, "<Channels>", "</Channels>", 0), 2),
            language: text_or_exec(tag_text_chars(t, "<Language>", "</Language>", 0), "und"),
            codec: text_or_exec(tag_text_chars(t, "<Format>", "</Format>", 0), "Unknown"),
        }
    }
}

impl ReportTrack for SubtitleTrack {
    open spec fn of_section(t: Seq<char>, so: Seq<char>) -> SubtitleTrackView {
        subtitle_track_of(t, so)
    }

    fn from_section(t: &Vec<char>, so: &Vec<char>) -> (r: Self) {
        assert(so@.subrange(0, so@.len() as int) =~= so@);
        SubtitleTrack {
            stream_order: number_or_exec(Some(slice_chars(so, 0, so.len())), 0),
            language: text_or_exec(tag_text_chars(t, "<Language>", "</Language>", 0), "und"),
            codec: text_or_exec(tag_text_chars(t, "<Format>", "</Format>", 0), "Unknown"),
        }
    }
}

/// The tracks whose sections begin with `open`, by ascending stream order.
fn tracks_chars<T: ReportTrack>(x: &Vec<char>, open: &str) -> (r: Vec<T>)
    ensures
        stably_ordered::<T>(views(r@), tracks_in::<T>(x@, open@)),
{
    let sections = collect_sections(x, open);
    let ghost sv = sections@.map_values(|s: (Vec<char>, Vec<char>)| (s.0@, s.1@));
    let ghost f = |s: (Seq<char>, Seq<char>)| T::of_section(s.0, s.1);
    let mut tracks: Vec<T> = Vec::new();
    let mut i: usize = 0;
    while i < sections.len()
        invariant
            i <= sections.len(),
            sv == sections@.map_values(|s: (Vec<char>, Vec<char>)| (s.0@, s.1@)),
            sv == sections_from(x@, open@, 0),
            f == (|s: (Seq<char>, Seq<char>)| T::of_section(s.0, s.1)),
            views(tracks@) == sv.take(i as int).map_values(f),
        decreases sections.len() - i,
    {
        assert(sv[i as int] == (sections@[i as int].0@, sections@[i as int].1@));
        let track = T::from_section(&sections[i].0, &sections[i].1);
        let ghost before = views(tracks@);
        tracks.push(track);
        i += 1;
        assert(views(tracks@) =~= before.push(track@));
        assert(sv.take(i as int) =~= sv.take(i - 1).push(sv[i - 1]));
        assert(sv.take(i as int).map_values(f) =~= sv.take(i - 1).map_values(f).push(f(sv[i - 1])));
    }
    assert(sv.take(sections.len() as int) =~= sv);
    sort_by_stream_order(&tracks)
}

fn audio_tracks_chars(x: &Vec<char>) -> (r: Vec<AudioTrack>)
    ensures
        stably_ordered::<AudioTrack>(views(r@), audio_tracks_in(x@)),
{
    tracks_chars(x, "<track type=\"Audio\"")
}

fn subtitle_tracks_chars(x: &Vec<char>) -> (r: Vec<SubtitleTrack>)
    ensures
        stably_ordered::<SubtitleTrack>(views(r@), subtitle_tracks_in(x@)),
{
    tracks_chars(x, "<track type=\"Text\"")
}

/// The audio tracks that the report `xml` describes, by ascending stream
/// order (tracks of equal stream order in report order).
pub fn parse_audio_tracks(xml: &str) -> (r: Vec<AudioTrack>)
    ensures
        stably_ordered::<AudioTrack>(views(r@), audio_tracks_in(xml@)),
{
    audio_tracks_chars(&chars_of(xml))
}

/// The subtitle tracks that the report `xml` describes, by ascending stream
/// order (tracks of equal stream order in report order).
pub fn parse_subtitle_tracks(xml: &str) -> (r: Vec<SubtitleTrack>)
    ensures
        stably_ordered::<SubtitleTrack>(views(r@), subtitle_tracks_in(xml@)),
{
    subtitle_tracks_chars(&chars_of(xml))
}


/// What the encoder needs to know of a video file.
///
/// The duration and frame rate stay as the report writes them: they are
/// decimal fractions, which callers read as floating-point numbers.
#[derive(Clone, Debug, PartialEq, Eq)]
pub struct VideoInfo {
    /// The text of the first `<Duration>` element (seconds).
    pub duration_text: String,
    pub width: u32,
    pub height: u32,
    pub video_stream_order: u32,
    pub video_codec: String,
    pub audio_tracks: Vec<AudioTrack>,
    pub subtitle_tracks: Vec<SubtitleTrack>,
    /// The text of the video track's `<FrameRate>` element, if it has one.
    pub framerate_text: Option<String>,
}

/// Why a report could not be read.
#[derive(Clone, Copy, Debug, PartialEq, Eq, Structural)]
pub enum InfoError {
    DurationNotFound,
    WidthNotFound,
    InvalidWidth,
    HeightNotFound,
    InvalidHeight,
    VideoStreamOrderNotFound,
    InvalidVideoStreamOrder,
}

/// The text of the first `<Duration>` element.
pub open spec fn duration_of(x: Seq<char>) -> Option<Seq<char>> {
    tag_text(x, "<Duration>"@, "</Duration>"@, 0)
}

/// A required number: missing or not a `u32`, it is refused.
pub open spec fn required_number(
    o: Option<Seq<char>>,
    missing: InfoError,
    invalid: InfoError,
) -> Result<u32, InfoError> {
    match o {
        None => Err(missing),
        Some(t) => match parse_unsigned(t, u32::MAX as nat) {
            Some(n) => Ok(n as u32),
            None => Err(invalid),
        },
    }
}

/// The width given by the first `<Width>` element.
pub open spec fn width_of(x: Seq<char>) -> Result<u32, InfoError> {
    required_number(
        tag_text(x, "<Width>"@, "</Width>"@, 0),
        InfoError::WidthNotFound,
        InfoError::InvalidWidth,
    )
}

/// The height given by the first `<Height>` element.
pub open spec fn height_of(x: Seq<char>) -> Result<u32, InfoError> {
    required_number(
        tag_text(x, "<Height>"@, "</Height>"@, 0),
        InfoError::HeightNotFound,
        InfoError::InvalidHeight,
    )
}

/// Where the first video track section begins.
pub open spec fn video_start(x: Seq<char>) -> Option<int> {
    find_from(x, "<track type=\"Video\">"@, 0)
}

/// The text of the first `open ... close` element at or after the video
/// track's start.
pub open spec fn video_tag(x: Seq<char>, open: Seq<char>, close: Seq<char>) -> Option<Seq<char>> {
    match video_start(x) {
        Some(v) => tag_text(x, open, close, v),
        None => None,
    }
}

/// The video track's stream order.
pub open spec fn video_stream_order_of(x: Seq<char>) -> Result<u32, InfoError> {
    required_number(
        video_tag(x, "<StreamOrder>"@, "</StreamOrder>"@),
        InfoError::VideoStreamOrderNotFound,
        InfoError::InvalidVideoStreamOrder,
    )
}

/// The video track's format, `Unknown` when none is given.
pub open spec fn video_codec_of(x: Seq<char>) -> Seq<char> {
    text_or(video_tag(x, "<Format>"@, "</Format>"@), "Unknown"@)
}

/// The video track's frame rate text.
pub open spec fn framerate_of(x: Seq<char>) -> Option<Seq<char>> {
    video_tag(x, "<FrameRate>"@, "</FrameRate>"@)
}

/// The first reason, in reading order, why the report `x` cannot be read.
pub open spec fn report_error(x: Seq<char>) -> Option<InfoError> {
    if duration_of(x) is None {
        Some(InfoError::DurationNotFound)
    } else if width_of(x) is Err {
        Some(width_of(x)->Err_0)
    } else if height_of(x) is Err {
        Some(height_of(x)->Err_0)
    } else if video_stream_order_of(x) is Err {
        Some(video_stream_order_of(x)->Err_0)
    } else {
        None
    }
}

/// `info` is what the report `x` says.
pub open spec fn describes(info: VideoInfo, x: Seq<char>) -> bool {
    &&& duration_of(x) == Some(info.duration_text@)
    &&& width_of(x) == Ok::<u32, InfoError>(info.width)
    &&& height_of(x) == Ok::<u32, InfoError>(info.height)
    &&& video_stream_order_of(x) == Ok::<u32, InfoError>(info.video_stream_order)
    &&& info.video_codec@ == video_codec_of(x)
    &&& stably_ordered::<AudioTrack>(views(info.audio_tracks@), audio_tracks_in(x))
    &&& stably_ordered::<SubtitleTrack>(views(info.subtitle_tracks@), subtitle_tracks_in(x))
    &&& match info.framerate_text {
        Some(f) => framerate_of(x) == Some(f@),
        None => framerate_of(x) is None,
    }
}

fn required_number_exec(o: Option<Vec<char>>, missing: InfoError, invalid: InfoError) -> (r: Result<
    u32,
    InfoError,
>)
    ensures
        r == required_number(
            match o {
                Some(t) => Some(t@),
                None => None,
            },
            missing,
            invalid,
        ),
{
    match o {
        None => Err(missing),
        Some(t) => match parse_unsigned_chars(&t, 0xffff_ffff) {
            Some(n) => Ok(n as u32),
            None => Err(invalid),
        },
    }
}

fn video_tag_exec(x: &Vec<char>, open: &str, close: &str) -> (r: Option<Vec<char>>)
    ensures
        match r {
            Some(t) => video_tag(x@, open@, close@) == Some(t@),
            None => video_tag(x@, open@, close@) is None,
        },
{
    match find_chars(x, &chars_of("<track type=\"Video\">"), 0) {
        Some(v) => tag_text_chars(x, open, close, v),
        None => None,
    }
}

/// The text of the report's first `<Duration>` element (seconds).
pub fn parse_duration_text(xml: &str) -> (r: Option<String>)
    ensures
        match r {
            Some(d) => duration_of(xml@) == Some(d@),
            None => duration_of(xml@) is None,
        },
{
    match tag_text_chars(&chars_of(xml), "<Duration>", "</Duration>", 0) {
        Some(d) => Some(string_from_chars(&d)),
        None => None,
    }
}

impl VideoInfo {
    /// Reads what the encoder needs from a mediainfo XML report.
    pub fn from_xml(xml: &str) -> (r: Result<VideoInfo, InfoError>)
        ensures
            match r {
                Ok(info) => report_error(xml@) is None && describes(info, xml@),
                Err(e) => report_error(xml@) == Some(e),
            },
    {
        let x = chars_of(xml);
        let duration = match tag_text_chars(&x, "<Duration>", "</Duration>", 0) {
            Some(d) => string_from_chars(&d),
            None => return Err(InfoError::DurationNotFound),
        };
        let width = required_number_exec(
            tag_text_chars(&x, "<Width>", "</Width>", 0),
            InfoError::WidthNotFound,
            InfoError::InvalidWidth,
        )?;
        let height = required_number_exec(
            tag_text_chars(&x, "<Height>", "</Height>", 0),
            InfoError::HeightNotFound,
            InfoError::InvalidHeight,
        )?;
        let video_stream_order = required_number_exec(
            video_tag_exec(&x, "<StreamOrder>", "</StreamOrder>"),
            InfoError::VideoStreamOrderNotFound,
            InfoError::InvalidVideoStreamOrder,
        )?;
        let video_codec = text_or_exec(video_tag_exec(&x, "<Format>", "</Format>"), "Unknown");
        let audio_tracks = audio_tracks_chars(&x);
        let subtitle_tracks = subtitle_tracks_chars(&x);
        let framerate_text = match video_tag_exec(&x, "<FrameRate>", "</FrameRate>") {
            Some(f) => Some(string_from_chars(&f)),
            None => None,
        };
        Ok(
            VideoInfo {
                duration_text: duration,
                width,
                height,
                video_stream_order,
                video_codec,
                audio_tracks,
                subtitle_tracks,
                framerate_text,
            },
        )
    }

    /// The resolution class of the picture, by its height.
    pub fn get_resolution_category(&self) -> (c: ResolutionCategory)
        ensures
            c == resolution_category_of(self.height),
    {
        if self.height < 720 {
            ResolutionCategory::LessThan720p
        } else if self.height < 1080 {
            ResolutionCategory::P720
        } else if self.height < 2160 {
            ResolutionCategory::P1080
        } else {
            ResolutionCategory::P2160
        }
    }

    /// Whether the video is already VP9: its uppercased codec name contains `VP9`.
    pub fn is_vp9(&self) -> (b: bool)
        ensures
            b == codec_is_vp9(self.video_codec@),
            is_ascii_text(self.video_codec@) ==> (b == find_from(
                self.video_codec@.map_values(|c: char| ascii_upper(c)),
                "VP9"@,
                0,
            ) is Some),
    {
        let upper = chars_of(to_uppercase(self.video_codec.as_str()).as_str());
        find_chars(&upper, &chars_of("VP9"), 0).is_some()
    }
}

/// The codec name, uppercased, contains `VP9`.
pub open spec fn codec_is_vp9(codec: Seq<char>) -> bool {
    find_from(uppercase(codec), "VP9"@, 0) is Some
}

/// Resolution classes.
#[derive(Clone, Copy, Debug, PartialEq, Eq, Structural)]
pub enum ResolutionCategory {
    LessThan720p,
    P720,
    P1080,
    P2160,
}

/// The resolution class of a picture `height` pixels high.
pub open spec fn resolution_category_of(height: u32) -> ResolutionCategory {
    if height < 720 {
        ResolutionCategory::LessThan720p
    } else if height < 1080 {
        ResolutionCategory::P720
    } else if height < 2160 {
        ResolutionCategory::P1080
    } else {
        ResolutionCategory::P2160
    }
}

impl ResolutionCategory {
    /// The short name shown for the class.
    pub fn label(&self) -> (s: String)
        ensures
            s@ == category_label(*self),
    {
        match self {
            ResolutionCategory::LessThan720p => "<720p".to_owned(),
            ResolutionCategory::P720 => "720p".to_owned(),
            ResolutionCategory::P1080 => "1080p".to_owned(),
            ResolutionCategory::P2160 => "4K".to_owned(),
        }
    }
}

/// The short name of a resolution class.
pub open spec fn category_label(c: ResolutionCategory) -> Seq<char> {
    match c {
        ResolutionCategory::LessThan720p => "<720p"@,
        ResolutionCategory::P720 => "720p"@,
        ResolutionCategory::P1080 => "1080p"@,
        ResolutionCategory::P2160 => "4K"@,
    }
}

} // verus!
