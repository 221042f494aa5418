//! Quality settings, output naming and the encoder command line.

use vstd::prelude::*;

use crate::cli::{speed_args, Cli, Speed};
use crate::paths::{
    extension, file_name, file_stem, join, parent, path_extension, path_file_name,
    path_file_stem, path_join, path_parent, path_strip_prefix, strip_prefix,
};
use crate::ordering::{law_stable_order_unique, sort_by_stream_order, stably_ordered, views, StreamOrdered};
use crate::video_info::VideoInfo;
use crate::text::{
    ascii_upper, chars_eq, chars_of, decimal, is_ascii_text, lemma_trimmed_ascii,
    lemma_trimmed_unchanged, opt_chars, decimal_chars, digit_char, parse_unsigned, text_or, parse_unsigned_chars, slice_chars, string_from_chars, to_uppercase,
    trim_chars, trimmed, uppercase,
};

verus! {

/// The CRF chosen automatically for a picture of `width` x `height` pixels:
/// 34 below 720p (fewer pixels than 1280x720), 32 at 720p, 28 at 1080p, 20
/// at 4K, with steps in between by pixel count.
pub open spec fn auto_crf(width: u32, height: u32) -> u32 {
    let p = width as int * height as int;
    if p < 921_600 {
        34
    } else if p < 1_500_000 {
        32
    } else if p < 2_000_000 {
        31
    } else if p < 2_500_000 {
        28
    } else if p < 4_000_000 {
        26
    } else if p < 6_000_000 {
        24
    } else if p < 8_000_000 {
        22
    } else {
        20
    }
}

/// The video bitrate (bits per second) chosen automatically for a picture of
/// `width` x `height` pixels: 1 Mbps below 720p (fewer pixels than
/// 1280x720), 1.5 Mbps at 720p, 3 Mbps at 1080p, 12 Mbps at 4K, with steps
/// in between by pixel count.
pub open spec fn auto_bitrate(width: u32, height: u32) -> u32 {
    let p = width as int * height as int;
    if p < 921_600 {
        1_000_000
    } else if p < 1_500_000 {
        1_500_000
    } else if p < 2_000_000 {
        2_000_000
    } else if p < 2_500_000 {
        3_000_000
    } else if p < 4_000_000 {
        4_000_000
    } else if p < 6_000_000 {
        6_000_000
    } else if p < 8_000_000 {
        8_000_000
    } else {
        12_000_000
    }
}

/// The Opus bitrate (bits per second) chosen automatically for a track with
/// `channels` channels.
pub open spec fn auto_audio_bitrate(channels: u32) -> u32 {
    if channels <= 2 {
        128_000
    } else if channels <= 5 {
        256_000
    } else if channels <= 7 {
        384_000
    } else {
        512_000
    }
}

/// Law: the automatic CRF depends only on the pixel count, and never rises
/// as the pixel count grows.
pub proof fn law_auto_crf_by_pixels(w1: u32, h1: u32, w2: u32, h2: u32)
    requires
        w1 as int * h1 as int <= w2 as int * h2 as int,
    ensures
        auto_crf(w2, h2) <= auto_crf(w1, h1),
        w1 as int * h1 as int == w2 as int * h2 as int ==> auto_crf(w1, h1) == auto_crf(w2, h2),
{
}

/// Law: the automatic video bitrate depends only on the pixel count, and
/// never falls as the pixel count grows.
pub proof fn law_auto_bitrate_by_pixels(w1: u32, h1: u32, w2: u32, h2: u32)
    requires
        w1 as int * h1 as int <= w2 as int * h2 as int,
    ensures
        auto_bitrate(w1, h1) <= auto_bitrate(w2, h2),
        w1 as int * h1 as int == w2 as int * h2 as int ==> auto_bitrate(w1, h1) == auto_bitrate(
            w2,
            h2,
        ),
{
}

/// Law: more audio channels never get a lower automatic bitrate.
pub proof fn law_auto_audio_bitrate_by_channels(c1: u32, c2: u32)
    requires
        c1 <= c2,
    ensures
        auto_audio_bitrate(c1) <= auto_audio_bitrate(c2),
{
}

/// Law: the automatic CRF by pixel count `p`: 34 below 921,600 (720p), 32
/// below 1,500,000, 31 below 2,000,000, 28 below 2,500,000, 26 below
/// 4,000,000, 24 below 6,000,000, 22 below 8,000,000, and 20 from there on.
pub proof fn law_auto_crf_bands(width: u32, height: u32)
    ensures
        ({
            let p = width as int * height as int;
            &&& p < 921_600 ==> auto_crf(width, height) == 34
            &&& 921_600 <= p < 1_500_000 ==> auto_crf(width, height) == 32
            &&& 1_500_000 <= p < 2_000_000 ==> auto_crf(width, height) == 31
            &&& 2_000_000 <= p < 2_500_000 ==> auto_crf(width, height) == 28
            &&& 2_500_000 <= p < 4_000_000 ==> auto_crf(width, height) == 26
            &&& 4_000_000 <= p < 6_000_000 ==> auto_crf(width, height) == 24
            &&& 6_000_000 <= p < 8_000_000 ==> auto_crf(width, height) == 22
            &&& 8_000_000 <= p ==> auto_crf(width, height) == 20
        }),
{
}

/// Law: the automatic video bitrate by pixel count `p`, in bits per second:
/// 1,000,000 below 921,600 (720p), 1,500,000 below 1,500,000, 2,000,000
/// below 2,000,000, 3,000,000 below 2,500,000, 4,000,000 below 4,000,000,
/// 6,000,000 below 6,000,000, 8,000,000 below 8,000,000, and 12,000,000
/// from there on.
pub proof fn law_auto_bitrate_bands(width: u32, height: u32)
    ensures
        ({
            let p = width as int * height as int;
            &&& p < 921_600 ==> auto_bitrate(width, height) == 1_000_000
            &&& 921_600 <= p < 1_500_000 ==> auto_bitrate(width, height) == 1_500_000
            &&& 1_500_000 <= p < 2_000_000 ==> auto_bitrate(width, height) == 2_000_000
            &&& 2_000_000 <= p < 2_500_000 ==> auto_bitrate(width, height) == 3_000_000
            &&& 2_500_000 <= p < 4_000_000 ==> auto_bitrate(width, height) == 4_000_000
            &&& 4_000_000 <= p < 6_000_000 ==> auto_bitrate(width, height) == 6_000_000
            &&& 6_000_000 <= p < 8_000_000 ==> auto_bitrate(width, height) == 8_000_000
            &&& 8_000_000 <= p ==> auto_bitrate(width, height) == 12_000_000
        }),
{
}

/// Law: the automatic Opus bitrate by channel count, in bits per second:
/// 128,000 up to stereo, 256,000 up to 5 channels, 384,000 for 6 or 7
/// (5.1, 6.1) and 512,000 for 8 or more (7.1).
pub proof fn law_auto_audio_bitrate_bands(channels: u32)
    ensures
        channels <= 2 ==> auto_audio_bitrate(channels) == 128_000,
        3 <= channels <= 5 ==> auto_audio_bitrate(channels) == 256_000,
        6 <= channels <= 7 ==> auto_audio_bitrate(channels) == 384_000,
        8 <= channels ==> auto_audio_bitrate(channels) == 512_000,
{
}

fn pixel_count(width: u32, height: u32) -> (p: u64)
    ensures
        p == width as int * height as int,
{
    assert(width as int * height as int <= u32::MAX as int * u32::MAX as int) by (nonlinear_arith);
    width as u64 * height as u64
}

/// The CRF for a picture of `width` x `height` pixels, by its pixel count.
pub fn calculate_auto_crf(width: u32, height: u32) -> (crf: u32)
    ensures
        crf == auto_crf(width, height),
        (width as int * height as int) < 921_600 ==> crf == 34,
        921_600 <= (width as int * height as int) < 1_500_000 ==> crf == 32,
        1_500_000 <= (width as int * height as int) < 2_000_000 ==> crf == 31,
        2_000_000 <= (width as int * height as int) < 2_500_000 ==> crf == 28,
        2_500_000 <= (width as int * height as int) < 4_000_000 ==> crf == 26,
        4_000_000 <= (width as int * height as int) < 6_000_000 ==> crf == 24,
        6_000_000 <= (width as int * height as int) < 8_000_000 ==> crf == 22,
        8_000_000 <= (width as int * height as int) ==> crf == 20,
{
    let p = pixel_count(width, height);
    if p < 921_600 {
        34
    } else if p < 1_500_000 {
        32
    } else if p < 2_000_000 {
        31
    } else if p < 2_500_000 {
        28
    } else if p < 4_000_000 {
        26
    } else if p < 6_000_000 {
        24
    } else if p < 8_000_000 {
        22
    } else {
        20
    }
}

/// The video bitrate for a picture of `width` x `height` pixels, by its pixel count.
pub fn calculate_auto_bitrate(width: u32, height: u32) -> (bitrate: u32)
    ensures
        bitrate == auto_bitrate(width, height),
        (width as int * height as int) < 921_600 ==> bitrate == 1_000_000,
        921_600 <= (width as int * height as int) < 1_500_000 ==> bitrate == 1_500_000,
        1_500_000 <= (width as int * height as int) < 2_000_000 ==> bitrate == 2_000_000,
        2_000_000 <= (width as int * height as int) < 2_500_000 ==> bitrate == 3_000_000,
        2_500_000 <= (width as int * height as int) < 4_000_000 ==> bitrate == 4_000_000,
        4_000_000 <= (width as int * height as int) < 6_000_000 ==> bitrate == 6_000_000,
        6_000_000 <= (width as int * height as int) < 8_000_000 ==> bitrate == 8_000_000,
        8_000_000 <= (width as int * height as int) ==> bitrate == 12_000_000,
{
    let p = pixel_count(width, height);
    if p < 921_600 {
        1_000_000
    } else if p < 1_500_000 {
        1_500_000
    } else if p < 2_000_000 {
        2_000_000
    } else if p < 2_500_000 {
        3_000_000
    } else if p < 4_000_000 {
        4_000_000
    } else if p < 6_000_000 {
        6_000_000
    } else if p < 8_000_000 {
        8_000_000
    } else {
        12_000_000
    }
}

/// The Opus bitrate for a track with `channels` channels.
pub fn calculate_auto_audio_bitrate(channels: u32) -> (bitrate: u32)
    ensures
        bitrate == auto_audio_bitrate(channels),
        channels <= 2 ==> bitrate == 128_000,
        3 <= channels <= 5 ==> bitrate == 256_000,
        6 <= channels <= 7 ==> bitrate == 384_000,
        8 <= channels ==> bitrate == 512_000,
{
    if channels <= 2 {
        128_000
    } else if channels <= 5 {
        256_000
    } else if channels <= 7 {
        384_000
    } else {
        512_000
    }
}

/// How the automatic audio bitrate for `channels` channels is shown:
/// `~<kbps> kbps`.
pub open spec fn audio_bitrate_label_of(channels: u32) -> Seq<char> {
    "~"@ + decimal((auto_audio_bitrate(channels) / 1000) as nat) + " kbps"@
}

/// The automatic audio bitrate for `channels` channels, as shown to the user.
pub fn audio_bitrate_label(channels: u32) -> (s: String)
    ensures
        s@ == audio_bitrate_label_of(channels),
{
    let mut v = chars_of("~");
    v.append(&mut decimal_chars((calculate_auto_audio_bitrate(channels) / 1000) as u64));
    v.append(&mut chars_of(" kbps"));
    string_from_chars(&v)
}

/// A bitrate given on the command line.
#[derive(Clone, Debug, PartialEq, Eq)]
pub enum Bitrate {
    /// An exact number of bits per second.
    Bits(u32),
    /// A number of megabits per second, still as text (the part before the
    /// `M`). It is read as a floating-point number and scaled by one million,
    /// which this library leaves to its caller.
    Megabits(String),
}

/// A bitrate with its text as characters.
pub enum BitrateValue {
    Bits(u32),
    Megabits(Seq<char>),
}

impl View for Bitrate {
    type V = BitrateValue;

    open spec fn view(&self) -> BitrateValue {
        match self {
            Bitrate::Bits(n) => BitrateValue::Bits(*n),
            Bitrate::Megabits(t) => BitrateValue::Megabits(t@),
        }
    }
}

/// Why a bitrate was refused.
#[derive(Clone, Copy, Debug, PartialEq, Eq, Structural)]
pub enum BitrateError {
    /// The text before a `K` suffix is not a `u32`.
    InvalidKilobits,
    /// A bitrate without suffix is not a `u32`.
    InvalidFormat,
    /// The kilobits times one thousand do not fit in a `u32`.
    KilobitsOverflow,
}

/// The text ends with the suffix `c`.
pub open spec fn ends_with_char(s: Seq<char>, c: char) -> bool {
    s.len() > 0 && s.last() == c
}

/// Kilobits given with a `K` suffix fit in a `u32` once scaled to bits.
pub open spec fn kilobits_fit(u: Seq<char>) -> bool {
    ends_with_char(u, 'K') ==> match parse_unsigned(u.drop_last(), u32::MAX as nat) {
        Some(n) => n * 1000 <= u32::MAX,
        None => true,
    }
}

/// The bitrate that the uppercased text `u` denotes: with a `K` suffix a
/// number of kilobits, with an `M` suffix megabits, else a number of bits.
pub open spec fn bitrate_of_uppercase(u: Seq<char>) -> Result<BitrateValue, BitrateError> {
    if ends_with_char(u, 'K') {
        match parse_unsigned(u.drop_last(), u32::MAX as nat) {
            Some(n) => Ok(BitrateValue::Bits((n * 1000) as u32)),
            None => Err(BitrateError::InvalidKilobits),
        }
    } else if ends_with_char(u, 'M') {
        Ok(BitrateValue::Megabits(u.drop_last()))
    } else {
        match parse_unsigned(u, u32::MAX as nat) {
            Some(n) => Ok(BitrateValue::Bits(n as u32)),
            None => Err(BitrateError::InvalidFormat),
        }
    }
}

/// The text of a bitrate option as it is read: trimmed, then uppercased.
pub open spec fn bitrate_text(s: Seq<char>) -> Seq<char> {
    uppercase(trimmed(s))
}

/// The bitrate that the option text `s` denotes.
pub open spec fn bitrate_of(s: Seq<char>) -> Result<BitrateValue, BitrateError> {
    let u = bitrate_text(s);
    if kilobits_fit(u) {
        bitrate_of_uppercase(u)
    } else {
        Err(BitrateError::KilobitsOverflow)
    }
}

/// A bitrate result with the text seen as characters.
pub open spec fn bitrate_result_view(r: Result<Bitrate, BitrateError>) -> Result<
    BitrateValue,
    BitrateError,
> {
    match r {
        Ok(b) => Ok(b@),
        Err(e) => Err(e),
    }
}

fn kilobits_fit_exec(u: &Vec<char>) -> (b: bool)
    ensures
        b == kilobits_fit(u@),
{
    if u.len() > 0 && u[u.len() - 1] == 'K' {
        let digits = slice_chars(u, 0, u.len() - 1);
        assert(digits@ =~= u@.drop_last());
        match parse_unsigned_chars(&digits, 0xffff_ffff) {
            Some(n) => n <= 4_294_967,
            None => true,
        }
    } else {
        true
    }
}

/// Law: a number of bits written in decimal reads back as that bitrate.
pub proof fn law_bits_read_back(n: u32)
    ensures
        bitrate_of_uppercase(decimal(n as nat)) == Ok::<BitrateValue, BitrateError>(
            BitrateValue::Bits(n),
        ),
{
    crate::text::lemma_decimal_parses(n as nat);
    crate::text::law_decimal_read_back(n as nat, u32::MAX as nat);
    assert(decimal(n as nat).last() != 'K' && decimal(n as nat).last() != 'M') by {
        assert(crate::text::is_digit(decimal(n as nat)[decimal(n as nat).len() - 1]));
    }
}

/// Law: a number of kilobits written in decimal with a `k` or a `K` reads
/// as a thousand times that many bits; the suffix's case does not matter.
pub proof fn law_kilobits_any_case(n: u32, c: char)
    requires
        n as int * 1000 <= u32::MAX,
        c == 'k' || c == 'K',
    ensures
        bitrate_of_ascii(decimal(n as nat).push(c)) == Ok::<BitrateValue, BitrateError>(
            BitrateValue::Bits((n * 1000) as u32),
        ),
{
    let d = decimal(n as nat);
    let s = d.push(c);
    crate::text::lemma_decimal_parses(n as nat);
    assert(crate::text::is_digit(d[0]));
    assert(s[0] == d[0]);
    lemma_trimmed_unchanged(s);
    reveal_strlit("K");
    let u = s.map_values(|x: char| ascii_upper(x));
    assert forall|i: int| 0 <= i < d.len() implies #[trigger] u[i] == d[i] by {
        assert(crate::text::is_digit(d[i]));
        assert(s[i] == d[i]);
    }
    assert(u =~= d + "K"@);
    law_kilobits_read_back(n);
}

/// Law: a number of kilobits written in decimal with a `K` reads back as a
/// thousand times that many bits.
pub proof fn law_kilobits_read_back(n: u32)
    requires
        n as int * 1000 <= u32::MAX,
    ensures
        kilobits_fit(decimal(n as nat) + "K"@),
        bitrate_of_uppercase(decimal(n as nat) + "K"@) == Ok::<BitrateValue, BitrateError>(
            BitrateValue::Bits((n * 1000) as u32),
        ),
{
    reveal_strlit("K");
    let s = decimal(n as nat) + "K"@;
    assert(s.drop_last() =~= decimal(n as nat));
    crate::text::law_decimal_read_back(n as nat, u32::MAX as nat);
}

/// Reads an uppercased, trimmed bitrate.
pub fn parse_uppercase_bitrate(u: &str) -> (r: Result<Bitrate, BitrateError>)
    requires
        kilobits_fit(u@),
    ensures
        bitrate_result_view(r) == bitrate_of_uppercase(u@),
{
    let c = chars_of(u);
    let n = c.len();
    if n > 0 && c[n - 1] == 'K' {
        let digits = slice_chars(&c, 0, n - 1);
        assert(digits@ =~= u@.drop_last());
        match parse_unsigned_chars(&digits, 0xffff_ffff) {
            Some(k) => Ok(Bitrate::Bits((k * 1000) as u32)),
            None => Err(BitrateError::InvalidKilobits),
        }
    } else if n > 0 && c[n - 1] == 'M' {
        let digits = slice_chars(&c, 0, n - 1);
        assert(digits@ =~= u@.drop_last());
        Ok(Bitrate::Megabits(string_from_chars(&digits)))
    } else {
        match parse_unsigned_chars(&c, 0xffff_ffff) {
            Some(k) => Ok(Bitrate::Bits(k as u32)),
            None => Err(BitrateError::InvalidFormat),
        }
    }
}

/// The bitrate that ASCII option text `s` denotes: as `bitrate_of`, the
/// uppercasing being that of ASCII letters.
pub open spec fn bitrate_of_ascii(s: Seq<char>) -> Result<BitrateValue, BitrateError> {
    let u = trimmed(s).map_values(|c: char| ascii_upper(c));
    if kilobits_fit(u) {
        bitrate_of_uppercase(u)
    } else {
        Err(BitrateError::KilobitsOverflow)
    }
}

/// Reads a bitrate option: `1500K` is 1,500,000 bits per second, `2M` two
/// megabits, `800000` bits; letters may be in either case and surrounding
/// whitespace is ignored.
pub fn parse_bitrate(s: &str) -> (r: Result<Bitrate, BitrateError>)
    ensures
        bitrate_result_view(r) == bitrate_of(s@),
        is_ascii_text(s@) ==> bitrate_result_view(r) == bitrate_of_ascii(s@),
{
    let t = trim_chars(&chars_of(s));
    proof {
        if is_ascii_text(s@) {
            lemma_trimmed_ascii(s@);
        }
    }
    let u = to_uppercase(string_from_chars(&t).as_str());
    if !kilobits_fit_exec(&chars_of(u.as_str())) {
        return Err(BitrateError::KilobitsOverflow);
    }
    parse_uppercase_bitrate(u.as_str())
}


fn is_auto(s: &str) -> (b: bool)
    ensures
        b == (s@ == "auto"@),
{
    chars_eq(&chars_of(s), &chars_of("auto"))
}

/// The video bitrate option: `auto` picks by picture size; without the
/// option there is no target bitrate.
pub open spec fn video_bitrate_choice(opt: Option<Seq<char>>, width: u32, height: u32) -> Result<
    Option<BitrateValue>,
    BitrateError,
> {
    match opt {
        None => Ok(None),
        Some(s) => if s == "auto"@ {
            Ok(Some(BitrateValue::Bits(auto_bitrate(width, height))))
        } else {
            match bitrate_of(s) {
                Ok(b) => Ok(Some(b)),
                Err(e) => Err(e),
            }
        },
    }
}

/// The audio bitrate option for a track with `channels` channels.
pub open spec fn audio_bitrate_choice(opt: Option<Seq<char>>, channels: u32) -> Result<
    Option<BitrateValue>,
    BitrateError,
> {
    match opt {
        None => Ok(None),
        Some(s) => if s == "auto"@ {
            Ok(Some(BitrateValue::Bits(auto_audio_bitrate(channels))))
        } else {
            match bitrate_of(s) {
                Ok(b) => Ok(Some(b)),
                Err(e) => Err(e),
            }
        },
    }
}

/// An optional bitrate result with its text as characters.
pub open spec fn opt_bitrate_result_view(r: Result<Option<Bitrate>, BitrateError>) -> Result<
    Option<BitrateValue>,
    BitrateError,
> {
    match r {
        Ok(Some(b)) => Ok(Some(b@)),
        Ok(None) => Ok(None),
        Err(e) => Err(e),
    }
}

fn bitrate_option(opt: &Option<String>, auto_value: u32) -> (r: Result<Option<Bitrate>, BitrateError>)
    ensures
        opt_bitrate_result_view(r) == match opt_chars(*opt) {
            None => Ok(None),
            Some(s) => if s == "auto"@ {
                Ok(Some(BitrateValue::Bits(auto_value)))
            } else {
                match bitrate_of(s) {
                    Ok(b) => Ok(Some(b)),
                    Err(e) => Err(e),
                }
            },
        },
{
    match opt {
        None => Ok(None),
        Some(s) => {
            if is_auto(s.as_str()) {
                Ok(Some(Bitrate::Bits(auto_value)))
            } else {
                match parse_bitrate(s.as_str()) {
                    Ok(b) => Ok(Some(b)),
                    Err(e) => Err(e),
                }
            }
        },
    }
}

/// The target video bitrate that the settings ask for.
pub fn determine_video_bitrate(cli: &Cli, info: &VideoInfo) -> (r: Result<
    Option<Bitrate>,
    BitrateError,
>)
    ensures
        opt_bitrate_result_view(r) == video_bitrate_choice(
            opt_chars(cli.video_bitrate),
            info.width,
            info.height,
        ),
{
    let auto_value = calculate_auto_bitrate(info.width, info.height);
    bitrate_option(&cli.video_bitrate, auto_value)
}

/// The audio bitrate that the settings ask for, for a track with `channels` channels.
pub fn determine_audio_bitrate(cli: &Cli, channels: u32) -> (r: Result<
    Option<Bitrate>,
    BitrateError,
>)
    ensures
        opt_bitrate_result_view(r) == audio_bitrate_choice(opt_chars(cli.audio_bitrate), channels),
{
    let auto_value = calculate_auto_audio_bitrate(channels);
    bitrate_option(&cli.audio_bitrate, auto_value)
}

/// The bitrate of an audio track with `channels` channels: the audio
/// bitrate option if given, else the automatic bitrate.
pub open spec fn track_bitrate(opt: Option<Seq<char>>, channels: u32) -> Result<
    BitrateValue,
    BitrateError,
> {
    match audio_bitrate_choice(opt, channels) {
        Ok(Some(b)) => Ok(b),
        Ok(None) => Ok(BitrateValue::Bits(auto_audio_bitrate(channels))),
        Err(e) => Err(e),
    }
}

/// Law: an audio bitrate option other than `auto` gives every track the
/// bitrate its text denotes (or its error), whatever the track's channel
/// count.
pub proof fn law_given_audio_bitrate_for_every_track(s: Seq<char>, c1: u32, c2: u32)
    requires
        s != "auto"@,
    ensures
        track_bitrate(Some(s), c1) == match bitrate_of(s) {
            Ok(b) => Ok::<BitrateValue, BitrateError>(b),
            Err(e) => Err::<BitrateValue, BitrateError>(e),
        },
        track_bitrate(Some(s), c1) == track_bitrate(Some(s), c2),
{
}

/// Law: without an audio bitrate option, or with `auto`, a track gets
/// 128,000 bits per second up to stereo, 256,000 up to 5 channels, 384,000
/// for 6 or 7 and 512,000 for 8 or more.
pub proof fn law_auto_track_bitrate(opt: Option<Seq<char>>, channels: u32)
    requires
        opt == None::<Seq<char>> || opt == Some("auto"@),
    ensures
        channels <= 2 ==> track_bitrate(opt, channels) == Ok::<BitrateValue, BitrateError>(
            BitrateValue::Bits(128_000),
        ),
        3 <= channels <= 5 ==> track_bitrate(opt, channels) == Ok::<BitrateValue, BitrateError>(
            BitrateValue::Bits(256_000),
        ),
        6 <= channels <= 7 ==> track_bitrate(opt, channels) == Ok::<BitrateValue, BitrateError>(
            BitrateValue::Bits(384_000),
        ),
        8 <= channels ==> track_bitrate(opt, channels) == Ok::<BitrateValue, BitrateError>(
            BitrateValue::Bits(512_000),
        ),
{
}

/// One bitrate per audio track, in track order; the first track whose
/// option is refused stops the choice.
pub fn choose_audio_bitrates(cli: &Cli, info: &VideoInfo) -> (r: Result<Vec<Bitrate>, BitrateError>)
    ensures
        match r {
            Ok(v) => v.len() == info.audio_tracks.len() && forall|i: int|
                0 <= i < v.len() ==> track_bitrate(
                    opt_chars(cli.audio_bitrate),
                    #[trigger] info.audio_tracks@[i].channels,
                ) == Ok::<BitrateValue, BitrateError>(v@[i]@),
            Err(e) => exists|i: int|
                0 <= i < info.audio_tracks.len() && track_bitrate(
                    opt_chars(cli.audio_bitrate),
                    #[trigger] info.audio_tracks@[i].channels,
                ) == Err::<BitrateValue, BitrateError>(e) && forall|j: int|
                    0 <= j < i ==> track_bitrate(
                        opt_chars(cli.audio_bitrate),
                        #[trigger] info.audio_tracks@[j].channels,
                    ) is Ok,
        },
        cli.audio_bitrate is Some && cli.audio_bitrate->Some_0@ != "auto"@ ==> match r {
            Ok(v) => forall|i: int|
                0 <= i < v.len() ==> bitrate_of(cli.audio_bitrate->Some_0@) == Ok::<BitrateValue, BitrateError>(
                    #[trigger] v@[i]@,
                ),
            Err(e) => info.audio_tracks.len() > 0 && bitrate_of(cli.audio_bitrate->Some_0@) == Err::<
                BitrateValue,
                BitrateError,
            >(e),
        },
{
    let mut out: Vec<Bitrate> = Vec::new();
    let mut i: usize = 0;
    while i < info.audio_tracks.len()
        invariant
            i <= info.audio_tracks.len(),
            out.len() == i,
            forall|k: int|
                0 <= k < i ==> track_bitrate(
                    opt_chars(cli.audio_bitrate),
                    #[trigger] info.audio_tracks@[k].channels,
                ) == Ok::<BitrateValue, BitrateError>(out@[k]@),
        decreases info.audio_tracks.len() - i,
    {
        let channels = info.audio_tracks[i].channels;
        let b = match determine_audio_bitrate(cli, channels) {
            Ok(Some(b)) => b,
            Ok(None) => Bitrate::Bits(calculate_auto_audio_bitrate(channels)),
            Err(e) => {
                assert(forall|j: int|
                    0 <= j < i ==> track_bitrate(
                        opt_chars(cli.audio_bitrate),
                        #[trigger] info.audio_tracks@[j].channels,
                    ) is Ok);
                return Err(e);
            },
        };
        out.push(b);
        i += 1;
    }
    proof {
        if cli.audio_bitrate is Some && cli.audio_bitrate->Some_0@ != "auto"@ {
            assert forall|k: int| 0 <= k < out.len() implies bitrate_of(
                cli.audio_bitrate->Some_0@,
            ) == Ok::<BitrateValue, BitrateError>(#[trigger] out@[k]@) by {
                assert(track_bitrate(
                    opt_chars(cli.audio_bitrate),
                    info.audio_tracks@[k].channels,
                ) == Ok::<BitrateValue, BitrateError>(out@[k]@));
            }
        }
    }
    Ok(out)
}

/// Why a CRF option was refused.
#[derive(Clone, Copy, Debug, PartialEq, Eq, Structural)]
pub enum CrfError {
    /// The value is neither `auto` nor a `u32`.
    Invalid,
    /// The value is outside 8 to 48.
    OutOfRange,
}

/// The CRF option: `auto` picks by picture size; a number must lie in 8..=48.
pub open spec fn crf_choice(opt: Option<Seq<char>>, width: u32, height: u32) -> Result<
    Option<u32>,
    CrfError,
> {
    match opt {
        None => Ok(None),
        Some(s) => if s == "auto"@ {
            Ok(Some(auto_crf(width, height)))
        } else {
            match parse_unsigned(s, u32::MAX as nat) {
                None => Err(CrfError::Invalid),
                Some(n) => if n < 8 || n > 48 {
                    Err(CrfError::OutOfRange)
                } else {
                    Ok(Some(n as u32))
                },
            }
        },
    }
}

/// The CRF that the settings ask for.
pub fn determine_crf(cli: &Cli, info: &VideoInfo) -> (r: Result<Option<u32>, CrfError>)
    ensures
        r == crf_choice(opt_chars(cli.crf), info.width, info.height),
{
    match &cli.crf {
        None => Ok(None),
        Some(s) => {
            if is_auto(s.as_str()) {
                return Ok(Some(calculate_auto_crf(info.width, info.height)));
            }
            match parse_unsigned_chars(&chars_of(s.as_str()), 0xffff_ffff) {
                None => Err(CrfError::Invalid),
                Some(n) => {
                    if n < 8 || n > 48 {
                        Err(CrfError::OutOfRange)
                    } else {
                        Ok(Some(n as u32))
                    }
                },
            }
        },
    }
}

/// The microseconds that an ffmpeg progress line `out_time_ms=<n>` reports.
pub open spec fn out_time_of(line: Seq<char>) -> Option<u64> {
    let key = "out_time_ms="@;
    if line.len() >= key.len() && line.take(key.len() as int) == key {
        match parse_unsigned(line.skip(key.len() as int), u64::MAX as nat) {
            Some(n) => Some(n as u64),
            None => None,
        }
    } else {
        None
    }
}

/// Law: a progress line written for `n` microseconds reads back as `n`.
pub proof fn law_out_time_read_back(n: u64)
    ensures
        out_time_of("out_time_ms="@ + decimal(n as nat)) == Some(n),
{
    let key = "out_time_ms="@;
    let line = key + decimal(n as nat);
    assert(line.take(key.len() as int) =~= key);
    assert(line.skip(key.len() as int) =~= decimal(n as nat));
    crate::text::law_decimal_read_back(n as nat, u64::MAX as nat);
}

/// Law: a CRF that the settings yield always lies in 8..=48, whether given
/// or chosen automatically.
pub proof fn law_crf_in_range(opt: Option<Seq<char>>, width: u32, height: u32)
    ensures
        crf_choice(opt, width, height) matches Ok(Some(c)) ==> 8 <= c <= 48,
{
}

/// Reads the encoded time, in microseconds, from an ffmpeg progress line.
pub fn parse_out_time(line: &str) -> (r: Option<u64>)
    ensures
        r == out_time_of(line@),
{
    let c = chars_of(line);
    let key = chars_of("out_time_ms=");
    if c.len() < key.len() {
        return None;
    }
    let head = slice_chars(&c, 0, key.len());
    assert(head@ =~= line@.take(key@.len() as int));
    if !chars_eq(&head, &key) {
        return None;
    }
    let rest = slice_chars(&c, key.len(), c.len());
    assert(rest@ =~= line@.skip(key@.len() as int));
    parse_unsigned_chars(&rest, 0xffff_ffff_ffff_ffff)
}


/// The characters of each text.
pub open spec fn texts(v: Seq<String>) -> Seq<Seq<char>> {
    v.map_values(|s: String| s@)
}

proof fn lemma_texts_push(v: Seq<String>, s: String)
    ensures
        texts(v.push(s)) == texts(v).push(s@),
{
    assert(texts(v.push(s)) =~= texts(v).push(s@));
}

fn push_text(out: &mut Vec<String>, s: &str)
    ensures
        texts(final(out)@) == texts(old(out)@).push(s@),
{
    let t = s.to_owned();
    proof {
        lemma_texts_push(out@, t);
    }
    out.push(t);
}

fn push_chars(out: &mut Vec<String>, c: &Vec<char>)
    ensures
        texts(final(out)@) == texts(old(out)@).push(c@),
{
    let t = string_from_chars(c);
    proof {
        lemma_texts_push(out@, t);
    }
    out.push(t);
}

/// `prefix` followed by the decimal text of `n`.
fn prefixed_decimal(prefix: &str, n: u64) -> (r: Vec<char>)
    ensures
        r@ == prefix@ + decimal(n as nat),
{
    let mut r = chars_of(prefix);
    let mut d = decimal_chars(n);
    r.append(&mut d);
    r
}

/// The statistics tags that are blanked for each stream.
pub open spec fn statistics_tags() -> Seq<Seq<char>> {
    seq![
        "BPS="@,
        "DURATION="@,
        "NUMBER_OF_FRAMES="@,
        "NUMBER_OF_BYTES="@,
        "_STATISTICS_WRITING_APP="@,
        "_STATISTICS_WRITING_DATE_UTC="@,
        "_STATISTICS_TAGS="@,
    ]
}

/// `flag tag` for each statistics tag.
pub open spec fn blank_statistics(flag: Seq<char>) -> Seq<Seq<char>> {
    let t = statistics_tags();
    seq![flag, t[0], flag, t[1], flag, t[2], flag, t[3], flag, t[4], flag, t[5], flag, t[6]]
}

/// Blanked statistics for streams `0..n` of a kind, the flag of stream `i`
/// being `prefix` followed by `i`.
pub open spec fn blank_streams(prefix: Seq<char>, n: nat) -> Seq<Seq<char>>
    decreases n,
{
    if n == 0 {
        Seq::empty()
    } else {
        blank_streams(prefix, (n - 1) as nat) + blank_statistics(
            prefix + decimal((n - 1) as nat),
        )
    }
}

/// The flag that sets the bitrate of audio output stream `i`: `-b:a:<i>`.
pub open spec fn bitrate_flag(i: nat) -> Seq<char> {
    "-b:a:"@ + decimal(i)
}

/// The flag that sets the channel count of audio output stream `i`:
/// `-ac:a:<i>`.
pub open spec fn channels_flag(i: nat) -> Seq<char> {
    "-ac:a:"@ + decimal(i)
}

/// The Opus bitrate and channel arguments for audio tracks `0..n`.
pub open spec fn audio_track_args(bitrates: Seq<u32>, channels: Seq<u32>, n: nat) -> Seq<
    Seq<char>,
>
    decreases n,
{
    if n == 0 {
        Seq::empty()
    } else {
        let i = (n - 1) as nat;
        audio_track_args(bitrates, channels, i) + seq![
            bitrate_flag(i),
            decimal((bitrates[i as int] / 1000) as nat) + "k"@,
            channels_flag(i),
            decimal(channels[i as int] as nat),
        ]
    }
}

/// The video quality arguments: a target bitrate, else a CRF (given or
/// chosen by picture size).
pub open spec fn video_quality_args(
    video_bitrate: Option<u32>,
    crf: Option<u32>,
    width: u32,
    height: u32,
) -> Seq<Seq<char>> {
    match video_bitrate {
        Some(b) => seq!["-b:v"@, decimal(b as nat)],
        None => match crf {
            Some(c) => seq!["-crf"@, decimal(c as nat)],
            None => seq!["-crf"@, decimal(auto_crf(width, height) as nat)],
        },
    }
}

/// `s` when `cond` holds, else nothing.
pub open spec fn when(cond: bool, s: Seq<Seq<char>>) -> Seq<Seq<char>> {
    if cond {
        s
    } else {
        Seq::empty()
    }
}

/// The channel counts of the audio tracks.
pub open spec fn channel_counts(info: VideoInfo) -> Seq<u32> {
    info.audio_tracks@.map_values(|t: crate::video_info::AudioTrack| t.channels)
}

/// An input stream to select, with its place in the source.
pub struct StreamMap {
    /// The stream's order in the source file.
    pub stream_order: u32,
    /// ffmpeg's selector for the stream, such as `0:a:1`.
    pub selector: String,
}

/// A stream selection with its selector as characters.
pub struct StreamMapView {
    pub stream_order: u32,
    pub selector: Seq<char>,
}

impl View for StreamMap {
    type V = StreamMapView;

    open spec fn view(&self) -> StreamMapView {
        StreamMapView { stream_order: self.stream_order, selector: self.selector@ }
    }
}

impl StreamOrdered for StreamMap {
    open spec fn order_of(v: StreamMapView) -> u32 {
        v.stream_order
    }

    fn order(&self) -> (k: u32) {
        self.stream_order
    }

    fn duplicate(&self) -> (r: Self) {
        StreamMap { stream_order: self.stream_order, selector: self.selector.clone() }
    }
}

/// The selection of the `i`-th audio stream.
pub open spec fn audio_map(info: VideoInfo, i: int) -> StreamMapView {
    StreamMapView {
        stream_order: info.audio_tracks@[i].stream_order,
        selector: "0:a:"@ + decimal(i as nat),
    }
}

/// The selection of the `j`-th subtitle stream.
pub open spec fn subtitle_map(info: VideoInfo, j: int) -> StreamMapView {
    StreamMapView {
        stream_order: info.subtitle_tracks@[j].stream_order,
        selector: "0:s:"@ + decimal(j as nat),
    }
}

/// The streams that are kept: the first video stream, every audio stream
/// and every subtitle stream, each with its source stream order.
pub open spec fn stream_maps_of(info: VideoInfo) -> Seq<StreamMapView> {
    seq![StreamMapView { stream_order: info.video_stream_order, selector: "0:v:0"@ }] + Seq::new(
        info.audio_tracks.len() as nat,
        |i: int| audio_map(info, i),
    ) + Seq::new(info.subtitle_tracks.len() as nat, |j: int| subtitle_map(info, j))
}

/// The selections put in the source's stream order; selections with the
/// same stream order keep their relative order.
pub open spec fn in_source_order(s: Seq<StreamMapView>) -> Seq<StreamMapView> {
    choose|r: Seq<StreamMapView>| stably_ordered::<StreamMap>(r, s)
}

/// `-map <selector>` for each selection, in turn.
pub open spec fn map_args(m: Seq<StreamMapView>) -> Seq<Seq<char>>
    decreases m.len(),
{
    if m.len() == 0 {
        Seq::empty()
    } else {
        map_args(m.drop_last()) + seq!["-map"@, m.last().selector]
    }
}

/// The source already holds the video stream, then the audio streams, then
/// the subtitle streams (streams of equal stream order count as in that
/// order), so selecting them group by group keeps the source order.
pub open spec fn groups_in_source_order(info: VideoInfo) -> bool {
    &&& forall|i: int|
        0 <= i < info.audio_tracks.len() ==> info.video_stream_order
            <= #[trigger] info.audio_tracks@[i].stream_order
    &&& forall|j: int|
        0 <= j < info.subtitle_tracks.len() ==> info.video_stream_order
            <= #[trigger] info.subtitle_tracks@[j].stream_order
    &&& forall|i: int, j: int|
        0 <= i < info.audio_tracks.len() && 0 <= j < info.subtitle_tracks.len()
            ==> #[trigger] info.audio_tracks@[i].stream_order
            <= #[trigger] info.subtitle_tracks@[j].stream_order
}

/// The first video stream, all audio streams, and all subtitle streams
/// when there are any, selected group by group.
pub open spec fn grouped_maps(subs: bool) -> Seq<Seq<char>> {
    seq!["-map"@, "0:v:0"@, "-map"@, "0:a"@] + when(subs, seq!["-map"@, "0:s"@])
}

/// Input selection: the video, audio and subtitle streams in the order they
/// have in the source: group by group when the source already has that
/// order, else stream by stream.
pub open spec fn input_section(input: Seq<char>, info: VideoInfo) -> Seq<Seq<char>> {
    seq!["-i"@, input] + if groups_in_source_order(info) {
        grouped_maps(info.subtitle_tracks.len() > 0)
    } else {
        map_args(in_source_order(stream_maps_of(info)))
    }
}

/// VP9 with row multithreading, at the chosen quality.
pub open spec fn video_section(
    video_bitrate: Option<u32>,
    crf: Option<u32>,
    width: u32,
    height: u32,
) -> Seq<Seq<char>> {
    seq!["-c:v"@, "libvpx-vp9"@, "-row-mt"@, "1"@] + video_quality_args(
        video_bitrate,
        crf,
        width,
        height,
    )
}

/// Frame rate and keyframe interval, when given.
pub open spec fn rate_section(frame_rate: Option<(Seq<char>, Seq<char>)>) -> Seq<Seq<char>> {
    match frame_rate {
        Some(fr) => seq!["-r"@, fr.0, "-g"@, fr.1],
        None => Seq::empty(),
    }
}

/// The speed preset, then the Opus codec.
pub open spec fn speed_section(speed: Speed) -> Seq<Seq<char>> {
    seq!["-deadline"@, speed_args(speed).0, "-speed"@, speed_args(speed).1, "-c:a"@, "libopus"@]
}

/// Subtitle copying and metadata mapping.
pub open spec fn metadata_section(subs: bool) -> Seq<Seq<char>> {
    when(subs, seq!["-c:s"@, "copy"@]) + seq![
        "-map_metadata"@,
        "0:g"@,
        "-map_metadata:s:v"@,
        "0:s:v"@,
        "-map_metadata:s:a"@,
        "0:s:a"@,
    ] + when(subs, seq!["-map_metadata:s:s"@, "0:s:s"@])
}

/// The video stream's statistics tags and encoder tag, blanked.
pub open spec fn video_blank_section() -> Seq<Seq<char>> {
    blank_statistics("-metadata:s:v"@) + seq!["-metadata:s:v"@, "ENCODER="@]
}

/// Overwrite `output`, and report progress on standard output.
pub open spec fn output_section(output: Seq<char>) -> Seq<Seq<char>> {
    seq!["-y"@, output, "-progress"@, "pipe:1"@, "-nostats"@]
}

/// The ffmpeg command line (without the program name) that encodes `input`
/// into `output` as VP9 video and Opus audio, copying subtitles and
/// metadata, with the statistics tags blanked.
pub open spec fn ffmpeg_args_of(
    input: Seq<char>,
    output: Seq<char>,
    info: VideoInfo,
    speed: Speed,
    video_bitrate: Option<u32>,
    crf: Option<u32>,
    audio_bitrates: Seq<u32>,
    frame_rate: Option<(Seq<char>, Seq<char>)>,
) -> Seq<Seq<char>> {
    let subs = info.subtitle_tracks.len() > 0;
    let n_audio = info.audio_tracks.len() as nat;
    input_section(input, info) + video_section(video_bitrate, crf, info.width, info.height)
        + rate_section(frame_rate) + speed_section(speed) + audio_track_args(
        audio_bitrates,
        channel_counts(info),
        n_audio,
    ) + metadata_section(subs) + video_blank_section() + blank_streams(
        "-metadata:s:a:"@,
        n_audio,
    ) + blank_streams("-metadata:s:s:"@, info.subtitle_tracks.len() as nat) + output_section(
        output,
    )
}

proof fn lemma_audio_track_entry(bitrates: Seq<u32>, channels: Seq<u32>, n: nat, i: int)
    requires
        n <= bitrates.len(),
        n <= channels.len(),
        0 <= i < n,
    ensures
        audio_track_args(bitrates, channels, n).len() == 4 * n,
        audio_track_args(bitrates, channels, n)[4 * i] == bitrate_flag(i as nat),
        audio_track_args(bitrates, channels, n)[4 * i + 1] == decimal(
            (bitrates[i] / 1000) as nat,
        ) + "k"@,
        audio_track_args(bitrates, channels, n)[4 * i + 2] == channels_flag(i as nat),
        audio_track_args(bitrates, channels, n)[4 * i + 3] == decimal(channels[i] as nat),
    decreases n,
{
    let m = (n - 1) as nat;
    let a = audio_track_args(bitrates, channels, n);
    let before = audio_track_args(bitrates, channels, m);
    let last = seq![
        bitrate_flag(m),
        decimal((bitrates[m as int] / 1000) as nat) + "k"@,
        channels_flag(m),
        decimal(channels[m as int] as nat),
    ];
    assert(a == before + last);
    if i < m {
        lemma_audio_track_entry(bitrates, channels, m, i);
        assert(a[4 * i] == before[4 * i]);
        assert(a[4 * i + 1] == before[4 * i + 1]);
        assert(a[4 * i + 2] == before[4 * i + 2]);
        assert(a[4 * i + 3] == before[4 * i + 3]);
    } else {
        if m > 0 {
            lemma_audio_track_entry(bitrates, channels, m, 0);
        }
        assert(before.len() == 4 * m);
        assert(a[4 * i] == last[0]);
        assert(a[4 * i + 1] == last[1]);
        assert(a[4 * i + 2] == last[2]);
        assert(a[4 * i + 3] == last[3]);
    }
}

/// Law: the arguments for audio tracks `0..n` are four per track, in track
/// order: `-b:a:<i>`, the track's bitrate in whole kilobits followed by `k`,
/// `-ac:a:<i>`, and the track's channel count, whatever it is.
pub proof fn law_audio_track_args_entries(bitrates: Seq<u32>, channels: Seq<u32>, n: nat)
    requires
        n <= bitrates.len(),
        n <= channels.len(),
    ensures
        audio_track_args(bitrates, channels, n).len() == 4 * n,
        forall|i: int|
            0 <= i < n ==> {
                let a = audio_track_args(bitrates, channels, n);
                &&& a[4 * i + 1] == decimal((#[trigger] bitrates[i] / 1000) as nat) + "k"@
                &&& a[4 * i] == bitrate_flag(i as nat)
                &&& a[4 * i + 2] == channels_flag(i as nat)
                &&& a[4 * i + 3] == decimal(channels[i] as nat)
            },
{
    if n > 0 {
        lemma_audio_track_entry(bitrates, channels, n, 0);
    } else {
        assert(audio_track_args(bitrates, channels, n).len() == 0);
    }
    assert forall|i: int| 0 <= i < n implies {
        let a = audio_track_args(bitrates, channels, n);
        &&& a[4 * i + 1] == decimal((#[trigger] bitrates[i] / 1000) as nat) + "k"@
        &&& a[4 * i] == bitrate_flag(i as nat)
        &&& a[4 * i + 2] == channels_flag(i as nat)
        &&& a[4 * i + 3] == decimal(channels[i] as nat)
    } by {
        lemma_audio_track_entry(bitrates, channels, n, i);
    }
}

/// Where the audio track arguments begin in the ffmpeg command line: after
/// the input selection, the video settings, the frame rate and the speed.
pub open spec fn audio_args_start(
    input: Seq<char>,
    info: VideoInfo,
    speed: Speed,
    video_bitrate: Option<u32>,
    crf: Option<u32>,
    frame_rate: Option<(Seq<char>, Seq<char>)>,
) -> int {
    (input_section(input, info) + video_section(video_bitrate, crf, info.width, info.height)
        + rate_section(frame_rate) + speed_section(speed)).len() as int
}

proof fn lemma_ffmpeg_audio_entry(
    input: Seq<char>,
    output: Seq<char>,
    info: VideoInfo,
    speed: Speed,
    video_bitrate: Option<u32>,
    crf: Option<u32>,
    audio_bitrates: Seq<u32>,
    frame_rate: Option<(Seq<char>, Seq<char>)>,
    i: int,
)
    requires
        audio_bitrates.len() == info.audio_tracks.len(),
        0 <= i < info.audio_tracks.len(),
    ensures
        ({
            let a = ffmpeg_args_of(
                input,
                output,
                info,
                speed,
                video_bitrate,
                crf,
                audio_bitrates,
                frame_rate,
            );
            let k = audio_args_start(input, info, speed, video_bitrate, crf, frame_rate) + 4 * i;
            &&& a[k + 3] == decimal(info.audio_tracks@[i].channels as nat)
            &&& a[k + 2] == channels_flag(i as nat)
            &&& a[k] == bitrate_flag(i as nat)
            &&& a[k + 1] == decimal((audio_bitrates[i] / 1000) as nat) + "k"@
        }),
{
    let n = info.audio_tracks.len() as nat;
    let ch = channel_counts(info);
    let head = input_section(input, info) + video_section(video_bitrate, crf, info.width, info.height)
        + rate_section(frame_rate) + speed_section(speed);
    let audio = audio_track_args(audio_bitrates, ch, n);
    let subs = info.subtitle_tracks.len() > 0;
    let tail = metadata_section(subs) + video_blank_section() + blank_streams(
        "-metadata:s:a:"@,
        n,
    ) + blank_streams("-metadata:s:s:"@, info.subtitle_tracks.len() as nat) + output_section(
        output,
    );
    let a = ffmpeg_args_of(
        input,
        output,
        info,
        speed,
        video_bitrate,
        crf,
        audio_bitrates,
        frame_rate,
    );
    assert(a =~= head + audio + tail);
    lemma_audio_track_entry(audio_bitrates, ch, n, i);
    assert(ch[i] == info.audio_tracks@[i].channels);
    lemma_index_middle(head, audio, tail, 4 * i);
    lemma_index_middle(head, audio, tail, 4 * i + 1);
    lemma_index_middle(head, audio, tail, 4 * i + 2);
    lemma_index_middle(head, audio, tail, 4 * i + 3);
}

/// Law: in the ffmpeg command line every audio track `i` keeps its channel
/// count: `-ac:a:<i>` is followed by the decimal text of the track's own
/// channel count, and `-b:a:<i>` by its chosen bitrate in kilobits.
pub proof fn law_ffmpeg_audio_tracks_keep_channels(
    input: Seq<char>,
    output: Seq<char>,
    info: VideoInfo,
    speed: Speed,
    video_bitrate: Option<u32>,
    crf: Option<u32>,
    audio_bitrates: Seq<u32>,
    frame_rate: Option<(Seq<char>, Seq<char>)>,
)
    requires
        audio_bitrates.len() == info.audio_tracks.len(),
    ensures
        forall|i: int|
            #![trigger info.audio_tracks@[i]]
            0 <= i < info.audio_tracks.len() ==> ffmpeg_args_of(
                input,
                output,
                info,
                speed,
                video_bitrate,
                crf,
                audio_bitrates,
                frame_rate,
            )[audio_args_start(input, info, speed, video_bitrate, crf, frame_rate) + 4 * i + 3]
                == decimal(info.audio_tracks@[i].channels as nat),
        forall|i: int|
            #![trigger channels_flag(i as nat)]
            0 <= i < info.audio_tracks.len() ==> ffmpeg_args_of(
                input,
                output,
                info,
                speed,
                video_bitrate,
                crf,
                audio_bitrates,
                frame_rate,
            )[audio_args_start(input, info, speed, video_bitrate, crf, frame_rate) + 4 * i + 2]
                == channels_flag(i as nat),
        forall|i: int|
            #![trigger bitrate_flag(i as nat)]
            0 <= i < info.audio_tracks.len() ==> ffmpeg_args_of(
                input,
                output,
                info,
                speed,
                video_bitrate,
                crf,
                audio_bitrates,
                frame_rate,
            )[audio_args_start(input, info, speed, video_bitrate, crf, frame_rate) + 4 * i]
                == bitrate_flag(i as nat),
        forall|i: int|
            #![trigger audio_bitrates[i]]
            0 <= i < info.audio_tracks.len() ==> ffmpeg_args_of(
                input,
                output,
                info,
                speed,
                video_bitrate,
                crf,
                audio_bitrates,
                frame_rate,
            )[audio_args_start(input, info, speed, video_bitrate, crf, frame_rate) + 4 * i + 1]
                == decimal((audio_bitrates[i] / 1000) as nat) + "k"@,
{
    assert forall|i: int|
        #![trigger info.audio_tracks@[i]]
        0 <= i < info.audio_tracks.len() implies ffmpeg_args_of(
            input,
            output,
            info,
            speed,
            video_bitrate,
            crf,
            audio_bitrates,
            frame_rate,
        )[audio_args_start(input, info, speed, video_bitrate, crf, frame_rate) + 4 * i + 3]
            == decimal(info.audio_tracks@[i].channels as nat) by {
        lemma_ffmpeg_audio_entry(
            input,
            output,
            info,
            speed,
            video_bitrate,
            crf,
            audio_bitrates,
            frame_rate,
            i,
        );
    }
    assert forall|i: int|
        #![trigger channels_flag(i as nat)]
        0 <= i < info.audio_tracks.len() implies ffmpeg_args_of(
            input,
            output,
            info,
            speed,
            video_bitrate,
            crf,
            audio_bitrates,
            frame_rate,
        )[audio_args_start(input, info, speed, video_bitrate, crf, frame_rate) + 4 * i + 2]
            == channels_flag(i as nat) by {
        lemma_ffmpeg_audio_entry(
            input,
            output,
            info,
            speed,
            video_bitrate,
            crf,
            audio_bitrates,
            frame_rate,
            i,
        );
    }
    assert forall|i: int|
        #![trigger bitrate_flag(i as nat)]
        0 <= i < info.audio_tracks.len() implies ffmpeg_args_of(
            input,
            output,
            info,
            speed,
            video_bitrate,
            crf,
            audio_bitrates,
            frame_rate,
        )[audio_args_start(input, info, speed, video_bitrate, crf, frame_rate) + 4 * i]
            == bitrate_flag(i as nat) by {
        lemma_ffmpeg_audio_entry(
            input,
            output,
            info,
            speed,
            video_bitrate,
            crf,
            audio_bitrates,
            frame_rate,
            i,
        );
    }
    assert forall|i: int|
        #![trigger audio_bitrates[i]]
        0 <= i < info.audio_tracks.len() implies ffmpeg_args_of(
            input,
            output,
            info,
            speed,
            video_bitrate,
            crf,
            audio_bitrates,
            frame_rate,
        )[audio_args_start(input, info, speed, video_bitrate, crf, frame_rate) + 4 * i + 1]
            == decimal((audio_bitrates[i] / 1000) as nat) + "k"@ by {
        lemma_ffmpeg_audio_entry(
            input,
            output,
            info,
            speed,
            video_bitrate,
            crf,
            audio_bitrates,
            frame_rate,
            i,
        );
    }
}

proof fn lemma_index_middle(head: Seq<Seq<char>>, mid: Seq<Seq<char>>, tail: Seq<Seq<char>>, j: int)
    requires
        0 <= j < mid.len(),
    ensures
        (head + mid + tail)[head.len() + j] == mid[j],
{
    assert((head + mid)[head.len() + j] == mid[j]);
}

fn push_blank_statistics(out: &mut Vec<String>, flag: &Vec<char>)
    ensures
        texts(final(out)@) == texts(old(out)@) + blank_statistics(flag@),
{
    let ghost start = texts(out@);
    push_chars(out, flag);
    push_text(out, "BPS=");
    push_chars(out, flag);
    push_text(out, "DURATION=");
    push_chars(out, flag);
    push_text(out, "NUMBER_OF_FRAMES=");
    push_chars(out, flag);
    push_text(out, "NUMBER_OF_BYTES=");
    push_chars(out, flag);
    push_text(out, "_STATISTICS_WRITING_APP=");
    push_chars(out, flag);
    push_text(out, "_STATISTICS_WRITING_DATE_UTC=");
    push_chars(out, flag);
    push_text(out, "_STATISTICS_TAGS=");
    assert(texts(out@) =~= start + blank_statistics(flag@));
}

fn push_blank_streams(out: &mut Vec<String>, prefix: &str, n: usize)
    ensures
        texts(final(out)@) == texts(old(out)@) + blank_streams(prefix@, n as nat),
{
    let ghost start = texts(out@);
    assert(start =~= start + blank_streams(prefix@, 0));
    let mut i: usize = 0;
    while i < n
        invariant
            i <= n,
            texts(out@) == start + blank_streams(prefix@, i as nat),
        decreases n - i,
    {
        let flag = prefixed_decimal(prefix, i as u64);
        push_blank_statistics(out, &flag);
        i += 1;
        assert(texts(out@) =~= start + blank_streams(prefix@, i as nat));
    }
}

fn push_audio_track_args(out: &mut Vec<String>, info: &VideoInfo, audio_bitrates: &Vec<u32>)
    requires
        audio_bitrates.len() == info.audio_tracks.len(),
    ensures
        texts(final(out)@) == texts(old(out)@) + audio_track_args(
            audio_bitrates@,
            channel_counts(*info),
            info.audio_tracks.len() as nat,
        ),
{
    let ghost start = texts(out@);
    assert(start =~= start + audio_track_args(audio_bitrates@, channel_counts(*info), 0));
    let mut i: usize = 0;
    while i < info.audio_tracks.len()
        invariant
            i <= info.audio_tracks.len(),
            audio_bitrates.len() == info.audio_tracks.len(),
            texts(out@) == start + audio_track_args(
                audio_bitrates@,
                channel_counts(*info),
                i as nat,
            ),
        decreases info.audio_tracks.len() - i,
    {
        push_chars(out, &prefixed_decimal("-b:a:", i as u64));
        let mut kbps = decimal_chars((audio_bitrates[i] / 1000) as u64);
        let mut k = chars_of("k");
        kbps.append(&mut k);
        push_chars(out, &kbps);
        push_chars(out, &prefixed_decimal("-ac:a:", i as u64));
        push_chars(out, &decimal_chars(info.audio_tracks[i].channels as u64));
        assert(channel_counts(*info)[i as int] == info.audio_tracks@[i as int].channels);
        i += 1;
        assert(texts(out@) =~= start + audio_track_args(
            audio_bitrates@,
            channel_counts(*info),
            i as nat,
        ));
    }
}

fn stream_maps(info: &VideoInfo) -> (r: Vec<StreamMap>)
    ensures
        views(r@) == stream_maps_of(*info),
{
    let mut v: Vec<StreamMap> = Vec::new();
    v.push(StreamMap { stream_order: info.video_stream_order, selector: "0:v:0".to_owned() });
    let ghost head = seq![StreamMapView { stream_order: info.video_stream_order, selector: "0:v:0"@ }];
    assert(views(v@) =~= head);
    let mut i: usize = 0;
    while i < info.audio_tracks.len()
        invariant
            i <= info.audio_tracks.len(),
            views(v@) == head + Seq::new(i as nat, |k: int| audio_map(*info, k)),
        decreases info.audio_tracks.len() - i,
    {
        let m = StreamMap {
            stream_order: info.audio_tracks[i].stream_order,
            selector: string_from_chars(&prefixed_decimal("0:a:", i as u64)),
        };
        let ghost before = views(v@);
        v.push(m);
        assert(views(v@) =~= before.push(m@));
        i += 1;
        assert(views(v@) =~= head + Seq::new(i as nat, |k: int| audio_map(*info, k)));
    }
    let ghost mid = views(v@);
    assert(mid =~= mid + Seq::new(0, |k: int| subtitle_map(*info, k)));
    let mut j: usize = 0;
    while j < info.subtitle_tracks.len()
        invariant
            j <= info.subtitle_tracks.len(),
            views(v@) == mid + Seq::new(j as nat, |k: int| subtitle_map(*info, k)),
        decreases info.subtitle_tracks.len() - j,
    {
        let m = StreamMap {
            stream_order: info.subtitle_tracks[j].stream_order,
            selector: string_from_chars(&prefixed_decimal("0:s:", j as u64)),
        };
        let ghost before = views(v@);
        v.push(m);
        assert(views(v@) =~= before.push(m@));
        j += 1;
        assert(views(v@) =~= mid + Seq::new(j as nat, |k: int| subtitle_map(*info, k)));
    }
    assert(mid =~= head + Seq::new(info.audio_tracks.len() as nat, |k: int| audio_map(*info, k)));
    v
}

fn groups_in_order(info: &VideoInfo) -> (b: bool)
    ensures
        b == groups_in_source_order(*info),
{
    let v = info.video_stream_order;
    let mut i: usize = 0;
    while i < info.audio_tracks.len()
        invariant
            i <= info.audio_tracks.len(),
            v == info.video_stream_order,
            forall|k: int| 0 <= k < i ==> v <= #[trigger] info.audio_tracks@[k].stream_order,
        decreases info.audio_tracks.len() - i,
    {
        if info.audio_tracks[i].stream_order < v {
            assert(!(v <= info.audio_tracks@[i as int].stream_order));
            return false;
        }
        i += 1;
    }
    let mut j: usize = 0;
    while j < info.subtitle_tracks.len()
        invariant
            j <= info.subtitle_tracks.len(),
            v == info.video_stream_order,
            forall|k: int| 0 <= k < j ==> v <= #[trigger] info.subtitle_tracks@[k].stream_order,
        decreases info.subtitle_tracks.len() - j,
    {
        if info.subtitle_tracks[j].stream_order < v {
            assert(!(v <= info.subtitle_tracks@[j as int].stream_order));
            return false;
        }
        j += 1;
    }
    let mut a: usize = 0;
    while a < info.audio_tracks.len()
        invariant
            a <= info.audio_tracks.len(),
            forall|x: int, y: int|
                0 <= x < a && 0 <= y < info.subtitle_tracks.len()
                    ==> #[trigger] info.audio_tracks@[x].stream_order
                    <= #[trigger] info.subtitle_tracks@[y].stream_order,
        decreases info.audio_tracks.len() - a,
    {
        let mut t: usize = 0;
        while t < info.subtitle_tracks.len()
            invariant
                a < info.audio_tracks.len(),
                t <= info.subtitle_tracks.len(),
                forall|y: int|
                    0 <= y < t ==> info.audio_tracks@[a as int].stream_order
                        <= #[trigger] info.subtitle_tracks@[y].stream_order,
            decreases info.subtitle_tracks.len() - t,
        {
            if info.subtitle_tracks[t].stream_order < info.audio_tracks[a].stream_order {
                return false;
            }
            t += 1;
        }
        a += 1;
    }
    true
}

fn push_stream_maps(out: &mut Vec<String>, info: &VideoInfo)
    ensures
        texts(final(out)@) == texts(old(out)@) + map_args(in_source_order(stream_maps_of(*info))),
        stably_ordered::<StreamMap>(in_source_order(stream_maps_of(*info)), stream_maps_of(*info)),
{
    let maps = stream_maps(info);
    let sorted = sort_by_stream_order(&maps);
    proof {
        let r = in_source_order(stream_maps_of(*info));
        assert(stably_ordered::<StreamMap>(views(sorted@), stream_maps_of(*info)));
        law_stable_order_unique::<StreamMap>(r, views(sorted@), stream_maps_of(*info));
    }
    let ghost m = views(sorted@);
    let ghost mid = texts(out@);
    assert(mid =~= mid + map_args(m.take(0)));
    let mut k: usize = 0;
    while k < sorted.len()
        invariant
            k <= sorted.len(),
            m == views(sorted@),
            texts(out@) == mid + map_args(m.take(k as int)),
        decreases sorted.len() - k,
    {
        push_text(out, "-map");
        push_text(out, sorted[k].selector.as_str());
        assert(m.take(k + 1).drop_last() =~= m.take(k as int));
        assert(m.take(k + 1).last() == sorted@[k as int]@);
        k += 1;
        assert(texts(out@) =~= mid + map_args(m.take(k as int)));
    }
    assert(m.take(sorted.len() as int) =~= m);
}

fn push_input_section(out: &mut Vec<String>, input: &str, info: &VideoInfo)
    ensures
        texts(final(out)@) == texts(old(out)@) + input_section(input@, *info),
        !groups_in_source_order(*info) ==> stably_ordered::<StreamMap>(
            in_source_order(stream_maps_of(*info)),
            stream_maps_of(*info),
        ),
{
    let ghost start = texts(out@);
    push_text(out, "-i");
    push_text(out, input);
    let ghost mid = texts(out@);
    if groups_in_order(info) {
        push_text(out, "-map");
        push_text(out, "0:v:0");
        push_text(out, "-map");
        push_text(out, "0:a");
        if info.subtitle_tracks.len() > 0 {
            push_text(out, "-map");
            push_text(out, "0:s");
        }
        assert(texts(out@) =~= mid + grouped_maps(info.subtitle_tracks.len() > 0));
    } else {
        push_stream_maps(out, info);
    }
    assert(texts(out@) =~= start + input_section(input@, *info));
}

fn push_video_section(
    out: &mut Vec<String>,
    video_bitrate: Option<u32>,
    crf: Option<u32>,
    width: u32,
    height: u32,
)
    ensures
        texts(final(out)@) == texts(old(out)@) + video_section(video_bitrate, crf, width, height),
{
    let ghost start = texts(out@);
    push_text(out, "-c:v");
    push_text(out, "libvpx-vp9");
    push_text(out, "-row-mt");
    push_text(out, "1");
    match video_bitrate {
        Some(b) => {
            push_text(out, "-b:v");
            push_chars(out, &decimal_chars(b as u64));
        },
        None => {
            let c = match crf {
                Some(c) => c,
                None => calculate_auto_crf(width, height),
            };
            push_text(out, "-crf");
            push_chars(out, &decimal_chars(c as u64));
        },
    }
    assert(texts(out@) =~= start + video_section(video_bitrate, crf, width, height));
}

fn push_rate_and_speed(out: &mut Vec<String>, frame_rate: &Option<(String, String)>, speed: Speed)
    ensures
        texts(final(out)@) == texts(old(out)@) + rate_section(
            match *frame_rate {
                Some(fr) => Some((fr.0@, fr.1@)),
                None => None,
            },
        ) + speed_section(speed),
{
    let ghost start = texts(out@);
    match frame_rate {
        Some(fr) => {
            push_text(out, "-r");
            push_text(out, fr.0.as_str());
            push_text(out, "-g");
            push_text(out, fr.1.as_str());
        },
        None => {},
    }
    let ghost mid = texts(out@);
    let (deadline, cpu_speed) = speed.to_ffmpeg_args();
    push_text(out, "-deadline");
    push_text(out, deadline.as_str());
    push_text(out, "-speed");
    push_text(out, cpu_speed.as_str());
    push_text(out, "-c:a");
    push_text(out, "libopus");
    assert(mid =~= start + rate_section(
        match *frame_rate {
            Some(fr) => Some((fr.0@, fr.1@)),
            None => None,
        },
    ));
    assert(texts(out@) =~= mid + speed_section(speed));
}

fn push_metadata_section(out: &mut Vec<String>, subs: bool)
    ensures
        texts(final(out)@) == texts(old(out)@) + metadata_section(subs) + video_blank_section(),
{
    let ghost start = texts(out@);
    if subs {
        push_text(out, "-c:s");
        push_text(out, "copy");
    }
    push_text(out, "-map_metadata");
    push_text(out, "0:g");
    push_text(out, "-map_metadata:s:v");
    push_text(out, "0:s:v");
    push_text(out, "-map_metadata:s:a");
    push_text(out, "0:s:a");
    if subs {
        push_text(out, "-map_metadata:s:s");
        push_text(out, "0:s:s");
    }
    let ghost mid = texts(out@);
    assert(mid =~= start + metadata_section(subs));
    push_blank_statistics(out, &chars_of("-metadata:s:v"));
    push_text(out, "-metadata:s:v");
    push_text(out, "ENCODER=");
    assert(texts(out@) =~= mid + video_blank_section());
}

fn push_output_section(out: &mut Vec<String>, output: &str)
    ensures
        texts(final(out)@) == texts(old(out)@) + output_section(output@),
{
    let ghost start = texts(out@);
    push_text(out, "-y");
    push_text(out, output);
    push_text(out, "-progress");
    push_text(out, "pipe:1");
    push_text(out, "-nostats");
    assert(texts(out@) =~= start + output_section(output@));
}

/// Builds the ffmpeg command line (without the program name).
///
/// `video_bitrate`, `crf` and `audio_bitrates` are the settings already
/// chosen (one audio bitrate per audio track, in bits per second);
/// `frame_rate` is the output frame rate and keyframe interval as text.
pub fn ffmpeg_args(
    input: &str,
    output: &str,
    info: &VideoInfo,
    speed: Speed,
    video_bitrate: Option<u32>,
    crf: Option<u32>,
    audio_bitrates: &Vec<u32>,
    frame_rate: Option<(String, String)>,
) -> (args: Vec<String>)
    requires
        audio_bitrates.len() == info.audio_tracks.len(),
    ensures
        !groups_in_source_order(*info) ==> stably_ordered::<StreamMap>(
            in_source_order(stream_maps_of(*info)),
            stream_maps_of(*info),
        ),
        texts(args@) == ffmpeg_args_of(
            input@,
            output@,
            *info,
            speed,
            video_bitrate,
            crf,
            audio_bitrates@,
            match frame_rate {
                Some(fr) => Some((fr.0@, fr.1@)),
                None => None,
            },
        ),
        forall|i: int|
            0 <= i < info.audio_tracks.len() ==> {
                let k = audio_args_start(
                    input@,
                    *info,
                    speed,
                    video_bitrate,
                    crf,
                    match frame_rate {
                        Some(fr) => Some((fr.0@, fr.1@)),
                        None => None,
                    },
                ) + 4 * i;
                &&& texts(args@)[k + 3] == decimal(
                    (#[trigger] info.audio_tracks@[i]).channels as nat,
                )
                &&& texts(args@)[k + 2] == channels_flag(i as nat)
            },
{
    let subs = info.subtitle_tracks.len() > 0;
    let mut out: Vec<String> = Vec::new();
    push_input_section(&mut out, input, info);
    assert(texts(out@) =~= input_section(input@, *info));
    push_video_section(&mut out, video_bitrate, crf, info.width, info.height);
    push_rate_and_speed(&mut out, &frame_rate, speed);
    push_audio_track_args(&mut out, info, audio_bitrates);
    push_metadata_section(&mut out, subs);
    push_blank_streams(&mut out, "-metadata:s:a:", info.audio_tracks.len());
    push_blank_streams(&mut out, "-metadata:s:s:", info.subtitle_tracks.len());
    push_output_section(&mut out, output);
    proof {
        law_ffmpeg_audio_tracks_keep_channels(
            input@,
            output@,
            *info,
            speed,
            video_bitrate,
            crf,
            audio_bitrates@,
            match frame_rate {
                Some(fr) => Some((fr.0@, fr.1@)),
                None => None,
            },
        );
    }
    out
}


/// The four-digit, zero-padded decimal text of `i` (below 10000).
pub open spec fn four_digits(i: nat) -> Seq<char> {
    seq![
        digit_char(i / 1000),
        digit_char(i / 100 % 10),
        digit_char(i / 10 % 10),
        digit_char(i % 10),
    ]
}

/// The file name `<stem>_<iiii>.<ext>`.
pub open spec fn numbered_name(stem: Seq<char>, i: nat, ext: Seq<char>) -> Seq<char> {
    stem + "_"@ + four_digits(i) + "."@ + ext
}

/// The `i`-th alternative to `path`: in the same directory, named
/// `<stem>_<iiii>.<ext>` after `path`'s stem and extension.
pub open spec fn numbered_path(path: Seq<char>, i: nat) -> Seq<char> {
    path_join(
        text_or(path_parent(path), Seq::empty()),
        numbered_name(
            text_or(path_file_stem(path), Seq::empty()),
            i,
            text_or(path_extension(path), Seq::empty()),
        ),
    )
}

/// The existence check `path_exists` answered `b` for a path with the text `p`.
pub open spec fn answered<F: Fn(&str) -> bool>(path_exists: F, p: Seq<char>, b: bool) -> bool {
    exists|s: &str| s@ == p && #[trigger] call_ensures(path_exists, (s,), b)
}

/// `p` is the first alternative to `path` that `path_exists` reported free:
/// alternatives 1, 2, ... are tried in turn, up to 9999.
pub open spec fn first_free<F: Fn(&str) -> bool>(path_exists: F, path: Seq<char>, p: Seq<char>) -> bool {
    exists|i: u32|
        1 <= i < 10000 && p == numbered_path(path, i as nat) && answered(path_exists, p, false) && forall|
            j: u32,
        |
            1 <= j < i ==> answered(path_exists, #[trigger] numbered_path(path, j as nat), true)
}

/// `path_exists` reported every alternative to `path`, 1 to 9999, as taken.
pub open spec fn none_free<F: Fn(&str) -> bool>(path_exists: F, path: Seq<char>) -> bool {
    forall|j: u32| 1 <= j < 10000 ==> answered(path_exists, #[trigger] numbered_path(path, j as nat), true)
}

/// Why no output path was found.
#[derive(Clone, Copy, Debug, PartialEq, Eq, Structural)]
pub enum PathError {
    /// Every numbered alternative is taken.
    NoUniqueName,
}

fn four_digits_exec(i: u32) -> (r: Vec<char>)
    requires
        i < 10000,
    ensures
        r@ == four_digits(i as nat),
{
    let mut r: Vec<char> = Vec::new();
    r.push((48u8 + (i / 1000) as u8) as char);
    r.push((48u8 + (i / 100 % 10) as u8) as char);
    r.push((48u8 + (i / 10 % 10) as u8) as char);
    r.push((48u8 + (i % 10) as u8) as char);
    assert(r@ =~= four_digits(i as nat));
    r
}

fn numbered_name_exec(stem: &str, i: u32, ext: &str) -> (r: String)
    requires
        i < 10000,
    ensures
        r@ == numbered_name(stem@, i as nat, ext@),
{
    let mut v = chars_of(stem);
    v.append(&mut chars_of("_"));
    v.append(&mut four_digits_exec(i));
    v.append(&mut chars_of("."));
    v.append(&mut chars_of(ext));
    string_from_chars(&v)
}

fn text_or_empty(o: Option<String>) -> (s: String)
    ensures
        s@ == text_or(
            match o {
                Some(t) => Some(t@),
                None => None,
            },
            Seq::empty(),
        ),
{
    match o {
        Some(t) => t,
        None => String::new(),
    }
}

/// The first numbered alternative to `path` that `path_exists` reports free:
/// `<dir>/<stem>_0001.<ext>`, then `_0002`, and so on up to `_9999`.
pub fn make_unique_path<F: Fn(&str) -> bool>(path: &str, path_exists: &F) -> (r: Result<
    String,
    PathError,
>)
    requires
        forall|s: &str| call_requires(*path_exists, (s,)),
    ensures
        match r {
            Ok(p) => first_free(*path_exists, path@, p@),
            Err(e) => e == PathError::NoUniqueName && none_free(*path_exists, path@),
        },
{
    let stem = text_or_empty(file_stem(path));
    let ext = text_or_empty(extension(path));
    let dir = text_or_empty(parent(path));
    let mut i: u32 = 1;
    while i < 10000
        invariant
            1 <= i <= 10000,
            forall|s: &str| call_requires(*path_exists, (s,)),
            stem@ == text_or(path_file_stem(path@), Seq::empty()),
            ext@ == text_or(path_extension(path@), Seq::empty()),
            dir@ == text_or(path_parent(path@), Seq::empty()),
            forall|j: u32|
                1 <= j < i ==> answered(*path_exists, #[trigger] numbered_path(path@, j as nat), true),
        decreases 10000 - i,
    {
        let candidate = join(dir.as_str(), numbered_name_exec(stem.as_str(), i, ext.as_str()).as_str());
        assert(candidate@ == numbered_path(path@, i as nat));
        let c = candidate.as_str();
        let taken = path_exists(c);
        assert(call_ensures(*path_exists, (c,), taken));
        if !taken {
            assert(answered(*path_exists, candidate@, false));
            return Ok(candidate);
        }
        assert(answered(*path_exists, numbered_path(path@, i as nat), true));
        i += 1;
    }
    Err(PathError::NoUniqueName)
}

/// The directory an output goes to when no output file is given: the
/// output directory, else the input directory, else the input's own
/// directory (`.` when it has none).
pub open spec fn output_base(cli: Cli, input: Seq<char>) -> Seq<char> {
    match cli.output_dir {
        Some(d) => d@,
        None => match cli.input_dir {
            Some(d) => d@,
            None => text_or(path_parent(input), "."@),
        },
    }
}

/// The file name `<stem>.mkv` for the path `p`.
pub open spec fn mkv_name(p: Seq<char>) -> Seq<char> {
    text_or(path_file_stem(p), Seq::empty()) + ".mkv"@
}

/// Where the encoded file for `input` goes when no output file is given,
/// before it is numbered: `<base>/<stem>.mkv`; in recursive mode the folders
/// between the input directory and the input are kept below the base (an
/// input outside the input directory keeps its whole directory path, joined
/// onto the base).
pub open spec fn default_output_path(cli: Cli, input: Seq<char>) -> Seq<char> {
    let base = output_base(cli, input);
    match cli.input_dir {
        Some(d) => if cli.recursive {
            match path_strip_prefix(input, d@) {
                Some(rel) => path_join(
                    path_join(base, text_or(path_parent(rel), Seq::empty())),
                    mkv_name(rel),
                ),
                None => path_join(
                    path_join(base, text_or(path_parent(input), Seq::empty())),
                    mkv_name(input),
                ),
            }
        } else {
            path_join(base, mkv_name(input))
        },
        None => path_join(base, mkv_name(input)),
    }
}

/// Law: in recursive mode with an output directory `o`, an input that lies
/// below the input directory, at the relative path `rel`, goes to
/// `o/<folders of rel>/<stem of rel>.mkv`: the output directory keeps the
/// input's folder structure.
pub proof fn law_recursive_output_under_output_dir(cli: Cli, input: Seq<char>, rel: Seq<char>)
    requires
        cli.recursive,
        cli.output_dir is Some,
        cli.input_dir is Some,
        path_strip_prefix(input, cli.input_dir->Some_0@) == Some(rel),
    ensures
        default_output_path(cli, input) == path_join(
            path_join(cli.output_dir->Some_0@, text_or(path_parent(rel), Seq::empty())),
            text_or(path_file_stem(rel), Seq::empty()) + ".mkv"@,
        ),
{
}

/// Law: in recursive mode, two inputs at the same path relative to their
/// input directories get the same output path when the output directory is
/// the same, wherever the input directories lie.
pub proof fn law_recursive_output_by_relative_path(
    cli1: Cli,
    input1: Seq<char>,
    cli2: Cli,
    input2: Seq<char>,
    rel: Seq<char>,
)
    requires
        cli1.recursive,
        cli2.recursive,
        cli1.output_dir is Some,
        cli2.output_dir is Some,
        cli1.output_dir->Some_0@ == cli2.output_dir->Some_0@,
        cli1.input_dir is Some,
        cli2.input_dir is Some,
        path_strip_prefix(input1, cli1.input_dir->Some_0@) == Some(rel),
        path_strip_prefix(input2, cli2.input_dir->Some_0@) == Some(rel),
    ensures
        default_output_path(cli1, input1) == default_output_path(cli2, input2),
{
}

/// Law: outside recursive mode, an output directory `o` receives
/// `o/<stem of input>.mkv`.
pub proof fn law_flat_output_in_output_dir(cli: Cli, input: Seq<char>)
    requires
        cli.output_dir is Some,
        !cli.recursive || cli.input_dir is None,
    ensures
        default_output_path(cli, input) == path_join(
            cli.output_dir->Some_0@,
            text_or(path_file_stem(input), Seq::empty()) + ".mkv"@,
        ),
{
}

fn mkv_name_exec(p: &str) -> (r: String)
    ensures
        r@ == mkv_name(p@),
{
    let mut name = chars_of(text_or_empty(file_stem(p)).as_str());
    name.append(&mut chars_of(".mkv"));
    string_from_chars(&name)
}

fn default_output_path_exec(cli: &Cli, input_path: &str) -> (r: String)
    ensures
        r@ == default_output_path(*cli, input_path@),
{
    let base = match &cli.output_dir {
        Some(d) => d.clone(),
        None => match &cli.input_dir {
            Some(d) => d.clone(),
            None => match parent(input_path) {
                Some(p) => p,
                None => ".".to_owned(),
            },
        },
    };
    let flat = join(base.as_str(), mkv_name_exec(input_path).as_str());
    match &cli.input_dir {
        Some(d) => {
            if cli.recursive {
                match strip_prefix(input_path, d.as_str()) {
                    Some(rel) => {
                        let dir = join(base.as_str(), text_or_empty(parent(rel.as_str())).as_str());
                        join(dir.as_str(), mkv_name_exec(rel.as_str()).as_str())
                    },
                    None => {
                        let dir = join(base.as_str(), text_or_empty(parent(input_path)).as_str());
                        join(dir.as_str(), mkv_name_exec(input_path).as_str())
                    },
                }
            } else {
                flat
            }
        },
        None => flat,
    }
}

/// Where the encoded file for `input_path` goes.
///
/// With an output file given, that file if `path_exists` reports it free,
/// else its first free numbered alternative (`_0001`, ...). Without one,
/// the first free numbered alternative of `<stem>.mkv` in the output
/// location (so `my_video.mp4` gives `my_video_0001.mkv` beside it).
pub fn determine_output_path<F: Fn(&str) -> bool>(cli: &Cli, input_path: &str, path_exists: &F) -> (r:
    Result<String, PathError>)
    requires
        forall|s: &str| call_requires(*path_exists, (s,)),
    ensures
        match cli.output {
            Some(o) => match r {
                Ok(p) => (p@ == o@ && answered(*path_exists, o@, false)) || (answered(
                    *path_exists,
                    o@,
                    true,
                ) && first_free(*path_exists, o@, p@)),
                Err(e) => e == PathError::NoUniqueName && answered(*path_exists, o@, true)
                    && none_free(*path_exists, o@),
            },
            None => {
                let c = default_output_path(*cli, input_path@);
                match r {
                    Ok(p) => first_free(*path_exists, c, p@),
                    Err(e) => e == PathError::NoUniqueName && none_free(*path_exists, c),
                }
            },
        },
        cli.output is None && cli.recursive && cli.output_dir is Some && cli.input_dir is Some
            && path_strip_prefix(input_path@, cli.input_dir->Some_0@) is Some ==> {
            let rel = path_strip_prefix(input_path@, cli.input_dir->Some_0@)->Some_0;
            let c = path_join(
                path_join(cli.output_dir->Some_0@, text_or(path_parent(rel), Seq::empty())),
                text_or(path_file_stem(rel), Seq::empty()) + ".mkv"@,
            );
            match r {
                Ok(p) => first_free(*path_exists, c, p@),
                Err(e) => none_free(*path_exists, c),
            }
        },
{
    match &cli.output {
        Some(o) => {
            let c = o.as_str();
            let taken = path_exists(c);
            assert(call_ensures(*path_exists, (c,), taken));
            if taken {
                make_unique_path(c, path_exists)
            } else {
                Ok(o.clone())
            }
        },
        None => {
            let candidate = default_output_path_exec(cli, input_path);
            make_unique_path(candidate.as_str(), path_exists)
        },
    }
}

/// The temporary output path used when the output will replace the source:
/// `<stem>.temp.mkv` beside `input`; none when `input` has no parent.
pub open spec fn temp_output_path_of(input: Seq<char>) -> Option<Seq<char>> {
    match path_parent(input) {
        Some(dir) => Some(
            path_join(dir, text_or(path_file_stem(input), Seq::empty()) + ".temp.mkv"@),
        ),
        None => None,
    }
}

/// The temporary output path `<stem>.temp.mkv` beside `input`.
pub fn temp_output_path(input: &str) -> (r: Option<String>)
    ensures
        match r {
            Some(p) => temp_output_path_of(input@) == Some(p@),
            None => temp_output_path_of(input@) is None,
        },
{
    match parent(input) {
        Some(dir) => {
            let mut name = chars_of(text_or_empty(file_stem(input)).as_str());
            name.append(&mut chars_of(".temp.mkv"));
            Some(join(dir.as_str(), string_from_chars(&name).as_str()))
        },
        None => None,
    }
}

/// A file operation.
#[derive(Clone, Debug, PartialEq, Eq)]
pub enum FileAction {
    /// Delete the file.
    Remove(String),
    /// Rename the first path to the second.
    Rename(String, String),
}

/// A file operation on paths seen as characters.
pub enum FileActionView {
    Remove(Seq<char>),
    Rename(Seq<char>, Seq<char>),
}

impl View for FileAction {
    type V = FileActionView;

    open spec fn view(&self) -> FileActionView {
        match self {
            FileAction::Remove(p) => FileActionView::Remove(p@),
            FileAction::Rename(a, b) => FileActionView::Rename(a@, b@),
        }
    }
}

/// The operations that replace the source `input` by the encoded `output`:
/// with `delete`, remove the source and give the output the source's file
/// name; with `rename`, first rename the source to `_old_<name>`. None when
/// a path that must have a parent has none.
pub open spec fn post_process_actions_of(cli: Cli, input: Seq<char>, output: Seq<char>) -> Option<
    Seq<FileActionView>,
> {
    let name = text_or(path_file_name(input), Seq::empty());
    if cli.delete {
        match path_parent(output) {
            Some(out_dir) => Some(
                seq![
                    FileActionView::Remove(input),
                    FileActionView::Rename(output, path_join(out_dir, name)),
                ],
            ),
            None => None,
        }
    } else if cli.rename {
        match (path_parent(input), path_parent(output)) {
            (Some(in_dir), Some(out_dir)) => Some(
                seq![
                    FileActionView::Rename(input, path_join(in_dir, "_old_"@ + name)),
                    FileActionView::Rename(output, path_join(out_dir, name)),
                ],
            ),
            _ => None,
        }
    } else {
        Some(Seq::empty())
    }
}

/// The views of file operations.
pub open spec fn action_views(v: Seq<FileAction>) -> Seq<FileActionView> {
    v.map_values(|a: FileAction| a@)
}

/// The file operations that put the encoded `output` in the place of `input`.
pub fn post_process_actions(cli: &Cli, input: &str, output: &str) -> (r: Option<Vec<FileAction>>)
    ensures
        match r {
            Some(v) => post_process_actions_of(*cli, input@, output@) == Some(action_views(v@)),
            None => post_process_actions_of(*cli, input@, output@) is None,
        },
{
    let name = text_or_empty(file_name(input));
    if cli.delete {
        match parent(output) {
            Some(out_dir) => {
                let mut v: Vec<FileAction> = Vec::new();
                v.push(FileAction::Remove(input.to_owned()));
                v.push(FileAction::Rename(output.to_owned(), join(out_dir.as_str(), name.as_str())));
                assert(action_views(v@) =~= post_process_actions_of(*cli, input@, output@)->Some_0);
                Some(v)
            },
            None => None,
        }
    } else if cli.rename {
        match (parent(input), parent(output)) {
            (Some(in_dir), Some(out_dir)) => {
                let mut old_name = chars_of("_old_");
                old_name.append(&mut chars_of(name.as_str()));
                let old_path = join(in_dir.as_str(), string_from_chars(&old_name).as_str());
                let mut v: Vec<FileAction> = Vec::new();
                v.push(FileAction::Rename(input.to_owned(), old_path));
                v.push(FileAction::Rename(output.to_owned(), join(out_dir.as_str(), name.as_str())));
                assert(action_views(v@) =~= post_process_actions_of(*cli, input@, output@)->Some_0);
                Some(v)
            },
            _ => None,
        }
    } else {
        let v: Vec<FileAction> = Vec::new();
        assert(action_views(v@) =~= Seq::<FileActionView>::empty());
        Some(v)
    }
}

} // verus!
