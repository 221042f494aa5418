//! Which files count as videos.

use vstd::prelude::*;

use crate::text::{ascii_lower, chars_eq, chars_of, is_ascii_text, lowercase, to_lowercase};

verus! {

/// The file extensions, in lowercase, of the videos that are encoded.
pub open spec fn video_extensions() -> Seq<Seq<char>> {
    seq!["mp4"@, "mkv"@, "avi"@, "mov"@, "flv"@, "wmv"@, "webm"@]
}

/// A file with the extension `ext` is a video: the lowercased extension is
/// one of the video extensions.
pub open spec fn is_video_ext(ext: Seq<char>) -> bool {
    video_extensions().contains(lowercase(ext))
}

/// Whether a file with the extension `ext` (without the dot) is a video.
pub fn is_video_extension(ext: &str) -> (b: bool)
    ensures
        b == is_video_ext(ext@),
        is_ascii_text(ext@) ==> (b <==> video_extensions().contains(
            ext@.map_values(|c: char| ascii_lower(c)),
        )),
{
    let lower = chars_of(to_lowercase(ext).as_str());
    let known = ["mp4", "mkv", "avi", "mov", "flv", "wmv", "webm"];
    let ghost exts = video_extensions();
    let mut i: usize = 0;
    while i < 7
        invariant
            i <= 7,
            lower@ == lowercase(ext@),
            is_ascii_text(ext@) ==> lower@ == ext@.map_values(|c: char| ascii_lower(c)),
            exts == video_extensions(),
            forall|k: int| 0 <= k < 7 ==> known@[k]@ == #[trigger] exts[k],
            forall|k: int| 0 <= k < i ==> exts[k] != lower@,
        decreases 7 - i,
    {
        if chars_eq(&lower, &chars_of(known[i])) {
            assert(exts[i as int] == lower@);
            return true;
        }
        i += 1;
    }
    assert(!exts.contains(lower@)) by {
        if exts.contains(lower@) {
            let k = choose|k: int| 0 <= k < exts.len() && exts[k] == lower@;
            assert(exts.len() == 7);
        }
    }
    false
}

} // verus!
