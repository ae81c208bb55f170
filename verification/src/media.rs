use vstd::prelude::*;

use crate::text::chars_of;

verus! {

/// What is known of the audio of a media file.
#[derive(Debug, Clone, PartialEq)]
pub struct MediaInfo {
    /// Samples per second, in Hz.
    pub sample_rate: Option<u32>,
    /// Bit rate in kbps.
    pub bit_rate: Option<u32>,
    /// Number of channels.
    pub channels: Option<u8>,
    /// Length in milliseconds.
    pub duration_ms: Option<u64>,
    /// Name of the codec.
    pub codec: Option<String>,
}

/// The length in milliseconds of `frames` frames at `rate` frames per
/// second, rounded down; unknown unless both are known.
pub open spec fn duration_of(frames: Option<u64>, rate: Option<u32>) -> Option<u64> {
    match (frames, rate) {
        (Some(f), Some(r)) => Some(((f * 1000) / (r as int)) as u64),
        _ => None,
    }
}

/// The frame count and the rate can be turned into a length: the rate is
/// not zero and the frame count in thousandths fits in a `u64`.
pub open spec fn duration_computable(frames: Option<u64>, rate: Option<u32>) -> bool {
    match (frames, rate) {
        (Some(f), Some(r)) => r > 0 && f * 1000 <= u64::MAX,
        _ => true,
    }
}

impl MediaInfo {
    /// The information of an audio track from its codec parameters: the
    /// sample rate, the channel count cut to 8 bits, the length from the
    /// frame count and the sample rate, and the codec's name. The codec
    /// parameters carry no bit rate, so it is unknown here (the bit rate in
    /// kbps is then read with `ffprobe`).
    pub fn from_codec_params(
        sample_rate: Option<u32>,
        n_frames: Option<u64>,
        channel_count: Option<u32>,
        codec: String,
    ) -> (info: MediaInfo)
        requires
            duration_computable(n_frames, sample_rate),
        ensures
            info.sample_rate == sample_rate,
            info.bit_rate is None,
            info.channels == (match channel_count {
                Some(c) => Some((c % 256) as u8),
                None => None,
            }),
            info.duration_ms == duration_of(n_frames, sample_rate),
            info.codec matches Some(c) && c@ == codec@,
    {
        let duration_ms = match (n_frames, sample_rate) {
            (Some(f), Some(r)) => Some((f * 1000) / (r as u64)),
            _ => None,
        };
        let channels = match channel_count {
            Some(c) => Some((c % 256) as u8),
            None => None,
        };
        MediaInfo {
            sample_rate,
            bit_rate: None,
            channels,
            duration_ms,
            codec: Some(codec),
        }
    }

    /// Nothing is known.
    pub fn unknown() -> (info: MediaInfo)
        ensures
            info.sample_rate is None,
            info.bit_rate is None,
            info.channels is None,
            info.duration_ms is None,
            info.codec is None,
    {
        MediaInfo { sample_rate: None, bit_rate: None, channels: None, duration_ms: None, codec: None }
    }
}

/// The index of the first track whose codec is known (not the null codec).
pub open spec fn first_known(codec_is_null: Seq<bool>) -> Option<int>
    decreases codec_is_null.len(),
{
    if codec_is_null.len() == 0 {
        None
    } else if !codec_is_null[0] {
        Some(0)
    } else {
        match first_known(codec_is_null.drop_first()) {
            Some(i) => Some(i + 1),
            None => None,
        }
    }
}

/// The track that the audio information is read from, as `first_known`
/// states, given for each track whether its codec is the null codec.
pub fn first_known_track(codec_is_null: &[bool]) -> (r: Option<usize>)
    ensures
        r matches Some(i) ==> first_known(codec_is_null@) == Some(i as int),
        r is None ==> first_known(codec_is_null@) is None,
{
    let mut i: usize = 0;
    assert(codec_is_null@.skip(0) =~= codec_is_null@);
    while i < codec_is_null.len()
        invariant
            i <= codec_is_null@.len(),
            first_known(codec_is_null@) == (match first_known(codec_is_null@.skip(i as int)) {
                Some(j) => Some(j + i),
                None => None,
            }),
        decreases codec_is_null@.len() - i,
    {
        if !codec_is_null[i] {
            return Some(i);
        }
        assert(codec_is_null@.skip(i as int).drop_first() =~= codec_is_null@.skip(i + 1));
        i += 1;
    }
    None
}

/// `c` with an ASCII capital letter turned into its small letter.
pub open spec fn ascii_lower(c: char) -> char {
    if 'A' <= c && c <= 'Z' { ((c as u8) + 32) as char } else { c }
}

/// A file extension of audio that can be converted: `mp3`, `wav`, `flac`,
/// `aac`, `ogg` or `opus`, ASCII letters compared without case (which is
/// what comparing the lowercased extension gives for these names).
pub open spec fn is_audioable(ext: Seq<char>) -> bool {
    let e = ext.map_values(|c: char| ascii_lower(c));
    e == "mp3"@ || e == "wav"@ || e == "flac"@ || e == "aac"@ || e == "ogg"@ || e == "opus"@
}

fn ascii_lower_char(c: char) -> (l: char)
    ensures
        l == ascii_lower(c),
{
    if 'A' <= c && c <= 'Z' {
        ((c as u8) + 32) as char
    } else {
        c
    }
}

/// Whether a file with extension `ext` is audio that can be converted, as
/// `is_audioable` states.
pub fn is_audioable_extension(ext: &str) -> (b: bool)
    ensures
        b == is_audioable(ext@),
{
    let cs = chars_of(ext);
    let mut lower: Vec<char> = Vec::new();
    let mut i: usize = 0;
    while i < cs.len()
        invariant
            i <= cs@.len(),
            cs@ == ext@,
            lower@ == cs@.take(i as int).map_values(|c: char| ascii_lower(c)),
        decreases cs@.len() - i,
    {
        lower.push(ascii_lower_char(cs[i]));
        assert(cs@.take(i + 1).map_values(|c: char| ascii_lower(c)) =~= cs@.take(i as int).map_values(
            |c: char| ascii_lower(c),
        ).push(ascii_lower(cs@[i as int])));
        i += 1;
    }
    assert(cs@.take(cs@.len() as int) =~= cs@);
    let l = lower.as_slice();
    crate::text::chars_equal(l, chars_of("mp3").as_slice()) || crate::text::chars_equal(l, chars_of("wav").as_slice())
        || crate::text::chars_equal(l, chars_of("flac").as_slice()) || crate::text::chars_equal(l, chars_of("aac").as_slice())
        || crate::text::chars_equal(l, chars_of("ogg").as_slice()) || crate::text::chars_equal(l, chars_of("opus").as_slice())
}

} // verus!
