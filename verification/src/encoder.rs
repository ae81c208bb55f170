use vstd::prelude::*;

use crate::decimal::{decimal, push_decimal};
use crate::text::{owned, push_char, str_equal};

verus! {

/// The texts held by a vector of strings.
pub open spec fn texts(v: Seq<String>) -> Seq<Seq<char>> {
    v.map_values(|s: String| s@)
}

/// The `ffmpeg` audio encoder for an output type: `libopus`, `libvorbis`
/// (for `vorbis` and `ogg`), `libmp3lame`, `aac`, `flac`, `pcm_s16le` (for
/// `wav`), and `lib` followed by the type for any other type.
pub open spec fn audio_encoder(output_type: Seq<char>) -> Seq<char> {
    if output_type == "opus"@ {
        "libopus"@
    } else if output_type == "vorbis"@ || output_type == "ogg"@ {
        "libvorbis"@
    } else if output_type == "mp3"@ {
        "libmp3lame"@
    } else if output_type == "aac"@ {
        "aac"@
    } else if output_type == "flac"@ {
        "flac"@
    } else if output_type == "wav"@ {
        "pcm_s16le"@
    } else {
        "lib"@ + output_type
    }
}

/// The bit rate option value: the rate in kbit/s followed by `k`.
pub open spec fn bit_rate_value(bit_rate: nat) -> Seq<char> {
    decimal(bit_rate).push('k')
}

/// The `ffmpeg` encoder arguments for an output type and a bit rate in
/// kbit/s: `-c:a <encoder>`, then for `opus` the bit rate, variable bit
/// rate, fastest compression and the `voip` application; for `flac` the
/// fastest compression; for `wav` nothing more; for any other type the bit
/// rate.
pub open spec fn encoder_args(output_type: Seq<char>, bit_rate: nat) -> Seq<Seq<char>> {
    seq!["-c:a"@, audio_encoder(output_type)] + if output_type == "opus"@ {
        seq![
            "-b:a"@,
            bit_rate_value(bit_rate),
            "-vbr"@,
            "on"@,
            "-compression_level"@,
            "0"@,
            "-application"@,
            "voip"@,
        ]
    } else if output_type == "flac"@ {
        seq!["-compression_level"@, "0"@]
    } else if output_type == "wav"@ {
        Seq::<Seq<char>>::empty()
    } else {
        seq!["-b:a"@, bit_rate_value(bit_rate)]
    }
}

/// The full `ffmpeg` command line that converts `input` to `output`:
/// read `input`, mix down to one channel, encode as `encoder_args` states,
/// report progress on standard output, write `output`, overwrite it.
pub open spec fn convert_args(
    input: Seq<char>,
    output_type: Seq<char>,
    bit_rate: nat,
    output: Seq<char>,
) -> Seq<Seq<char>> {
    seq!["-i"@, input, "-ac"@, "1"@] + encoder_args(output_type, bit_rate) + seq![
        "-progress"@,
        "pipe:1"@,
        output,
        "-y"@,
    ]
}

/// The `ffprobe` command line that prints only the bit rate of the first
/// audio stream of `path`.
pub open spec fn probe_args(path: Seq<char>) -> Seq<Seq<char>> {
    seq![
        "-v"@,
        "quiet"@,
        "-select_streams"@,
        "a:0"@,
        "-show_entries"@,
        "stream=bit_rate"@,
        "-of"@,
        "default=noprint_wrappers=1:nokey=1"@,
        path,
    ]
}

fn push_owned(v: &mut Vec<String>, s: &str)
    ensures
        texts(final(v)@) == texts(old(v)@).push(s@),
{
    v.push(owned(s));
    assert(texts(v@) =~= texts(old(v)@).push(s@));
}

fn push_string(v: &mut Vec<String>, s: String)
    ensures
        texts(final(v)@) == texts(old(v)@).push(s@),
{
    let ghost t = s@;
    v.push(s);
    assert(texts(v@) =~= texts(old(v)@).push(t));
}

fn bit_rate_string(bit_rate: u32) -> (s: String)
    ensures
        s@ == bit_rate_value(bit_rate as nat),
{
    let mut s = String::new();
    push_decimal(&mut s, bit_rate as u128);
    push_char(&mut s, 'k');
    assert(s@ =~= bit_rate_value(bit_rate as nat));
    s
}

/// The `ffmpeg` audio encoder for an output type, as `audio_encoder` states.
pub fn create_audio_encoder(output_type: &str) -> (e: String)
    ensures
        e@ == audio_encoder(output_type@),
{
    if str_equal(output_type, "opus") {
        owned("libopus")
    } else if str_equal(output_type, "vorbis") || str_equal(output_type, "ogg") {
        owned("libvorbis")
    } else if str_equal(output_type, "mp3") {
        owned("libmp3lame")
    } else if str_equal(output_type, "aac") {
        owned("aac")
    } else if str_equal(output_type, "flac") {
        owned("flac")
    } else if str_equal(output_type, "wav") {
        owned("pcm_s16le")
    } else {
        let mut e = owned("lib");
        e.append(output_type);
        e
    }
}

fn push_encoder_args(args: &mut Vec<String>, output_type: &str, output_bit_rate: u32)
    ensures
        texts(final(args)@) == texts(old(args)@) + encoder_args(output_type@, output_bit_rate as nat),
{
    let encoder = create_audio_encoder(output_type);
    push_owned(args, "-c:a");
    push_string(args, encoder);
    if str_equal(output_type, "opus") {
        push_owned(args, "-b:a");
        push_string(args, bit_rate_string(output_bit_rate));
        push_owned(args, "-vbr");
        push_owned(args, "on");
        push_owned(args, "-compression_level");
        push_owned(args, "0");
        push_owned(args, "-application");
        push_owned(args, "voip");
    } else if str_equal(output_type, "flac") {
        push_owned(args, "-compression_level");
        push_owned(args, "0");
    } else if str_equal(output_type, "wav") {
    } else {
        push_owned(args, "-b:a");
        push_string(args, bit_rate_string(output_bit_rate));
    }
    assert(texts(args@) =~= texts(old(args)@) + encoder_args(output_type@, output_bit_rate as nat));
}

/// The `ffmpeg` encoder arguments, as `encoder_args` states.
pub fn create_audio_encoder_args(output_type: &str, output_bit_rate: u32) -> (args: Vec<String>)
    ensures
        texts(args@) == encoder_args(output_type@, output_bit_rate as nat),
{
    let mut args: Vec<String> = Vec::new();
    push_encoder_args(&mut args, output_type, output_bit_rate);
    assert(texts(args@) =~= encoder_args(output_type@, output_bit_rate as nat));
    args
}

/// The `ffmpeg` command line that converts `input` to `output`, as
/// `convert_args` states.
pub fn ffmpeg_convert_args(
    input: &str,
    output_type: &str,
    output_bit_rate: u32,
    output: &str,
) -> (args: Vec<String>)
    ensures
        texts(args@) == convert_args(input@, output_type@, output_bit_rate as nat, output@),
{
    let mut args: Vec<String> = Vec::new();
    push_owned(&mut args, "-i");
    push_owned(&mut args, input);
    push_owned(&mut args, "-ac");
    push_owned(&mut args, "1");
    push_encoder_args(&mut args, output_type, output_bit_rate);
    push_owned(&mut args, "-progress");
    push_owned(&mut args, "pipe:1");
    push_owned(&mut args, output);
    push_owned(&mut args, "-y");
    assert(texts(args@) =~= convert_args(input@, output_type@, output_bit_rate as nat, output@));
    args
}

/// The `ffprobe` command line that reads the bit rate of `path`, as
/// `probe_args` states.
pub fn ffprobe_bit_rate_args(path: &str) -> (args: Vec<String>)
    ensures
        texts(args@) == probe_args(path@),
{
    let mut args: Vec<String> = Vec::new();
    push_owned(&mut args, "-v");
    push_owned(&mut args, "quiet");
    push_owned(&mut args, "-select_streams");
    push_owned(&mut args, "a:0");
    push_owned(&mut args, "-show_entries");
    push_owned(&mut args, "stream=bit_rate");
    push_owned(&mut args, "-of");
    push_owned(&mut args, "default=noprint_wrappers=1:nokey=1");
    push_owned(&mut args, path);
    assert(texts(args@) =~= probe_args(path@));
    args
}

} // verus!
