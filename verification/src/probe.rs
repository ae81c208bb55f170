use vstd::prelude::*;
use vstd::utf8::{decode_utf8, valid_utf8};

use crate::decimal::{parse_u64, parse_u64_chars};
use crate::text::{chars_of, trim, trim_chars};

verus! {

/// The bit rate in kbit/s that `ffprobe` reports in `text`, its output for
/// `stream=bit_rate`: the trimmed text parsed as a `u64` number of bit/s,
/// divided by 1000 and cut to 32 bits; `None` when it does not parse
/// (as for an empty output or `N/A`).
pub open spec fn ffprobe_bit_rate(text: Seq<char>) -> Option<u32> {
    match parse_u64(trim(text)) {
        Some(bps) => Some(((bps / 1000) % 0x1_0000_0000) as u32),
        None => None,
    }
}

/// What `String::from_utf8_lossy` makes of the bytes `b`.
pub uninterp spec fn lossy_utf8(b: Seq<u8>) -> Seq<char>;

/// `String::from_utf8_lossy` of std, made owned.
/// Trusted: the text is `lossy_utf8` of the bytes, and it is the decoded
/// text when the bytes are valid UTF-8, as std documents.
#[verifier::external_body]
fn utf8_lossy(bytes: &[u8]) -> (s: String)
    ensures
        s@ == lossy_utf8(bytes@),
        valid_utf8(bytes@) ==> s@ == decode_utf8(bytes@),
{
    String::from_utf8_lossy(bytes).into_owned()
}

/// The bit rate in kbit/s in `ffprobe`'s output text, as `ffprobe_bit_rate` states.
pub fn bit_rate_from_ffprobe_text(text: &str) -> (r: Option<u32>)
    ensures
        r == ffprobe_bit_rate(text@),
{
    let cs = chars_of(text);
    let t = trim_chars(cs.as_slice());
    let na = chars_of("N/A");
    proof {
        reveal_strlit("N/A");
    }
    if t.len() == 0 || crate::text::chars_equal(t.as_slice(), na.as_slice()) {
        proof {
            if t@.len() > 0 {
                assert(!crate::decimal::is_digit(t@[0]));
                assert(!crate::decimal::all_digits(t@));
            }
        }
        return None;
    }
    match parse_u64_chars(t.as_slice()) {
        Some(bps) => Some(((bps / 1000) % 0x1_0000_0000) as u32),
        None => None,
    }
}

/// The bit rate in kbit/s in the bytes that `ffprobe` wrote to its standard
/// output: the bytes are read as UTF-8 (invalid sequences replaced) and
/// then as `ffprobe_bit_rate` states.
pub fn bit_rate_from_ffprobe_stdout(stdout: &[u8]) -> (r: Option<u32>)
    ensures
        r == ffprobe_bit_rate(lossy_utf8(stdout@)),
        valid_utf8(stdout@) ==> r == ffprobe_bit_rate(decode_utf8(stdout@)),
{
    let text = utf8_lossy(stdout);
    bit_rate_from_ffprobe_text(text.as_str())
}

} // verus!
