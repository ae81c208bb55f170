use vstd::prelude::*;

use crate::text::owned;

verus! {

/// The text of the string value of member `key` of the JSON object that
/// `text` holds, as `serde_json` reads it; `None` when `text` is no JSON,
/// or holds no object, or the member is missing or no string.
pub uninterp spec fn json_member_text(text: Seq<char>, key: Seq<char>) -> Option<Seq<char>>;

/// The value of member `key` of the JSON object that `text` holds, when it
/// is a non-negative integer that fits in a `u64`, as `serde_json` reads it.
pub uninterp spec fn json_member_u64(text: Seq<char>, key: Seq<char>) -> Option<u64>;

/// `serde_json::from_str::<Value>`, then `Value::get(key)` and `Value::as_str`.
/// Trusted: the result is `json_member_text` of the text and the key, and
/// there is none for an empty text (`from_str` fails there: no value
/// before the end of the input).
#[verifier::external_body]
fn member_text(text: &str, key: &str) -> (r: Option<String>)
    ensures
        r matches Some(s) ==> json_member_text(text@, key@) == Some(s@),
        r is None ==> json_member_text(text@, key@) is None,
        text@.len() == 0 ==> r is None,
{
    serde_json::from_str::<serde_json::Value>(text).ok().and_then(
        |v| v.get(key).and_then(|m| m.as_str()).map(|s| s.to_owned()),
    )
}

/// `serde_json::from_str::<Value>`, then `Value::get(key)` and `Value::as_u64`.
/// Trusted: the result is `json_member_u64` of the text and the key, and
/// there is none for an empty text (`from_str` fails there).
#[verifier::external_body]
fn member_u64(text: &str, key: &str) -> (r: Option<u64>)
    ensures
        r == json_member_u64(text@, key@),
        text@.len() == 0 ==> r is None,
{
    serde_json::from_str::<serde_json::Value>(text).ok().and_then(|v| v.get(key).and_then(|m| m.as_u64()))
}

/// The settings of the application.
pub struct Settings {
    /// The folder that is opened first.
    pub default_path: String,
    /// The output type selected first.
    pub default_selected_format: String,
    /// The bit rate in kbit/s selected first.
    pub default_bit_rate: u32,
    /// The sample rate in Hz selected first.
    pub default_sample_rate: u32,
    /// The number of channels selected first.
    pub default_channels: u32,
    /// How many conversions may run at once.
    pub default_max_instances: u32,
}

/// A stored number cut to 32 bits (as `as u32` does), or the default.
pub open spec fn u32_or(v: Option<u64>, default: u32) -> u32 {
    match v {
        Some(x) => (x % 0x1_0000_0000) as u32,
        None => default,
    }
}

/// A stored text, or the default.
pub open spec fn text_or(v: Option<Seq<char>>, default: Seq<char>) -> Seq<char> {
    match v {
        Some(t) => t,
        None => default,
    }
}

/// The text of an optional string.
pub open spec fn opt_string_text(v: Option<String>) -> Option<Seq<char>> {
    match v {
        Some(s) => Some(s@),
        None => None,
    }
}

impl Settings {
    /// The settings have the stored values, and where a value is missing
    /// the default: an empty folder, `aac`, 48 kbit/s, 22050 Hz, one
    /// channel, four conversions at once.
    pub open spec fn has_fields(
        &self,
        path: Option<Seq<char>>,
        format: Option<Seq<char>>,
        bit_rate: Option<u64>,
        sample_rate: Option<u64>,
        channels: Option<u64>,
        max_instances: Option<u64>,
    ) -> bool {
        &&& self.default_path@ == text_or(path, Seq::<char>::empty())
        &&& self.default_selected_format@ == text_or(format, "aac"@)
        &&& self.default_bit_rate == u32_or(bit_rate, 48)
        &&& self.default_sample_rate == u32_or(sample_rate, 22050)
        &&& self.default_channels == u32_or(channels, 1)
        &&& self.default_max_instances == u32_or(max_instances, 4)
    }

    /// Settings from the stored values, with the defaults where one is missing.
    pub fn from_fields(
        path: Option<String>,
        format: Option<String>,
        bit_rate: Option<u64>,
        sample_rate: Option<u64>,
        channels: Option<u64>,
        max_instances: Option<u64>,
    ) -> (s: Settings)
        ensures
            s.has_fields(
                opt_string_text(path),
                opt_string_text(format),
                bit_rate,
                sample_rate,
                channels,
                max_instances,
            ),
    {
        Settings {
            default_path: match path {
                Some(p) => p,
                None => String::new(),
            },
            default_selected_format: match format {
                Some(f) => f,
                None => owned("aac"),
            },
            default_bit_rate: u32_value_or(bit_rate, 48),
            default_sample_rate: u32_value_or(sample_rate, 22050),
            default_channels: u32_value_or(channels, 1),
            default_max_instances: u32_value_or(max_instances, 4),
        }
    }

    /// Settings from the text of the settings file (a JSON object), with
    /// the defaults for the members that are missing or not of the right
    /// kind, and for all of them when the text is no JSON object; an empty
    /// text (no settings file) gives all the defaults.
    pub fn from_json(text: &str) -> (s: Settings)
        ensures
            text@.len() == 0 ==> s.has_fields(None, None, None, None, None, None),
            s.has_fields(
                json_member_text(text@, "default_path"@),
                json_member_text(text@, "default_selected_format"@),
                json_member_u64(text@, "default_bit_rate"@),
                json_member_u64(text@, "default_sample_rate"@),
                json_member_u64(text@, "default_channels"@),
                json_member_u64(text@, "default_max_instances"@),
            ),
    {
        let path = member_text(text, "default_path");
        let format = member_text(text, "default_selected_format");
        let bit_rate = member_u64(text, "default_bit_rate");
        let sample_rate = member_u64(text, "default_sample_rate");
        let channels = member_u64(text, "default_channels");
        let max_instances = member_u64(text, "default_max_instances");
        proof {
            assert(opt_string_text(path) == json_member_text(text@, "default_path"@));
            assert(opt_string_text(format) == json_member_text(text@, "default_selected_format"@));
        }
        Settings::from_fields(path, format, bit_rate, sample_rate, channels, max_instances)
    }
}

fn u32_value_or(v: Option<u64>, default: u32) -> (r: u32)
    ensures
        r == u32_or(v, default),
{
    match v {
        Some(x) => (x % 0x1_0000_0000) as u32,
        None => default,
    }
}

} // verus!
