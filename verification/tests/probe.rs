use kourain_media::encoder::ffprobe_bit_rate_args;
use kourain_media::probe::{bit_rate_from_ffprobe_stdout, bit_rate_from_ffprobe_text};

#[test]
fn probe_reads_bit_rate_in_kilobits() {
    assert_eq!(bit_rate_from_ffprobe_text("128000\n"), Some(128));
    assert_eq!(bit_rate_from_ffprobe_text("  320999 \r\n"), Some(320));
    assert_eq!(bit_rate_from_ffprobe_text("+999"), Some(0));
    assert_eq!(bit_rate_from_ffprobe_text("\u{3000}64000\u{a0}"), Some(64));
}

#[test]
fn probe_rejects_missing_values() {
    assert_eq!(bit_rate_from_ffprobe_text(""), None);
    assert_eq!(bit_rate_from_ffprobe_text(" \n"), None);
    assert_eq!(bit_rate_from_ffprobe_text("N/A\n"), None);
    assert_eq!(bit_rate_from_ffprobe_text("-1"), None);
    assert_eq!(bit_rate_from_ffprobe_text("+"), None);
    assert_eq!(bit_rate_from_ffprobe_text("12 34"), None);
    assert_eq!(bit_rate_from_ffprobe_text("18446744073709551616"), None);
}

#[test]
fn probe_cuts_to_32_bits() {
    assert_eq!(bit_rate_from_ffprobe_text("18446744073709551615"), Some(((18446744073709551615u64 / 1000) as u32)));
    assert_eq!(bit_rate_from_ffprobe_text("4294967296000"), Some(0));
}

#[test]
fn probe_stdout_bytes() {
    assert_eq!(bit_rate_from_ffprobe_stdout(b"192000\n"), Some(192));
    assert_eq!(bit_rate_from_ffprobe_stdout(&[0xff, b'1', b'2']), None);
    assert_eq!(bit_rate_from_ffprobe_stdout(&[0xe3, 0x80, 0x80, b'5', b'0', b'0', b'0']), Some(5));
}

#[test]
fn probe_command_line() {
    let args = ffprobe_bit_rate_args("a b.mp3");
    assert_eq!(
        args,
        vec![
            "-v",
            "quiet",
            "-select_streams",
            "a:0",
            "-show_entries",
            "stream=bit_rate",
            "-of",
            "default=noprint_wrappers=1:nokey=1",
            "a b.mp3"
        ]
    );
}
