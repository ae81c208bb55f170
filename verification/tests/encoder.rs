use kourain_media::encoder::{create_audio_encoder, create_audio_encoder_args, ffmpeg_convert_args};

#[test]
fn encoder_names() {
    assert_eq!(create_audio_encoder("opus"), "libopus");
    assert_eq!(create_audio_encoder("vorbis"), "libvorbis");
    assert_eq!(create_audio_encoder("ogg"), "libvorbis");
    assert_eq!(create_audio_encoder("mp3"), "libmp3lame");
    assert_eq!(create_audio_encoder("aac"), "aac");
    assert_eq!(create_audio_encoder("flac"), "flac");
    assert_eq!(create_audio_encoder("wav"), "pcm_s16le");
    assert_eq!(create_audio_encoder("speex"), "libspeex");
    assert_eq!(create_audio_encoder(""), "lib");
}

#[test]
fn encoder_args_per_type() {
    assert_eq!(
        create_audio_encoder_args("opus", 32),
        vec!["-c:a", "libopus", "-b:a", "32k", "-vbr", "on", "-compression_level", "0", "-application", "voip"]
    );
    assert_eq!(create_audio_encoder_args("flac", 320), vec!["-c:a", "flac", "-compression_level", "0"]);
    assert_eq!(create_audio_encoder_args("wav", 320), vec!["-c:a", "pcm_s16le"]);
    assert_eq!(create_audio_encoder_args("mp3", 128), vec!["-c:a", "libmp3lame", "-b:a", "128k"]);
    assert_eq!(create_audio_encoder_args("aac", 0), vec!["-c:a", "aac", "-b:a", "0k"]);
    assert_eq!(create_audio_encoder_args("ogg", 4294967295), vec!["-c:a", "libvorbis", "-b:a", "4294967295k"]);
}

#[test]
fn convert_command_line() {
    assert_eq!(
        ffmpeg_convert_args("in.wav", "mp3", 48, "out/mp3/in.mp3"),
        vec![
            "-i", "in.wav", "-ac", "1", "-c:a", "libmp3lame", "-b:a", "48k", "-progress", "pipe:1",
            "out/mp3/in.mp3", "-y"
        ]
    );
}
