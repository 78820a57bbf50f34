use captura::encoder::{
    bgra_to_rgba, ffmpeg_args, gif_fps, gif_frame_delay, gif_frame_parts, EncoderError, VideoFormat,
};

#[test]
fn format_extensions() {
    assert_eq!(VideoFormat::Mp4.extension(), "mp4");
    assert_eq!(VideoFormat::Mov.extension(), "mov");
    assert_eq!(VideoFormat::Gif.extension(), "gif");
}

#[test]
fn bgra_becomes_rgba() {
    assert_eq!(bgra_to_rgba(&vec![1, 2, 3, 4, 5, 6, 7, 8]), vec![3, 2, 1, 4, 7, 6, 5, 8]);
    assert_eq!(bgra_to_rgba(&vec![1, 2, 3, 4, 5, 6]), vec![3, 2, 1, 4]);
    assert_eq!(bgra_to_rgba(&vec![]), Vec::<u8>::new());
}

#[test]
fn gif_timing() {
    assert_eq!(gif_fps(30), 15);
    assert_eq!(gif_fps(10), 10);
    assert_eq!(gif_frame_delay(30), 6);
    assert_eq!(gif_frame_delay(15), 6);
    assert_eq!(gif_frame_delay(10), 10);
    assert_eq!(gif_frame_delay(3), 33);
    assert_eq!(gif_frame_delay(1), 100);
    assert_eq!(gif_frame_delay(0), u16::MAX);
    for fps in 1..=15u32 {
        assert_eq!(gif_frame_delay(fps), (100.0 / fps as f64) as u16);
    }
}

#[test]
fn ffmpeg_arguments() {
    let args = ffmpeg_args(1920, 1080, 30, "/tmp/out.mp4");
    let expected = [
        "-y", "-f", "rawvideo", "-pix_fmt", "bgra", "-s", "1920x1080", "-r", "30", "-i", "pipe:0",
        "-c:v", "libx264", "-preset", "ultrafast", "-pix_fmt", "yuv420p", "-movflags",
        "+faststart", "/tmp/out.mp4",
    ];
    assert_eq!(args, expected);
}

#[test]
fn gif_frame_matches_gif_quantizer() {
    let bgra: Vec<u8> = (0..(3 * 2 * 4)).map(|i| (i * 41 % 256) as u8).collect();
    let parts = gif_frame_parts(&bgra, 3, 2, 30).unwrap();
    let mut rgba = bgra_to_rgba(&bgra);
    let frame = gif::Frame::from_rgba_speed(3, 2, &mut rgba, 10);
    assert_eq!(parts.width, 3);
    assert_eq!(parts.height, 2);
    assert_eq!(parts.delay, 6);
    assert_eq!(parts.indices, frame.buffer.into_owned());
    assert_eq!(parts.palette, frame.palette);
    assert_eq!(parts.transparent, frame.transparent);
    assert_eq!(parts.indices.len(), 6);
}

#[test]
fn gif_frame_refuses_wrong_sizes() {
    let err = Err(EncoderError::EncodingError("frame size does not match the recording size".to_string()));
    assert_eq!(gif_frame_parts(&vec![0; 15], 2, 2, 10), err);
    assert_eq!(gif_frame_parts(&vec![0; 17], 2, 2, 10), err);
    assert_eq!(gif_frame_parts(&vec![], 70_000, 0, 10), err);
    assert!(gif_frame_parts(&vec![0; 16], 2, 2, 0).is_ok());
}
