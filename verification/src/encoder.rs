//! Video encoding settings: output formats, the pixel conversion applied to
//! GIF frames, GIF frame timing, and the arguments handed to `ffmpeg`.
use vstd::prelude::*;
use crate::capture::{decimal_string, owned};
use crate::text::{decimal, push_decimal, string_of};

verus! {

/// Why encoding failed.
#[derive(Debug, PartialEq, Eq)]
pub enum EncoderError {
    Io(String),
    InitFailed(String),
    QueueFull(usize),
    EncodingError(String),
    AlreadyFinished,
}

/// Container format of a recording.
#[derive(Debug, Clone, Copy, PartialEq, Eq)]
pub enum VideoFormat {
    Mp4,
    Mov,
    Gif,
}

impl VideoFormat {
    pub open spec fn extension_spec(self) -> Seq<char> {
        match self {
            VideoFormat::Mp4 => "mp4"@,
            VideoFormat::Mov => "mov"@,
            VideoFormat::Gif => "gif"@,
        }
    }

    pub fn extension(&self) -> (r: &'static str)
        ensures
            r@ == self.extension_spec(),
    {
        match self {
            VideoFormat::Mp4 => "mp4",
            VideoFormat::Mov => "mov",
            VideoFormat::Gif => "gif",
        }
    }
}

/// What an encoder writes and how.
#[derive(Debug)]
pub struct EncoderConfig {
    pub output_path: String,
    pub fps: u32,
    pub bitrate_kbps: u32,
    pub width: u32,
    pub height: u32,
    pub format: VideoFormat,
}

/// Most frames that may wait in an encoder's queue.
pub const MAX_QUEUE_SIZE: usize = 120;

/// Highest frame rate a GIF is written at.
pub const GIF_MAX_FPS: u32 = 15;

/// The frame rate a GIF is written at: the requested one, capped at 15.
pub open spec fn gif_fps_spec(fps: u32) -> u32 {
    if fps <= GIF_MAX_FPS {
        fps
    } else {
        GIF_MAX_FPS
    }
}

/// Delay between GIF frames in centiseconds: `100 / fps` rounded down, and
/// the largest delay a GIF frame can hold when the rate is zero.
pub open spec fn gif_delay_spec(fps: u32) -> u16 {
    let capped = gif_fps_spec(fps);
    if capped == 0 {
        u16::MAX
    } else {
        (100u32 / capped) as u16
    }
}

pub fn gif_fps(fps: u32) -> (r: u32)
    ensures
        r == gif_fps_spec(fps),
{
    if fps <= GIF_MAX_FPS {
        fps
    } else {
        GIF_MAX_FPS
    }
}

pub fn gif_frame_delay(fps: u32) -> (d: u16)
    ensures
        d == gif_delay_spec(fps),
{
    let capped = gif_fps(fps);
    if capped == 0 {
        u16::MAX
    } else {
        (100u32 / capped) as u16
    }
}

/// BGRA pixels reordered to RGBA; a trailing partial pixel is dropped.
pub open spec fn bgra_to_rgba_spec(data: Seq<u8>) -> Seq<u8> {
    Seq::new(
        (data.len() / 4 * 4) as nat,
        |i: int|
            {
                let p = i / 4 * 4;
                let c = i % 4;
                if c == 0 {
                    data[p + 2]
                } else if c == 2 {
                    data[p]
                } else {
                    data[i]
                }
            },
    )
}

/// Reorders BGRA pixels into RGBA, as GIF frames expect.
pub fn bgra_to_rgba(data: &Vec<u8>) -> (out: Vec<u8>)
    ensures
        out@ == bgra_to_rgba_spec(data@),
{
    let n = data.len() / 4;
    let mut out: Vec<u8> = Vec::new();
    let mut k: usize = 0;
    while k < n
        invariant
            k <= n,
            n == data.len() / 4,
            out@.len() == 4 * k,
            forall|i: int| 0 <= i < 4 * k ==> #[trigger] out@[i] == bgra_to_rgba_spec(data@)[i],
        decreases n - k,
    {
        let p = 4 * k;
        out.push(data[p + 2]);
        out.push(data[p + 1]);
        out.push(data[p]);
        out.push(data[p + 3]);
        assert forall|i: int| 0 <= i < 4 * (k + 1) implies #[trigger] out@[i] == bgra_to_rgba_spec(
            data@,
        )[i] by {
            if i >= 4 * k {
                assert(i / 4 == k);
            }
        }
        k = k + 1;
    }
    assert(out@ =~= bgra_to_rgba_spec(data@));
    out
}

/// The arguments for `ffmpeg` reading raw BGRA frames of `width` x `height`
/// at `fps` from its standard input and writing H.264 to `output_path`.
pub open spec fn ffmpeg_args_spec(width: u32, height: u32, fps: u32, output_path: Seq<char>) -> Seq<
    Seq<char>,
> {
    seq![
        "-y"@,
        "-f"@,
        "rawvideo"@,
        "-pix_fmt"@,
        "bgra"@,
        "-s"@,
        decimal(width as nat) + seq!['x'] + decimal(height as nat),
        "-r"@,
        decimal(fps as nat),
        "-i"@,
        "pipe:0"@,
        "-c:v"@,
        "libx264"@,
        "-preset"@,
        "ultrafast"@,
        "-pix_fmt"@,
        "yuv420p"@,
        "-movflags"@,
        "+faststart"@,
        output_path,
    ]
}

pub fn ffmpeg_args(width: u32, height: u32, fps: u32, output_path: &str) -> (r: Vec<String>)
    ensures
        r@.map_values(|s: String| s@) == ffmpeg_args_spec(width, height, fps, output_path@),
{
    let mut size: Vec<char> = Vec::new();
    push_decimal(width as u64, &mut size);
    size.push('x');
    push_decimal(height as u64, &mut size);
    assert(size@ =~= decimal(width as nat) + seq!['x'] + decimal(height as nat));
    let mut args: Vec<String> = Vec::new();
    args.push(owned("-y"));
    args.push(owned("-f"));
    args.push(owned("rawvideo"));
    args.push(owned("-pix_fmt"));
    args.push(owned("bgra"));
    args.push(owned("-s"));
    args.push(string_of(&size));
    args.push(owned("-r"));
    args.push(decimal_string(fps as u64));
    args.push(owned("-i"));
    args.push(owned("pipe:0"));
    args.push(owned("-c:v"));
    args.push(owned("libx264"));
    args.push(owned("-preset"));
    args.push(owned("ultrafast"));
    args.push(owned("-pix_fmt"));
    args.push(owned("yuv420p"));
    args.push(owned("-movflags"));
    args.push(owned("+faststart"));
    args.push(owned(output_path));
    assert(args@.map_values(|s: String| s@) =~= ffmpeg_args_spec(width, height, fps, output_path@));
    args
}

/// Bytes of an optional buffer, by view.
pub open spec fn opt_bytes(o: Option<Vec<u8>>) -> Option<Seq<u8>> {
    match o {
        Some(v) => Some(v@),
        None => None,
    }
}

/// What `gif::Frame::from_rgba_speed` makes of RGBA pixels of the given
/// size at the given quantizer speed: the palette index of each pixel, the
/// palette, and the index standing for transparency.
pub uninterp spec fn gif_quantized(width: u16, height: u16, rgba: Seq<u8>, speed: i32) -> (
    Seq<u8>,
    Option<Seq<u8>>,
    Option<u8>,
);

/// Quantizer speed GIF frames are made with (1 is slowest and best, 30 fastest).
pub const GIF_QUANTIZE_SPEED: i32 = 10;

/// `gif::Frame::from_rgba_speed`: quantizes RGBA pixels into GIF palette
/// indices. Its source gives one index per pixel and always a palette; the
/// indices, palette and transparent index themselves are the quantizer's
/// (named by `gif_quantized`). It panics unless the pixels fill exactly
/// `width * height` and `speed` is within 1 to 30, which `requires` rules out.
#[verifier::external_body]
fn quantize_gif_frame(width: u16, height: u16, rgba: Vec<u8>, speed: i32) -> (r: (
    Vec<u8>,
    Option<Vec<u8>>,
    Option<u8>,
))
    requires
        rgba@.len() == width * height * 4,
        1 <= speed <= 30,
    ensures
        (r.0@, opt_bytes(r.1), r.2) == gif_quantized(width, height, rgba@, speed),
        r.0@.len() == width * height,
        r.1 is Some,
{
    let mut pixels = rgba;
    let frame = gif::Frame::from_rgba_speed(width, height, &mut pixels, speed);
    (frame.buffer.into_owned(), frame.palette, frame.transparent)
}

/// A GIF frame ready to be written: its size, palette indices, palette,
/// transparent index and delay.
#[derive(Debug, PartialEq, Eq)]
pub struct GifFrameParts {
    pub width: u16,
    pub height: u16,
    pub indices: Vec<u8>,
    pub palette: Option<Vec<u8>>,
    pub transparent: Option<u8>,
    pub delay: u16,
}

/// Whether BGRA data fits a GIF frame of the recording size.
pub open spec fn gif_frame_fits(len: nat, width: u32, height: u32) -> bool {
    width <= u16::MAX && height <= u16::MAX && len == width * height * 4
}

/// Turns one captured BGRA frame of a `width` by `height` recording into a
/// GIF frame: converted to RGBA, quantized, and delayed for `fps`. A frame
/// whose data does not fill the recording size, or a size a GIF cannot hold,
/// is refused.
pub fn gif_frame_parts(bgra: &Vec<u8>, width: u32, height: u32, fps: u32) -> (r: Result<
    GifFrameParts,
    EncoderError,
>)
    ensures
        match r {
            Ok(p) => gif_frame_fits(bgra@.len(), width, height) && p.width == width && p.height
                == height && p.delay == gif_delay_spec(fps) && (
            p.indices@,
            opt_bytes(p.palette),
            p.transparent,
            ) == gif_quantized(
                width as u16,
                height as u16,
                bgra_to_rgba_spec(bgra@),
                GIF_QUANTIZE_SPEED,
            ) && p.indices@.len() == width * height,
            Err(EncoderError::EncodingError(m)) => !gif_frame_fits(bgra@.len(), width, height) && m@
                == "frame size does not match the recording size"@,
            Err(_) => false,
        },
{
    if width > 65535 || height > 65535 {
        return Err(EncoderError::EncodingError(owned("frame size does not match the recording size")));
    }
    assert((width as u64) * (height as u64) <= 65535 * 65535) by (nonlinear_arith)
        requires
            width <= 65535,
            height <= 65535,
    ;
    let expected: u64 = (width as u64) * (height as u64) * 4;
    if bgra.len() as u64 != expected {
        return Err(EncoderError::EncodingError(owned("frame size does not match the recording size")));
    }
    let rgba = bgra_to_rgba(bgra);
    let ghost n = bgra@.len();
    assert(n / 4 * 4 == n) by (nonlinear_arith)
        requires
            n == (width as int) * (height as int) * 4,
    ;
    let w = width as u16;
    let h = height as u16;
    let (indices, palette, transparent) = quantize_gif_frame(w, h, rgba, GIF_QUANTIZE_SPEED);
    Ok(GifFrameParts { width: w, height: h, indices, palette, transparent, delay: gif_frame_delay(fps) })
}

} // verus!
