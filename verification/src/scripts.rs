//! Texts handed to the system: AppleScript snippets for notifications and the
//! clipboard, menu labels, thumbnail decisions and helper locations.
use vstd::prelude::*;
use crate::config::{home_or_empty, join_str, opt_view};
use crate::paths::join_path;
use crate::text::{append_chars, chars_equal, chars_of, lowercase, string_of, to_lowercase};

verus! {

/// Side of the square thumbnails shown in the menu, in pixels.
pub const THUMBNAIL_SIZE: u32 = 18;

/// What `image` decodes from the bytes of a file whose extension is `ext`,
/// as width, height and RGBA pixels; `None` when the extension names no
/// format or the bytes do not decode.
pub uninterp spec fn decoded_rgba(bytes: Seq<u8>, ext: Seq<char>) -> Option<(u32, u32, Seq<u8>)>;

/// What `image::imageops::resize` with the Lanczos3 filter makes of RGBA
/// pixels of one size at another.
pub uninterp spec fn lanczos_resized(
    width: u32,
    height: u32,
    rgba: Seq<u8>,
    new_width: u32,
    new_height: u32,
) -> Seq<u8>;

/// A decoded image: its size and its RGBA pixels.
pub struct DecodedImage {
    pub width: u32,
    pub height: u32,
    pub rgba: Vec<u8>,
}

/// `image::load_from_memory_with_format` for the format
/// `ImageFormat::from_extension(ext)` names (as `image::open` picks it from a
/// path), converted to RGBA with `into_rgba8`. The result is what `image`
/// decodes, named by `decoded_rgba`; nothing more is claimed of it.
#[verifier::external_body]
fn decode_rgba(bytes: &[u8], ext: &str) -> (r: Option<DecodedImage>)
    ensures
        match r {
            Some(d) => decoded_rgba(bytes@, ext@) == Some((d.width, d.height, d.rgba@)),
            None => decoded_rgba(bytes@, ext@) is None,
        },
{
    let format = image::ImageFormat::from_extension(ext)?;
    let img = image::load_from_memory_with_format(bytes, format).ok()?.into_rgba8();
    Some(DecodedImage { width: img.width(), height: img.height(), rgba: img.into_raw() })
}

/// `image::imageops::resize` with `FilterType::Lanczos3` on an RGBA image of
/// `width` by `height` pixels. The source builds the result as a new image of
/// the new size, so it holds exactly that many pixels; the pixels themselves
/// are the filter's, named by `lanczos_resized`.
#[verifier::external_body]
fn resize_rgba(width: u32, height: u32, rgba: Vec<u8>, new_width: u32, new_height: u32) -> (r: Vec<
    u8,
>)
    requires
        rgba@.len() == width * height * 4,
        new_width * new_height * 4 <= usize::MAX,
    ensures
        r@ == lanczos_resized(width, height, rgba@, new_width, new_height),
        r@.len() == new_width * new_height * 4,
{
    let img = image::RgbaImage::from_raw(width, height, rgba).expect("the buffer holds every pixel");
    image::imageops::resize(&img, new_width, new_height, image::imageops::FilterType::Lanczos3)
        .into_raw()
}

/// The menu thumbnail of an RGBA image of `width` by `height` pixels: the
/// image resized to 18 by 18 with the Lanczos3 filter; `None` when the
/// pixels do not fill that size.
pub fn thumbnail_rgba(width: u32, height: u32, rgba: Vec<u8>) -> (r: Option<Vec<u8>>)
    ensures
        r is Some <==> rgba@.len() == width * height * 4,
        r matches Some(t) ==> t@ == lanczos_resized(
            width,
            height,
            rgba@,
            THUMBNAIL_SIZE,
            THUMBNAIL_SIZE,
        ) && t@.len() == THUMBNAIL_SIZE * THUMBNAIL_SIZE * 4,
{
    assert((width as u128) * (height as u128) <= 0xffff_ffff * 0xffff_ffff) by (nonlinear_arith);
    let needed: u128 = (width as u128) * (height as u128) * 4;
    if rgba.len() as u128 != needed {
        return None;
    }
    Some(resize_rgba(width, height, rgba, THUMBNAIL_SIZE, THUMBNAIL_SIZE))
}

/// The menu thumbnail of an encoded image file with extension `ext`:
/// decoded, then resized to 18 by 18; `None` when it does not decode.
pub fn thumbnail_from_bytes(bytes: &[u8], ext: &str) -> (r: Option<Vec<u8>>)
    ensures
        match decoded_rgba(bytes@, ext@) {
            Some((w, h, px)) => if px.len() == w * h * 4 {
                r matches Some(t) && t@ == lanczos_resized(w, h, px, THUMBNAIL_SIZE, THUMBNAIL_SIZE)
            } else {
                r is None
            },
            None => r is None,
        },
{
    match decode_rgba(bytes, ext) {
        Some(d) => thumbnail_rgba(d.width, d.height, d.rgba),
        None => None,
    }
}

/// `a`, `b` and `c` one after the other.
pub fn concat3(a: &str, b: &str, c: &str) -> (r: String)
    ensures
        r@ == a@ + b@ + c@,
{
    let mut v = chars_of(a);
    append_chars(&mut v, &chars_of(b));
    append_chars(&mut v, &chars_of(c));
    string_of(&v)
}

/// AppleScript that puts the file at `path` (not its path) on the clipboard.
pub fn clipboard_script(path: &str) -> (r: String)
    ensures
        r@ == "use framework \"AppKit\"\nset pb to current application's NSPasteboard's generalPasteboard()\npb's clearContents()\nset fileURL to current application's NSURL's fileURLWithPath:\""@
            + path@ + "\"\npb's writeObjects:{fileURL}"@,
{
    concat3(
        "use framework \"AppKit\"\nset pb to current application's NSPasteboard's generalPasteboard()\npb's clearContents()\nset fileURL to current application's NSURL's fileURLWithPath:\"",
        path,
        "\"\npb's writeObjects:{fileURL}",
    )
}

/// AppleScript for the notification shown when `file_name` was saved.
pub fn saved_notification_script(file_name: &str) -> (r: String)
    ensures
        r@ == "display notification \"Saved: "@ + file_name@
            + "\" with title \"Captura\" sound name \"default\""@,
{
    concat3(
        "display notification \"Saved: ",
        file_name,
        "\" with title \"Captura\" sound name \"default\"",
    )
}

/// AppleScript for the notification shown when a recent capture was copied.
pub fn copied_notification_script(file_name: &str) -> (r: String)
    ensures
        r@ == "display notification \"Path copied: "@ + file_name@ + "\" with title \"Captura\""@,
{
    concat3("display notification \"Path copied: ", file_name, "\" with title \"Captura\"")
}

/// AppleScript for the alert shown when the settings file cannot be read;
/// `error_text` describes the problem.
pub fn config_error_alert_script(error_text: &str) -> (r: String)
    ensures
        r@ == "display alert \"Captura Configuration Error\" message \"Config error: "@
            + error_text@ + "\" as critical"@,
{
    concat3(
        "display alert \"Captura Configuration Error\" message \"Config error: ",
        error_text,
        "\" as critical",
    )
}

/// The label of a recent-captures menu item for `file_name`.
pub fn recent_item_label(file_name: &str) -> (r: String)
    ensures
        r@ == "  Copy: "@ + file_name@,
{
    proof {
        reveal_strlit("");
    }
    let r = concat3("  Copy: ", file_name, "");
    assert(r@ =~= "  Copy: "@ + file_name@);
    r
}

/// How a thumbnail is made for a capture.
#[derive(Debug, Clone, Copy, PartialEq, Eq)]
pub enum ThumbnailKind {
    /// The file is an image and is loaded directly.
    Image,
    /// The file is a video; a frame is extracted first.
    Video,
}

/// The thumbnail kind for a lowercased file extension.
pub open spec fn thumbnail_kind_of(ext: Seq<char>) -> Option<ThumbnailKind> {
    if ext == "png"@ || ext == "jpg"@ || ext == "jpeg"@ || ext == "bmp"@ || ext == "gif"@ || ext
        == "tiff"@ || ext == "webp"@ {
        Some(ThumbnailKind::Image)
    } else if ext == "mp4"@ || ext == "mov"@ || ext == "mkv"@ {
        Some(ThumbnailKind::Video)
    } else {
        None
    }
}

fn is(v: &Vec<char>, w: &str) -> (b: bool)
    ensures
        b == (v@ == w@),
{
    chars_equal(v, &chars_of(w))
}

/// How to make a thumbnail for a file with extension `ext` (compared without
/// regard to case); `None` when no thumbnail is made.
pub fn thumbnail_kind(ext: &str) -> (r: Option<ThumbnailKind>)
    ensures
        r == thumbnail_kind_of(lowercase(ext@)),
{
    let lower = to_lowercase(ext);
    let e = chars_of(lower.as_str());
    if is(&e, "png") || is(&e, "jpg") || is(&e, "jpeg") || is(&e, "bmp") || is(&e, "gif") || is(
        &e,
        "tiff",
    ) || is(&e, "webp") {
        Some(ThumbnailKind::Image)
    } else if is(&e, "mp4") || is(&e, "mov") || is(&e, "mkv") {
        Some(ThumbnailKind::Video)
    } else {
        None
    }
}

/// Arguments for `ffmpeg` extracting one frame of `video`, scaled to 36
/// pixels wide, into `image`.
pub fn thumbnail_frame_args(video: &str, image: &str) -> (r: Vec<String>)
    ensures
        r@.map_values(|s: String| s@) == seq![
            "-y"@,
            "-i"@,
            video@,
            "-vframes"@,
            "1"@,
            "-vf"@,
            "scale=36:-1"@,
            image@,
        ],
{
    let mut args: Vec<String> = Vec::new();
    args.push(String::from_str("-y"));
    args.push(String::from_str("-i"));
    args.push(String::from_str(video));
    args.push(String::from_str("-vframes"));
    args.push(String::from_str("1"));
    args.push(String::from_str("-vf"));
    args.push(String::from_str("scale=36:-1"));
    args.push(String::from_str(image));
    assert(args@.map_values(|s: String| s@) =~= seq![
        "-y"@,
        "-i"@,
        video@,
        "-vframes"@,
        "1"@,
        "-vf"@,
        "scale=36:-1"@,
        image@,
    ]);
    args
}

/// Where a helper program is looked for, in order: in the folder of the
/// running executable when that is known (`exe_dir`), then in `helpers/`.
pub fn helper_candidates(exe_dir: Option<String>, name: &str) -> (r: Vec<String>)
    ensures
        r@.map_values(|s: String| s@) == (match opt_view(exe_dir) {
            Some(d) => seq![join_path(d, name@), "helpers/"@ + name@],
            None => seq!["helpers/"@ + name@],
        }),
{
    let mut out: Vec<String> = Vec::new();
    let ghost dir = opt_view(exe_dir);
    match exe_dir {
        Some(d) => {
            out.push(join_str(&d, name));
        },
        None => {},
    }
    proof {
        reveal_strlit("");
    }
    let second = concat3("helpers/", name, "");
    assert(second@ =~= "helpers/"@ + name@);
    out.push(second);
    assert(out@.map_values(|s: String| s@) =~= (match dir {
        Some(d) => seq![join_path(d, name@), "helpers/"@ + name@],
        None => seq!["helpers/"@ + name@],
    }));
    out
}

} // verus!
