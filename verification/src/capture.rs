//! Screen capture: which display and region to capture, how a captured image
//! is repacked into tightly packed BGRA rows, and the arguments handed to the
//! system `screencapture` tool.
use vstd::prelude::*;
use crate::text::{decimal, push_decimal, string_of};

verus! {

/// Why a capture could not be made.
#[derive(Debug, PartialEq, Eq)]
pub enum CaptureError {
    DisplayNotFound(usize),
    CaptureFailed(String),
    PermissionDenied,
    StreamError(String),
}

/// A raw captured frame.
#[derive(Debug)]
pub struct Frame {
    /// Raw BGRA pixel data, row-major.
    pub data: Vec<u8>,
    pub width: u32,
    pub height: u32,
    /// Monotonic capture timestamp in nanoseconds.
    pub timestamp_ns: u64,
}

/// Describes the region to capture.
#[derive(Debug, Clone, Copy, PartialEq, Eq)]
pub enum CaptureRegion {
    /// Capture an entire display by index.
    Display(usize),
    /// Capture a specific pixel rectangle on a display.
    Rect { display: usize, x: u32, y: u32, width: u32, height: u32 },
}

impl CaptureRegion {
    /// The display the region lies on.
    pub open spec fn display_of(self) -> usize {
        match self {
            CaptureRegion::Display(i) => i,
            CaptureRegion::Rect { display, .. } => display,
        }
    }

    pub fn display_index(&self) -> (i: usize)
        ensures
            i == self.display_of(),
    {
        match self {
            CaptureRegion::Display(i) => *i,
            CaptureRegion::Rect { display, .. } => *display,
        }
    }
}

/// A capture source: a region and whether the cursor is drawn.
#[derive(Debug, Clone, Copy, PartialEq, Eq)]
pub struct Capturer {
    region: CaptureRegion,
    include_cursor: bool,
}

/// Width and height of a requested rectangle, clipped so that it does not
/// extend past `max_w` x `max_h` from its origin.
pub open spec fn clipped_size(x: u32, y: u32, width: u32, height: u32, max_w: u32, max_h: u32) -> (
    u32,
    u32,
) {
    let room_w = if max_w >= x {
        (max_w - x) as u32
    } else {
        0u32
    };
    let room_h = if max_h >= y {
        (max_h - y) as u32
    } else {
        0u32
    };
    (if width <= room_w {
        width
    } else {
        room_w
    }, if height <= room_h {
        height
    } else {
        room_h
    })
}

impl Capturer {
    pub closed spec fn region_spec(self) -> CaptureRegion {
        self.region
    }

    pub closed spec fn cursor_spec(self) -> bool {
        self.include_cursor
    }

    /// A capturer for `region`, given how many displays are active; fails
    /// when the region's display does not exist.
    pub fn new(region: CaptureRegion, include_cursor: bool, display_count: usize) -> (r: Result<
        Self,
        CaptureError,
    >)
        ensures
            match r {
                Ok(c) => region.display_of() < display_count && c.region_spec() == region
                    && c.cursor_spec() == include_cursor,
                Err(e) => region.display_of() >= display_count && e == CaptureError::DisplayNotFound(
                    region.display_of(),
                ),
            },
    {
        let display_index = region.display_index();
        if display_index >= display_count {
            return Err(CaptureError::DisplayNotFound(display_index));
        }
        Ok(Capturer { region, include_cursor })
    }

    pub fn region(&self) -> (r: CaptureRegion)
        ensures
            r == self.region_spec(),
    {
        self.region
    }

    pub fn include_cursor(&self) -> (b: bool)
        ensures
            b == self.cursor_spec(),
    {
        self.include_cursor
    }

    /// The size to grab for a rectangle region on a display whose bounds are
    /// `max_w` x `max_h` pixels; `None` for a whole display, which is grabbed
    /// at its full bounds.
    pub fn clipped_rect_size(&self, max_w: u32, max_h: u32) -> (r: Option<(u32, u32)>)
        ensures
            match self.region_spec() {
                CaptureRegion::Display(_) => r is None,
                CaptureRegion::Rect { x, y, width, height, .. } => r == Some(
                    clipped_size(x, y, width, height, max_w, max_h),
                ),
            },
    {
        match self.region {
            CaptureRegion::Display(_) => None,
            CaptureRegion::Rect { x, y, width, height, .. } => {
                let room_w = max_w.saturating_sub(x);
                let room_h = max_h.saturating_sub(y);
                Some((width.min(room_w), height.min(room_h)))
            },
        }
    }

    /// The frame for an image grabbed from this capturer's display: each
    /// row's `4 * width` pixel bytes are kept (rows are `bytes_per_row` apart
    /// in the grabbed buffer; rows that do not fit in it are skipped). When
    /// the platform returned no image, capture fails.
    pub fn capture_frame(&self, grabbed: Option<GrabbedImage>, timestamp_ns: u64) -> (r: Result<
        Frame,
        CaptureError,
    >)
        requires
            grabbed matches Some(img) ==> row_offsets_fit(img.width, img.height, img.bytes_per_row)
                && img.width * img.height * 4 <= u32::MAX,
        ensures
            match grabbed {
                Some(img) => r matches Ok(f) && f.data@ == packed_rows(
                    img.data@,
                    img.width as nat,
                    img.height as nat,
                    img.bytes_per_row as nat,
                ) && f.width == img.width && f.height == img.height && f.timestamp_ns
                    == timestamp_ns,
                None => r matches Err(CaptureError::CaptureFailed(m)) && m@
                    == "CGWindowListCreateImage returned null"@,
            },
    {
        match grabbed {
            Some(img) => Ok(
                Frame {
                    data: pack_rows(img.data.as_slice(), img.width, img.height, img.bytes_per_row),
                    width: img.width,
                    height: img.height,
                    timestamp_ns,
                },
            ),
            None => Err(
                CaptureError::CaptureFailed(owned("CGWindowListCreateImage returned null")),
            ),
        }
    }
}

/// An image as the platform grabbed it: rows of `4 * width` BGRA bytes,
/// `bytes_per_row` apart.
#[derive(Debug)]
pub struct GrabbedImage {
    pub data: Vec<u8>,
    pub width: u32,
    pub height: u32,
    pub bytes_per_row: usize,
}

/// The bytes of row `row` of an image with `bytes_per_row`-byte rows and
/// `4 * width` pixel bytes per row; empty when the row is not all in `raw`.
pub open spec fn row_bytes(raw: Seq<u8>, width: nat, row: nat, bytes_per_row: nat) -> Seq<u8> {
    let start = row * bytes_per_row;
    let end = start + 4 * width;
    if end <= raw.len() {
        raw.subrange(start as int, end as int)
    } else {
        Seq::empty()
    }
}

/// The rows `0..height` of an image, each reduced to its pixel bytes.
pub open spec fn packed_rows(raw: Seq<u8>, width: nat, height: nat, bytes_per_row: nat) -> Seq<u8>
    decreases height,
{
    if height == 0 {
        Seq::empty()
    } else {
        packed_rows(raw, width, (height - 1) as nat, bytes_per_row) + row_bytes(
            raw,
            width,
            (height - 1) as nat,
            bytes_per_row,
        )
    }
}

/// The row offsets of an image stay within `usize`.
pub open spec fn row_offsets_fit(width: u32, height: u32, bytes_per_row: usize) -> bool {
    height == 0 || (height - 1) * bytes_per_row + 4 * width <= usize::MAX
}

/// Whether an image of this shape can be packed into a frame: its row
/// offsets stay within `usize` and `4 * width * height` fits in a `u32`.
pub fn row_offsets_ok(width: u32, height: u32, bytes_per_row: usize) -> (b: bool)
    ensures
        b == (row_offsets_fit(width, height, bytes_per_row) && width * height * 4 <= u32::MAX),
{
    assert(width * height * 4 <= u32::MAX * u32::MAX * 4) by (nonlinear_arith)
        requires
            width <= u32::MAX,
            height <= u32::MAX,
    ;
    let area: u128 = width as u128 * height as u128 * 4;
    if area > u32::MAX as u128 {
        return false;
    }
    if height == 0 {
        return true;
    }
    assert((height - 1) * bytes_per_row <= u64::MAX * u32::MAX) by (nonlinear_arith)
        requires
            height - 1 <= u32::MAX,
            bytes_per_row <= u64::MAX,
    ;
    let last_row: u128 = (height as u128 - 1) * bytes_per_row as u128 + 4 * width as u128;
    last_row <= usize::MAX as u128
}

/// Copies each row's pixel bytes out of a padded image buffer.
pub fn pack_rows(raw: &[u8], width: u32, height: u32, bytes_per_row: usize) -> (out: Vec<u8>)
    requires
        row_offsets_fit(width, height, bytes_per_row),
    ensures
        out@ == packed_rows(raw@, width as nat, height as nat, bytes_per_row as nat),
{
    let mut out: Vec<u8> = Vec::new();
    let mut row: u32 = 0;
    let mut row_start: usize = 0;
    while row < height
        invariant
            row <= height,
            row_offsets_fit(width, height, bytes_per_row),
            row < height ==> row_start == row * bytes_per_row,
            out@ == packed_rows(raw@, width as nat, row as nat, bytes_per_row as nat),
        decreases height - row,
    {
        assert(row * bytes_per_row <= (height - 1) * bytes_per_row) by (nonlinear_arith)
            requires
                row < height,
        ;
        let row_end = row_start + width as usize * 4;
        if row_end <= raw.len() {
            let mut k: usize = row_start;
            let ghost base = out@;
            while k < row_end
                invariant
                    row_start <= k <= row_end,
                    row_end <= raw.len(),
                    out@ == base + raw@.subrange(row_start as int, k as int),
                decreases row_end - k,
            {
                out.push(raw[k]);
                k = k + 1;
                assert(out@ =~= base + raw@.subrange(row_start as int, k as int));
            }
        } else {
            assert(out@ =~= out@ + Seq::<u8>::empty());
        }
        assert((row + 1) * bytes_per_row == row * bytes_per_row + bytes_per_row) by (nonlinear_arith);
        row = row + 1;
        if row < height {
            assert(row * bytes_per_row <= (height - 1) * bytes_per_row) by (nonlinear_arith)
                requires
                    row < height,
            ;
            row_start = row_start + bytes_per_row;
        }
    }
    out
}

/// The arguments for `screencapture` writing one image of `region` to `path`.
pub open spec fn screencapture_args_spec(
    region: CaptureRegion,
    include_cursor: bool,
    path: Seq<char>,
) -> Seq<Seq<char>> {
    let cursor: Seq<Seq<char>> = if include_cursor {
        seq!["-C"@]
    } else {
        seq![]
    };
    let area: Seq<Seq<char>> = match region {
        CaptureRegion::Display(i) => seq!["-D"@, decimal((i + 1) as nat)],
        CaptureRegion::Rect { x, y, width, height, .. } => seq![
            "-R"@,
            decimal(x as nat) + seq![','] + decimal(y as nat) + seq![','] + decimal(width as nat)
                + seq![','] + decimal(height as nat),
        ],
    };
    cursor + area + seq![path]
}

/// A string holding `s`.
pub fn owned(s: &str) -> (r: String)
    ensures
        r@ == s@,
{
    String::from_str(s)
}

/// The decimal rendering of `n` as a string.
pub fn decimal_string(n: u64) -> (r: String)
    ensures
        r@ == decimal(n as nat),
{
    let mut v: Vec<char> = Vec::new();
    push_decimal(n, &mut v);
    assert(v@ =~= decimal(n as nat));
    string_of(&v)
}

/// Arguments for the `screencapture` tool that writes a still image of
/// `region` to `path` (`-C` captures the cursor and is passed exactly when
/// the cursor is wanted; the display number is one-based).
pub fn screencapture_args(region: &CaptureRegion, include_cursor: bool, path: &str) -> (r: Vec<
    String,
>)
    requires
        region.display_of() < usize::MAX,
    ensures
        r@.map_values(|s: String| s@) == screencapture_args_spec(*region, include_cursor, path@),
{
    let mut args: Vec<String> = Vec::new();
    if include_cursor {
        args.push(owned("-C"));
    }
    match region {
        CaptureRegion::Display(idx) => {
            args.push(owned("-D"));
            args.push(decimal_string((*idx as u64) + 1));
        },
        CaptureRegion::Rect { x, y, width, height, .. } => {
            args.push(owned("-R"));
            let mut v: Vec<char> = Vec::new();
            push_decimal(*x as u64, &mut v);
            v.push(',');
            push_decimal(*y as u64, &mut v);
            v.push(',');
            push_decimal(*width as u64, &mut v);
            v.push(',');
            push_decimal(*height as u64, &mut v);
            assert(v@ =~= decimal(*x as nat) + seq![','] + decimal(*y as nat) + seq![',']
                + decimal(*width as nat) + seq![','] + decimal(*height as nat));
            args.push(string_of(&v));
        },
    }
    args.push(owned(path));
    assert(args@.map_values(|s: String| s@) =~= screencapture_args_spec(
        *region,
        include_cursor,
        path@,
    ));
    args
}

/// Every row that lies inside the buffer is kept whole: its `4 * width`
/// pixel bytes, read from the start of the row.
pub proof fn lemma_rows_inside_are_kept(raw: Seq<u8>, width: nat, row: nat, bytes_per_row: nat)
    requires
        row * bytes_per_row + 4 * width <= raw.len(),
    ensures
        row_bytes(raw, width, row, bytes_per_row) == raw.subrange(
            (row * bytes_per_row) as int,
            (row * bytes_per_row + 4 * width) as int,
        ),
        row_bytes(raw, width, row, bytes_per_row).len() == 4 * width,
{
}

/// A buffer that holds all `height` rows of at least `4 * width` bytes each
/// packs to exactly `4 * width * height` bytes: no row is dropped.
pub proof fn lemma_full_buffer_packs_every_row(
    raw: Seq<u8>,
    width: nat,
    height: nat,
    bytes_per_row: nat,
)
    requires
        bytes_per_row >= 4 * width,
        raw.len() >= height * bytes_per_row,
    ensures
        packed_rows(raw, width, height, bytes_per_row).len() == 4 * width * height,
    decreases height,
{
    if height > 0 {
        let h = (height - 1) as nat;
        assert(h * bytes_per_row + 4 * width <= height * bytes_per_row) by (nonlinear_arith)
            requires
                bytes_per_row >= 4 * width,
                h + 1 == height,
        ;
        assert(raw.len() >= h * bytes_per_row) by (nonlinear_arith)
            requires
                raw.len() >= height * bytes_per_row,
                h + 1 == height,
        ;
        lemma_full_buffer_packs_every_row(raw, width, h, bytes_per_row);
        lemma_rows_inside_are_kept(raw, width, h, bytes_per_row);
        assert(4 * width * h + 4 * width == 4 * width * height) by (nonlinear_arith)
            requires
                h + 1 == height,
        ;
        assert(packed_rows(raw, width, height, bytes_per_row).len() == packed_rows(
            raw,
            width,
            h,
            bytes_per_row,
        ).len() + row_bytes(raw, width, h, bytes_per_row).len());
    } else {
        assert(4 * width * height == 0) by (nonlinear_arith)
            requires
                height == 0,
        ;
    }
}

} // verus!
