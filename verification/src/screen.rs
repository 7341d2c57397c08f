//! The framebuffer writer: owns the raw buffer and its geometry, and exposes
//! the single validated pixel-write primitive, whole-buffer clears, the
//! background model and rectangle fills.

use vstd::prelude::*;
use vstd::pervasive::VecAdditionalExecFns;

use crate::codec::{encode, spec_encode};
use crate::color::{Color, FbError, PixelFormat, spec_gray};

verus! {

/// Geometry and pixel layout of the framebuffer, as handed off at boot.
#[derive(Clone, Copy, PartialEq, Eq, Structural, Debug)]
pub struct FbInfo {
    /// Visible pixels per row.
    pub width: usize,
    /// Visible rows.
    pub height: usize,
    /// Pixel slots per row; at least `width`, more where the hardware pads rows.
    pub stride: usize,
    /// Bytes per pixel slot.
    pub bytes_per_pixel: usize,
    /// Channel layout of a pixel.
    pub pixel_format: PixelFormat,
}

/// Mathematical image of a [`Screen`]: the raw bytes, the descriptor, and the
/// current background intensity.
#[verifier::ext_equal]
pub ghost struct ScreenView {
    pub bytes: Seq<u8>,
    pub info: FbInfo,
    pub bg: u8,
}

impl ScreenView {
    /// Well-formed: consistent geometry, and the buffer exactly covers
    /// `height` rows of `stride` pixel slots of `bytes_per_pixel` bytes each.
    pub open spec fn wf(self) -> bool {
        &&& self.info.width <= self.info.stride
        &&& 1 <= self.info.bytes_per_pixel
        &&& self.bytes.len() == self.info.height * self.info.stride * self.info.bytes_per_pixel
    }
}

/// The sequence of `n` copies of `v`.
pub open spec fn filled(n: nat, v: u8) -> Seq<u8> {
    Seq::new(n, |i: int| v)
}

/// Byte offset of pixel `(x, y)`: `(y*stride + x) * bytes_per_pixel`.
pub open spec fn pix_off(info: FbInfo, x: int, y: int) -> int {
    (y * info.stride + x) * info.bytes_per_pixel
}

/// The buffer after one pixel write: in-range coordinates replace the
/// pixel's bytes with the encoding of `c`; out-of-range coordinates clip
/// silently and leave the buffer unchanged.
pub open spec fn paint_pixel(bytes: Seq<u8>, info: FbInfo, x: int, y: int, c: Color) -> Seq<u8> {
    if 0 <= x < info.width && 0 <= y < info.height {
        Seq::new(
            bytes.len(),
            |i: int|
                if pix_off(info, x, y) <= i < pix_off(info, x, y) + info.bytes_per_pixel {
                    spec_encode(c, info.pixel_format, info.bytes_per_pixel as nat)[i - pix_off(
                        info,
                        x,
                        y,
                    )]
                } else {
                    bytes[i]
                },
        )
    } else {
        bytes
    }
}

/// The state after the fatal-format downgrade: the stored format is forced to
/// `Rgb` so that a later diagnostic draw cannot hit the same fault again.
pub open spec fn fatal_format(s: ScreenView) -> ScreenView {
    ScreenView { info: FbInfo { pixel_format: PixelFormat::Rgb, ..s.info }, ..s }
}

/// The state after `set_bg_intensity(v)`: intensity stored, whole buffer
/// re-cleared to it.
pub open spec fn after_set_bg(s: ScreenView, v: u8) -> ScreenView {
    ScreenView { bytes: filled(s.bytes.len(), v), info: s.info, bg: v }
}

/// Setting the background intensity is idempotent: a second identical call
/// leaves the screen exactly as the first left it.
pub proof fn lemma_set_bg_idempotent(s: ScreenView, v: u8)
    ensures
        after_set_bg(after_set_bg(s, v), v) == after_set_bg(s, v),
{
    assert(after_set_bg(after_set_bg(s, v), v) =~= after_set_bg(s, v));
}

/// Reading back any byte of a pixel just written returns the byte just
/// encoded: the write is visible in the buffer at the computed offset.
pub proof fn lemma_pixel_readback(
    bytes: Seq<u8>,
    info: FbInfo,
    x: int,
    y: int,
    c: Color,
    k: int,
)
    requires
        info.width <= info.stride,
        1 <= info.bytes_per_pixel,
        bytes.len() == info.height * info.stride * info.bytes_per_pixel,
        0 <= x < info.width,
        0 <= y < info.height,
        0 <= k < info.bytes_per_pixel,
    ensures
        paint_pixel(bytes, info, x, y, c)[pix_off(info, x, y) + k] == spec_encode(
            c,
            info.pixel_format,
            info.bytes_per_pixel as nat,
        )[k],
{
    lemma_pix_off_in_range(info, x, y);
}

/// An in-range pixel's byte span lies inside a well-formed buffer.
pub proof fn lemma_pix_off_in_range(info: FbInfo, x: int, y: int)
    requires
        info.width <= info.stride,
        1 <= info.bytes_per_pixel,
        0 <= x < info.width,
        0 <= y < info.height,
    ensures
        0 <= pix_off(info, x, y),
        pix_off(info, x, y) + info.bytes_per_pixel <= info.height * info.stride
            * info.bytes_per_pixel,
        y * info.stride + x < info.height * info.stride,
        info.height * info.stride <= info.height * info.stride * info.bytes_per_pixel,
{
    let st = info.stride as int;
    let h = info.height as int;
    let bpp = info.bytes_per_pixel as int;
    assert(y * st + x < h * st) by (nonlinear_arith)
        requires
            0 <= x < st,
            0 <= y < h,
            0 <= st,
    ;
    assert(0 <= (y * st + x) * bpp) by (nonlinear_arith)
        requires
            0 <= y * st + x,
            0 <= bpp,
    ;
    assert((y * st + x) * bpp + bpp <= h * st * bpp) by (nonlinear_arith)
        requires
            y * st + x < h * st,
            1 <= bpp,
    ;
    assert(h * st <= h * st * bpp) by (nonlinear_arith)
        requires
            0 <= h * st,
            1 <= bpp,
    ;
}

/// The rendering engine's surface: the raw framebuffer bytes, their
/// descriptor, and the current background intensity.
pub struct Screen {
    buf: Vec<u8>,
    info: FbInfo,
    bg_intensity: u8,
}

impl View for Screen {
    type V = ScreenView;

    closed spec fn view(&self) -> ScreenView {
        ScreenView { bytes: self.buf@, info: self.info, bg: self.bg_intensity }
    }
}

impl Screen {
    /// Wraps a raw buffer and its descriptor. Succeeds exactly when the
    /// descriptor is consistent and the buffer holds exactly
    /// `height * stride * bytes_per_pixel` bytes; the screen then starts with
    /// background intensity 255 and the whole buffer cleared to it.
    pub fn new(framebuffer: Vec<u8>, info: FbInfo) -> (r: Result<Screen, FbError>)
        ensures
            r is Ok <==> {
                &&& info.width <= info.stride
                &&& 1 <= info.bytes_per_pixel
                &&& framebuffer@.len() == info.height * info.stride * info.bytes_per_pixel
            },
            r is Err ==> r == Result::<Screen, FbError>::Err(FbError::InvalidGeometry),
            r is Ok ==> {
                &&& r.unwrap()@.wf()
                &&& r.unwrap()@.info == info
                &&& r.unwrap()@.bg == 255
                &&& r.unwrap()@.bytes == filled(framebuffer@.len(), 255)
            },
    {
        let fb_len = framebuffer.len();
        if info.width > info.stride || info.bytes_per_pixel == 0 {
            return Err(FbError::InvalidGeometry);
        }
        let rows = match info.height.checked_mul(info.stride) {
            Some(n) => n,
            None => {
                proof {
                    lemma_mul_exceeds(
                        info.height as int,
                        info.stride as int,
                        info.bytes_per_pixel as int,
                        usize::MAX as int,
                    );
                    assert(framebuffer@.len() == fb_len <= usize::MAX);
                }
                return Err(FbError::InvalidGeometry);
            },
        };
        let total = match rows.checked_mul(info.bytes_per_pixel) {
            Some(n) => n,
            None => {
                // rows * bytes_per_pixel exceeds usize::MAX, so no buffer can
                // have the required length.
                proof {
                    assert(framebuffer@.len() == fb_len <= usize::MAX);
                }
                return Err(FbError::InvalidGeometry);
            },
        };
        if fb_len != total {
            return Err(FbError::InvalidGeometry);
        }
        let mut screen = Screen { buf: framebuffer, info, bg_intensity: 255 };
        screen.clear();
        Ok(screen)
    }

    /// Visible pixels per row.
    pub fn width(&self) -> (w: usize)
        ensures
            w == self@.info.width,
    {
        self.info.width
    }

    /// Visible rows.
    pub fn height(&self) -> (h: usize)
        ensures
            h == self@.info.height,
    {
        self.info.height
    }

    /// The framebuffer descriptor currently stored.
    pub fn info(&self) -> (i: FbInfo)
        ensures
            i == self@.info,
    {
        self.info
    }

    /// The current background intensity.
    pub fn bg_intensity(&self) -> (v: u8)
        ensures
            v == self@.bg,
    {
        self.bg_intensity
    }

    /// Number of bytes in the raw buffer.
    pub fn buffer_len(&self) -> (n: usize)
        ensures
            n == self@.bytes.len(),
    {
        self.buf.len()
    }

    /// Reads one byte of the raw buffer.
    pub fn byte_at(&self, idx: usize) -> (b: u8)
        requires
            idx < self@.bytes.len(),
        ensures
            b == self@.bytes[idx as int],
    {
        self.buf[idx]
    }

    /// Fills the whole raw buffer with one repeated byte. This is a grayscale
    /// approximation: it is a correct whole-pixel clear only when every
    /// channel of the intended color equals that byte.
    #[verifier::loop_isolation(false)]
    pub fn clear_grayscale(&mut self, intensity: u8)
        ensures
            final(self)@.bytes == filled(old(self)@.bytes.len(), intensity),
            final(self)@.info == old(self)@.info,
            final(self)@.bg == old(self)@.bg,
    {
        let n = self.buf.len();
        let mut i: usize = 0;
        while i < n
            invariant
                i <= n,
                self.buf@.len() == n,
                self.info == old(self).info,
                self.bg_intensity == old(self).bg_intensity,
                forall|j: int| 0 <= j < i ==> self.buf@[j] == intensity,
            decreases n - i,
        {
            self.buf.set(i, intensity);
            i += 1;
        }
        proof {
            assert(self.buf@ =~= filled(old(self)@.bytes.len(), intensity));
        }
    }

    /// Fills the whole raw buffer with the background intensity byte (see
    /// [`Screen::clear_grayscale`] for the grayscale caveat).
    pub fn clear(&mut self)
        ensures
            final(self)@.bytes == filled(old(self)@.bytes.len(), old(self)@.bg),
            final(self)@.info == old(self)@.info,
            final(self)@.bg == old(self)@.bg,
    {
        let bg = self.bg_intensity;
        self.clear_grayscale(bg);
    }

    /// Stores a new background intensity and synchronously re-clears the
    /// whole buffer to it.
    pub fn set_bg_intensity(&mut self, intensity: u8)
        ensures
            final(self)@ == after_set_bg(old(self)@, intensity),
    {
        self.bg_intensity = intensity;
        self.clear();
        proof {
            assert(self@ =~= after_set_bg(old(self)@, intensity));
        }
    }

    /// Downgrades an unsupported stored format to `Rgb` and reports the
    /// fault; leaves a supported format untouched. The downgrade comes first
    /// so that drawing attempted while reporting the fault cannot fault the
    /// same way again.
    pub fn check_format(&mut self) -> (r: Result<(), FbError>)
        ensures
            old(self)@.info.pixel_format.is_supported() ==> r is Ok && *final(self) == *old(self),
            !old(self)@.info.pixel_format.is_supported() ==> r == Result::<(), FbError>::Err(
                FbError::UnsupportedFormat,
            ) && final(self)@ == fatal_format(old(self)@),
    {
        if self.info.pixel_format.supported() {
            Ok(())
        } else {
            self.info.pixel_format = PixelFormat::Rgb;
            proof {
                assert(self@ =~= fatal_format(old(self)@));
            }
            Err(FbError::UnsupportedFormat)
        }
    }

    /// The single validated pixel-write primitive. With a supported format it
    /// encodes `color`, copies the bytes into the buffer at the pixel's
    /// offset, and then re-reads the first written byte — mapped display
    /// memory must not see the write elided, so the access below goes through
    /// the indexing primitive rather than a bulk copy. Out-of-range
    /// coordinates clip silently. With an unsupported format it downgrades
    /// the stored format to `Rgb` and reports the fault without writing.
    #[verifier::loop_isolation(false)]
    pub fn draw_pixel(&mut self, x: usize, y: usize, color: Color) -> (r: Result<(), FbError>)
        requires
            old(self)@.wf(),
        ensures
            final(self)@.wf(),
            final(self)@.bg == old(self)@.bg,
            old(self)@.info.pixel_format.is_supported() ==> {
                &&& r is Ok
                &&& final(self)@.info == old(self)@.info
                &&& final(self)@.bytes == paint_pixel(
                    old(self)@.bytes,
                    old(self)@.info,
                    x as int,
                    y as int,
                    color,
                )
            },
            !old(self)@.info.pixel_format.is_supported() ==> r == Result::<(), FbError>::Err(
                FbError::UnsupportedFormat,
            ) && final(self)@ == fatal_format(old(self)@),
    {
        match self.check_format() {
            Err(e) => {
                return Err(e);
            },
            Ok(_) => {},
        }
        if x >= self.info.width || y >= self.info.height {
            return Ok(());
        }
        let buf_len = self.buf.len();
        proof {
            lemma_pix_off_in_range(self.info, x as int, y as int);
            assert(self.buf@.len() == buf_len <= usize::MAX);
        }
        let bpp = self.info.bytes_per_pixel;
        let enc = encode(color, self.info.pixel_format, bpp);
        let off = (y * self.info.stride + x) * bpp;
        let mut k: usize = 0;
        while k < bpp
            invariant
                k <= bpp,
                self.buf@.len() == old(self)@.bytes.len(),
                self.info == old(self).info,
                self.bg_intensity == old(self).bg_intensity,
                forall|j: int|
                    off <= j < off + k ==> self.buf@[j] == enc@[j - off],
                forall|j: int|
                    0 <= j < self.buf@.len() && !(off <= j < off + bpp) ==> self.buf@[j] == old(
                        self,
                    )@.bytes[j],
            decreases bpp - k,
        {
            self.buf.set(off + k, enc[k]);
            k += 1;
        }
        // Forced re-read of the first written byte: on the mapped display
        // buffer this access must not be elided, reordered or merged away.
        let readback = self.buf[off];
        assert(readback == spec_encode(color, self.info.pixel_format, bpp as nat)[0]);
        proof {
            assert(self.buf@ =~= paint_pixel(
                old(self)@.bytes,
                old(self)@.info,
                x as int,
                y as int,
                color,
            ));
        }
        Ok(())
    }
}

/// The buffer after painting the `w` pixels `(x, y) .. (x + w - 1, y)` of
/// one row with color `c`.
pub open spec fn paint_hspan(bytes: Seq<u8>, info: FbInfo, x: int, y: int, w: int, c: Color) -> Seq<
    u8,
>
    decreases w,
{
    if w <= 0 {
        bytes
    } else {
        paint_hspan(paint_pixel(bytes, info, x, y, c), info, x + 1, y, w - 1, c)
    }
}

/// The buffer after filling the axis-aligned region `[x, x+w) × [y, y+h)`
/// with color `c`, row-major.
pub open spec fn paint_rect(
    bytes: Seq<u8>,
    info: FbInfo,
    x: int,
    y: int,
    w: int,
    h: int,
    c: Color,
) -> Seq<u8>
    decreases h,
{
    if h <= 0 {
        bytes
    } else {
        paint_rect(paint_hspan(bytes, info, x, y, w, c), info, x, y + 1, w, h - 1, c)
    }
}

impl Screen {
    /// Fills every pixel of the region `[x, x+width) × [y, y+height)` with
    /// the foreground tone `255 - bg`, via repeated pixel writes in
    /// row-major order; pixels outside the buffer clip. With an unsupported
    /// stored format it downgrades the format to `Rgb` and reports the fault
    /// without painting.
    #[verifier::loop_isolation(false)]
    pub fn draw_rectangle(&mut self, x: usize, y: usize, width: usize, height: usize) -> (r: Result<
        (),
        FbError,
    >)
        requires
            old(self)@.wf(),
            x + width <= usize::MAX,
            y + height <= usize::MAX,
        ensures
            final(self)@.wf(),
            final(self)@.bg == old(self)@.bg,
            old(self)@.info.pixel_format.is_supported() ==> {
                &&& r is Ok
                &&& final(self)@.info == old(self)@.info
                &&& final(self)@.bytes == paint_rect(
                    old(self)@.bytes,
                    old(self)@.info,
                    x as int,
                    y as int,
                    width as int,
                    height as int,
                    spec_gray((255 - old(self)@.bg) as u8),
                )
            },
            !old(self)@.info.pixel_format.is_supported() ==> r == Result::<(), FbError>::Err(
                FbError::UnsupportedFormat,
            ) && final(self)@ == fatal_format(old(self)@),
    {
        match self.check_format() {
            Err(e) => {
                return Err(e);
            },
            Ok(_) => {},
        }
        let ghost info0 = self@.info;
        let ghost bg0 = self@.bg;
        let ink = Color::gray(255 - self.bg_intensity);
        let ghost goal = paint_rect(
            self@.bytes,
            info0,
            x as int,
            y as int,
            width as int,
            height as int,
            ink,
        );
        let mut j: usize = 0;
        while j < height
            invariant
                self@.wf(),
                self@.info == info0,
                self@.bg == bg0,
                j <= height,
                paint_rect(
                    self@.bytes,
                    info0,
                    x as int,
                    y as int + j as int,
                    width as int,
                    height as int - j as int,
                    ink,
                ) == goal,
            decreases height - j,
        {
            let ghost row_goal = paint_hspan(
                self@.bytes,
                info0,
                x as int,
                y as int + j as int,
                width as int,
                ink,
            );
            let mut i: usize = 0;
            while i < width
                invariant
                    self@.wf(),
                    self@.info == info0,
                    self@.bg == bg0,
                    i <= width,
                    paint_hspan(
                        self@.bytes,
                        info0,
                        x as int + i as int,
                        y as int + j as int,
                        width as int - i as int,
                        ink,
                    ) == row_goal,
                decreases width - i,
            {
                let _ = self.draw_pixel(x + i, y + j, ink);
                i += 1;
            }
            j += 1;
        }
        Ok(())
    }
}

/// If `a * b` cannot even be represented below `bound + 1` with `c >= 1`,
/// then `a * b * c` exceeds `bound`.
proof fn lemma_mul_exceeds(a: int, b: int, c: int, bound: int)
    requires
        0 <= a,
        0 <= b,
        1 <= c,
        a * b > bound,
        0 <= bound,
    ensures
        a * b * c > bound,
{
    assert(a * b * c >= a * b) by (nonlinear_arith)
        requires
            0 <= a * b,
            1 <= c,
    ;
}

} // verus!
