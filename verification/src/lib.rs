//! Screen and window capture logic: monitor and window registries in
//! virtual-screen coordinates, composition of per-monitor captures into one
//! virtual-desktop canvas, and cropping of a sub-rectangle from a capture.
//!
//! Enumerating the displays and grabbing their pixels is the platform
//! layer's job; everything here works on plain descriptors and RGBA byte
//! buffers handed in by the caller.

use vstd::prelude::*;

pub mod compose;
pub mod monitors;
pub mod region;
pub mod sanitize;
pub mod windows;

verus! {

/// Why an operation failed.
#[derive(Debug, Clone, Copy, PartialEq, Eq, Structural)]
pub enum CaptureError {
    /// The platform layer could not enumerate displays or windows.
    EnumerationFailed,
    /// No monitor or window matched the lookup criteria.
    NotFound,
    /// The platform layer denied or failed a pixel capture.
    CaptureFailed,
    /// A crop rectangle reaches outside the source buffer.
    InvalidRegion,
}

/// Offset of byte `k` of the pixel at column `x`, row `y` in a row-major
/// RGBA buffer that is `w` pixels wide.
pub open spec fn pixel_idx(w: int, x: int, y: int, k: int) -> int {
    (y * w + x) * 4 + k
}

/// A pixel byte inside the image lies inside the buffer.
pub proof fn lemma_pixel_idx_bound(w: int, h: int, x: int, y: int, k: int)
    requires
        0 <= x < w,
        0 <= y < h,
        0 <= k < 4,
    ensures
        0 <= pixel_idx(w, x, y, k) < w * h * 4,
{
    assert(0 <= (y * w + x) * 4 + k < w * h * 4) by (nonlinear_arith)
        requires
            0 <= x < w,
            0 <= y < h,
            0 <= k < 4,
    ;
}

/// Distinct in-range pixel bytes occupy distinct buffer offsets.
pub proof fn lemma_pixel_idx_injective(
    w: int,
    x1: int,
    y1: int,
    k1: int,
    x2: int,
    y2: int,
    k2: int,
)
    requires
        0 <= x1 < w,
        0 <= x2 < w,
        0 <= y1,
        0 <= y2,
        0 <= k1 < 4,
        0 <= k2 < 4,
        pixel_idx(w, x1, y1, k1) == pixel_idx(w, x2, y2, k2),
    ensures
        x1 == x2 && y1 == y2 && k1 == k2,
{
    assert(x1 == x2 && y1 == y2 && k1 == k2) by (nonlinear_arith)
        requires
            0 <= x1 < w,
            0 <= x2 < w,
            0 <= y1,
            0 <= y2,
            0 <= k1 < 4,
            0 <= k2 < 4,
            (y1 * w + x1) * 4 + k1 == (y2 * w + x2) * 4 + k2,
    ;
}

/// An owned RGBA image: `4 * width * height` bytes in row-major order,
/// four bytes (red, green, blue, alpha) per pixel.
#[derive(Debug)]
pub struct ImageData {
    pub image: Vec<u8>,
    pub width: u32,
    pub height: u32,
}

impl ImageData {
    /// The buffer holds exactly one RGBA quadruple per pixel.
    pub open spec fn wf(self) -> bool {
        self.image@.len() == self.width * self.height * 4
    }

    /// The byte `k` (0 = red .. 3 = alpha) of the pixel at column `x`, row `y`.
    pub open spec fn byte_at(self, x: int, y: int, k: int) -> u8 {
        self.image@[pixel_idx(self.width as int, x, y, k)]
    }
}

impl Clone for ImageData {
    fn clone(&self) -> (r: Self)
        ensures
            r.image@ == self.image@,
            r.width == self.width,
            r.height == self.height,
    {
        ImageData { image: self.image.clone(), width: self.width, height: self.height }
    }
}

/// One display's geometry and identity, as the platform layer reports it.
/// `x` and `y` are the monitor's origin in virtual-screen coordinates.
#[derive(Debug)]
pub struct MonitorData {
    pub width: u32,
    pub height: u32,
    pub x: i32,
    pub y: i32,
    pub name: String,
    pub is_primary: bool,
}

impl Clone for MonitorData {
    fn clone(&self) -> (r: Self)
        ensures
            r == *self,
    {
        MonitorData {
            width: self.width,
            height: self.height,
            x: self.x,
            y: self.y,
            name: self.name.clone(),
            is_primary: self.is_primary,
        }
    }
}

/// One on-screen window: identity, geometry in virtual-screen coordinates,
/// and stacking order (`z`; a higher value means nearer the front).
#[derive(Debug)]
pub struct WindowData {
    pub title: String,
    pub app_name: String,
    pub pid: u32,
    pub x: i32,
    pub y: i32,
    pub width: u32,
    pub height: u32,
    pub z: i32,
}

impl Clone for WindowData {
    fn clone(&self) -> (r: Self)
        ensures
            r == *self,
    {
        WindowData {
            title: self.title.clone(),
            app_name: self.app_name.clone(),
            pid: self.pid,
            x: self.x,
            y: self.y,
            width: self.width,
            height: self.height,
            z: self.z,
        }
    }
}

} // verus!
