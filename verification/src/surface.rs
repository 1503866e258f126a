//! Immutable, shared raster surfaces.

use std::rc::Rc;
use vstd::arithmetic::div_mod::lemma_fundamental_div_mod_converse;
use vstd::prelude::*;
use crate::error::BackendError;
use crate::rect::IRect;

verus! {

/// What the pixels of a surface stand for.
#[derive(Clone, Copy, Debug, PartialEq, Eq, Structural)]
pub enum SurfaceType {
    /// Colours in the sRGB space.
    SRgb,
    /// Colours in the linear RGB space.
    LinearRgb,
    /// Only the alpha channel carries information; the colour channels are zero.
    AlphaOnly,
}

/// The working colour space that the `color-interpolation-filters`
/// property selects.
#[derive(Clone, Copy, Debug, PartialEq, Eq, Structural)]
pub enum ColorInterpolationFilters {
    LinearRgb,
    SRgb,
}

/// The Porter-Duff operator of a compositing.
#[derive(Clone, Copy, Debug, PartialEq, Eq, Structural)]
pub enum Operator {
    /// The top layer is blended over the bottom layer.
    Over,
}

/// The bits of a pixel that hold its alpha channel.
pub const ALPHA_MASK: u32 = 0xff00_0000;

/// The mathematical content of a surface: `pixels[y * width + x]` is the
/// premultiplied ARGB value at `(x, y)`.
pub ghost struct SurfaceView {
    pub width: int,
    pub height: int,
    pub surface_type: SurfaceType,
    pub pixels: Seq<u32>,
}

impl SurfaceView {
    /// The buffer has one pixel for each position.
    pub open spec fn is_valid(self) -> bool {
        &&& 0 <= self.width <= i32::MAX
        &&& 0 <= self.height <= i32::MAX
        &&& self.pixels.len() == self.width * self.height
        &&& self.pixels.len() <= usize::MAX
    }

    /// The surface of the given size where every pixel is zero.
    pub open spec fn transparent(width: int, height: int, surface_type: SurfaceType) -> SurfaceView {
        SurfaceView {
            width,
            height,
            surface_type,
            pixels: Seq::new((width * height) as nat, |i: int| 0u32),
        }
    }

    /// The pixel at `(x, y)`.
    pub open spec fn pixel_at(self, x: int, y: int) -> u32
        recommends
            0 <= x < self.width,
            0 <= y < self.height,
    {
        self.pixels[y * self.width + x]
    }

    /// Every pixel is zero.
    pub open spec fn is_transparent(self) -> bool {
        forall|i: int| 0 <= i < self.pixels.len() ==> self.pixels[i] == 0
    }

    /// The alpha channel inside `bounds`, and nothing anywhere else:
    /// the pixel with index `i` is the one at `(i % width, i / width)`.
    pub open spec fn alpha_within(self, bounds: IRect) -> SurfaceView {
        SurfaceView {
            width: self.width,
            height: self.height,
            surface_type: SurfaceType::AlphaOnly,
            pixels: Seq::new(
                self.pixels.len(),
                |i: int|
                    if bounds.covers(i % self.width, i / self.width) {
                        self.pixels[i] & ALPHA_MASK
                    } else {
                        0u32
                    },
            ),
        }
    }

    /// The rectangle that the surface covers.
    pub open spec fn extent(self) -> IRect {
        IRect { x0: 0, y0: 0, x1: self.width as i32, y1: self.height as i32 }
    }
}

impl SurfaceType {
    /// The type of what comes of compositing a surface of type `self`
    /// with one of type `other` in the working space `space`: alpha-only
    /// where both are, else the working space.
    pub open spec fn spec_combine(self, other: SurfaceType, space: SurfaceType) -> SurfaceType {
        if self == SurfaceType::AlphaOnly && other == SurfaceType::AlphaOnly {
            SurfaceType::AlphaOnly
        } else {
            space
        }
    }

    pub fn combine(self, other: SurfaceType, space: SurfaceType) -> (t: SurfaceType)
        ensures
            t == self.spec_combine(other, space),
    {
        match (self, other) {
            (SurfaceType::AlphaOnly, SurfaceType::AlphaOnly) => SurfaceType::AlphaOnly,
            _ => space,
        }
    }
}

impl ColorInterpolationFilters {
    /// The surface type of pixels in this working space.
    pub open spec fn spec_surface_type(self) -> SurfaceType {
        match self {
            ColorInterpolationFilters::LinearRgb => SurfaceType::LinearRgb,
            ColorInterpolationFilters::SRgb => SurfaceType::SRgb,
        }
    }

    /// The surface type of pixels in this working space.
    pub fn surface_type(self) -> (t: SurfaceType)
        ensures
            t == self.spec_surface_type(),
    {
        match self {
            ColorInterpolationFilters::LinearRgb => SurfaceType::LinearRgb,
            ColorInterpolationFilters::SRgb => SurfaceType::SRgb,
        }
    }
}

/// `Rc::clone` of std hands out another pointer to the same allocation:
/// the new pointer refers to the very buffer the old one refers to.
#[verifier::external_body]
fn share_pixels(pixels: &Rc<Vec<u32>>) -> (other: Rc<Vec<u32>>)
    ensures
        other == *pixels,
{
    Rc::clone(pixels)
}

/// A raster surface whose pixels never change once it exists.  Copies
/// share the pixel buffer.
pub struct SharedImageSurface {
    width: i32,
    height: i32,
    surface_type: SurfaceType,
    pixels: Rc<Vec<u32>>,
}

impl View for SharedImageSurface {
    type V = SurfaceView;

    closed spec fn view(&self) -> SurfaceView {
        SurfaceView {
            width: self.width as int,
            height: self.height as int,
            surface_type: self.surface_type,
            pixels: (*self.pixels)@,
        }
    }
}

/// The view of a surface that may be absent.
pub open spec fn surface_view(surface: Option<SharedImageSurface>) -> Option<SurfaceView> {
    match surface {
        Some(s) => Some(s@),
        None => None,
    }
}

impl SharedImageSurface {
    #[verifier::type_invariant]
    spec fn well_formed(self) -> bool {
        self@.is_valid()
    }

    /// A surface of the given size with every pixel transparent.  Fails
    /// with `InvalidSize` where a dimension is negative or the pixels
    /// cannot be counted in a `usize`.
    pub fn empty(width: i32, height: i32, surface_type: SurfaceType) -> (r: Result<
        SharedImageSurface,
        BackendError,
    >)
        ensures
            r is Ok <==> 0 <= width && 0 <= height && width * height <= usize::MAX,
            r matches Ok(s) ==> s@ == SurfaceView::transparent(
                width as int,
                height as int,
                surface_type,
            ),
            r matches Err(e) ==> e == BackendError::InvalidSize,
    {
        if width < 0 || height < 0 {
            return Err(BackendError::InvalidSize);
        }
        assert(0 <= width * height <= 0x7fff_ffff * 0x7fff_ffff) by (nonlinear_arith)
            requires
                0 <= width <= 0x7fff_ffff,
                0 <= height <= 0x7fff_ffff,
        ;
        let count: u64 = width as u64 * height as u64;
        if count > usize::MAX as u64 {
            return Err(BackendError::InvalidSize);
        }
        Ok(SharedImageSurface::zeroed(width, height, surface_type, count as usize))
    }

    /// The transparent surface of a size whose pixels are `count`.
    fn zeroed(width: i32, height: i32, surface_type: SurfaceType, count: usize) -> (s:
        SharedImageSurface)
        requires
            0 <= width,
            0 <= height,
            count == width * height,
        ensures
            s@ == SurfaceView::transparent(width as int, height as int, surface_type),
    {
        let mut pixels: Vec<u32> = Vec::new();
        let mut i: usize = 0;
        while i < count
            invariant
                i <= count,
                pixels@.len() == i,
                forall|k: int| 0 <= k < i ==> pixels@[k] == 0u32,
            decreases count - i,
        {
            pixels.push(0u32);
            i += 1;
        }
        assert(pixels@ =~= Seq::new((width * height) as nat, |i: int| 0u32));
        SharedImageSurface { width, height, surface_type, pixels: Rc::new(pixels) }
    }

    /// A surface over the given pixel buffer, row after row.  Fails with
    /// `InvalidSize` where a dimension is negative or the buffer does not
    /// hold exactly `width * height` pixels.
    pub fn from_pixels(width: i32, height: i32, surface_type: SurfaceType, pixels: Vec<u32>) -> (r:
        Result<SharedImageSurface, BackendError>)
        ensures
            r is Ok <==> 0 <= width && 0 <= height && pixels@.len() == width * height,
            r matches Ok(s) ==> s@ == (SurfaceView {
                width: width as int,
                height: height as int,
                surface_type,
                pixels: pixels@,
            }),
            r matches Err(e) ==> e == BackendError::InvalidSize,
    {
        if width < 0 || height < 0 {
            return Err(BackendError::InvalidSize);
        }
        assert(0 <= width * height <= 0x7fff_ffff * 0x7fff_ffff) by (nonlinear_arith)
            requires
                0 <= width <= 0x7fff_ffff,
                0 <= height <= 0x7fff_ffff,
        ;
        let count: u64 = width as u64 * height as u64;
        if pixels.len() as u64 != count {
            return Err(BackendError::InvalidSize);
        }
        Ok(SharedImageSurface { width, height, surface_type, pixels: Rc::new(pixels) })
    }

    pub fn width(&self) -> (w: i32)
        ensures
            w == self@.width,
            self@.is_valid(),
    {
        proof {
            use_type_invariant(self);
        }
        self.width
    }

    pub fn height(&self) -> (h: i32)
        ensures
            h == self@.height,
            self@.is_valid(),
    {
        proof {
            use_type_invariant(self);
        }
        self.height
    }

    pub fn surface_type(&self) -> (t: SurfaceType)
        ensures
            t == self@.surface_type,
    {
        self.surface_type
    }

    /// The pixel buffer, row after row.
    pub fn pixels(&self) -> (p: &Vec<u32>)
        ensures
            p@ == self@.pixels,
            self@.is_valid(),
    {
        proof {
            use_type_invariant(self);
        }
        &*self.pixels
    }

    /// A transparent surface of the same size.
    pub fn transparent_like(&self, surface_type: SurfaceType) -> (s: SharedImageSurface)
        ensures
            s@ == SurfaceView::transparent(self@.width, self@.height, surface_type),
    {
        proof {
            use_type_invariant(self);
        }
        SharedImageSurface::zeroed(self.width, self.height, surface_type, self.pixels.len())
    }

    /// The rectangle that the surface covers.
    pub fn extent(&self) -> (r: IRect)
        ensures
            r == self@.extent(),
            r.is_valid(),
            self@.is_valid(),
    {
        proof {
            use_type_invariant(self);
        }
        IRect::from_size(self.width, self.height)
    }

    /// A surface that keeps the alpha channel of each pixel inside
    /// `bounds` and is transparent everywhere else.
    pub fn extract_alpha(&self, bounds: IRect) -> (s: SharedImageSurface)
        ensures
            s@ == self@.alpha_within(bounds),
    {
        proof {
            use_type_invariant(self);
        }
        let n: usize = self.pixels.len();
        let width: usize = self.width as usize;
        let mut out: Vec<u32> = Vec::new();
        let mut i: usize = 0;
        while i < n
            invariant
                i <= n,
                n == self@.pixels.len(),
                width == self@.width,
                self@.is_valid(),
                out@.len() == i,
                forall|k: int| 0 <= k < i ==> out@[k] == self@.alpha_within(bounds).pixels[k],
            decreases n - i,
        {
            assert(width > 0) by (nonlinear_arith)
                requires
                    i < width * self@.height,
                    0 <= width,
            ;
            let x: usize = i % width;
            let y: usize = i / width;
            assert(y < self@.height) by (nonlinear_arith)
                requires
                    y == i as int / width as int,
                    i < width * self@.height,
                    0 < width,
            ;
            let inside = bounds.x0 as i64 <= x as i64 && (x as i64) < bounds.x1 as i64
                && bounds.y0 as i64 <= y as i64 && (y as i64) < bounds.y1 as i64;
            let p: u32 = if inside {
                self.pixels[i] & ALPHA_MASK
            } else {
                0u32
            };
            out.push(p);
            i += 1;
        }
        assert(out@ =~= self@.alpha_within(bounds).pixels);
        SharedImageSurface {
            width: self.width,
            height: self.height,
            surface_type: SurfaceType::AlphaOnly,
            pixels: Rc::new(out),
        }
    }
}

impl Clone for SharedImageSurface {
    /// Another handle on the same pixels.
    fn clone(&self) -> (s: SharedImageSurface)
        ensures
            s == *self,
    {
        proof {
            use_type_invariant(self);
        }
        SharedImageSurface {
            width: self.width,
            height: self.height,
            surface_type: self.surface_type,
            pixels: share_pixels(&self.pixels),
        }
    }
}

/// Pixel by pixel, `alpha_within` keeps the alpha channel of the pixels
/// that `bounds` covers and clears every other pixel.
pub proof fn lemma_alpha_within_pixel(surface: SurfaceView, bounds: IRect, x: int, y: int)
    requires
        surface.is_valid(),
        0 <= x < surface.width,
        0 <= y < surface.height,
    ensures
        0 <= y * surface.width + x < surface.pixels.len(),
        surface.alpha_within(bounds).pixel_at(x, y) == if bounds.covers(x, y) {
            surface.pixel_at(x, y) & ALPHA_MASK
        } else {
            0u32
        },
{
    let w = surface.width;
    let i = y * w + x;
    assert(0 <= i < w * surface.height) by (nonlinear_arith)
        requires
            i == y * w + x,
            0 <= x < w,
            0 <= y < surface.height,
    ;
    lemma_fundamental_div_mod_converse(i, w, y, x);
}

} // verus!
