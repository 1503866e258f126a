//! The effect region of a primitive: accumulated from its inputs, then
//! settled in integer pixels inside the filter region.

use vstd::prelude::*;
use crate::context::{FilterContext, FilterOutput, name_view};
use crate::error::{FilterError, FilterErrorView};
use crate::parsers::{parse_i32, parse_u32, parsed_integer};
use crate::property_bag::{AttributeView, PropertyBag};
use crate::rect::{IRect, clamp_int};
use crate::surface::ColorInterpolationFilters;

verus! {

/// The map from user units to pixels: a scale and an offset along each
/// axis.
#[derive(Clone, Copy, Debug, PartialEq, Eq, Structural)]
pub struct Transform {
    pub scale_x: u32,
    pub scale_y: u32,
    pub offset_x: i32,
    pub offset_y: i32,
}

impl Transform {
    /// The transform that leaves every coordinate as it is.
    pub fn identity() -> (t: Transform)
        ensures
            t == (Transform { scale_x: 1, scale_y: 1, offset_x: 0, offset_y: 0 }),
    {
        Transform { scale_x: 1, scale_y: 1, offset_x: 0, offset_y: 0 }
    }
}

/// `value` moved into `lo ..= hi`.
fn clamp_wide(value: i128, lo: i32, hi: i32) -> (c: i32)
    ensures
        c == clamp_int(value as int, lo as int, hi as int),
{
    if value < lo as i128 {
        lo
    } else if value > hi as i128 {
        hi
    } else {
        value as i32
    }
}

/// The product of a scale and a length or coordinate.
fn scaled(scale: u32, value: i64) -> (product: i128)
    requires
        -0x1_0000_0000 <= value <= 0x1_0000_0000,
    ensures
        product == scale * value,
        -0x1_0000_0000_0000_0000 <= product <= 0x1_0000_0000_0000_0000,
{
    assert(-0x1_0000_0000_0000_0000 <= scale * value <= 0x1_0000_0000_0000_0000)
        by (nonlinear_arith)
        requires
            0 <= scale <= 0x1_0000_0000,
            -0x1_0000_0000 <= value <= 0x1_0000_0000,
    ;
    scale as i128 * value as i128
}

/// What every filter primitive has: its own geometry in user units, each
/// part of which may be left out; the name under which its result is
/// published; and the colour space in which it works.
pub struct Primitive {
    pub x: Option<i32>,
    pub y: Option<i32>,
    pub width: Option<u32>,
    pub height: Option<u32>,
    pub result: Option<String>,
    pub color_interpolation_filters: ColorInterpolationFilters,
}

/// The effect region of a primitive while its inputs are being looked at.
#[derive(Clone, Copy, Debug)]
pub struct PartialBounds {
    pub x: Option<i32>,
    pub y: Option<i32>,
    pub width: Option<u32>,
    pub height: Option<u32>,
    /// The union of the bounds of the inputs added so far; `None` while
    /// there is no input.
    pub inputs: Option<IRect>,
}

/// A `Primitive` with its name as a sequence of characters.
pub ghost struct PrimitiveView {
    pub x: Option<i32>,
    pub y: Option<i32>,
    pub width: Option<u32>,
    pub height: Option<u32>,
    pub result: Option<Seq<char>>,
    pub color_interpolation_filters: ColorInterpolationFilters,
}

impl PrimitiveView {
    /// No geometry, no name, and linear RGB as the working space.
    pub open spec fn initial() -> PrimitiveView {
        PrimitiveView {
            x: None,
            y: None,
            width: None,
            height: None,
            result: None,
            color_interpolation_filters: ColorInterpolationFilters::LinearRgb,
        }
    }
}

impl View for Primitive {
    type V = PrimitiveView;

    open spec fn view(&self) -> PrimitiveView {
        PrimitiveView {
            x: self.x,
            y: self.y,
            width: self.width,
            height: self.height,
            result: name_view(self.result),
            color_interpolation_filters: self.color_interpolation_filters,
        }
    }
}

/// The `i32` that a text denotes.
pub open spec fn parsed_i32(text: Seq<char>) -> Option<i32> {
    match parsed_integer(text) {
        Some(v) => if i32::MIN <= v <= i32::MAX {
            Some(v as i32)
        } else {
            None
        },
        None => None,
    }
}

/// The `u32` that a text denotes.
pub open spec fn parsed_u32(text: Seq<char>) -> Option<u32> {
    match parsed_integer(text) {
        Some(v) => if 0 <= v <= u32::MAX {
            Some(v as u32)
        } else {
            None
        },
        None => None,
    }
}

/// What one attribute does to a primitive: `x`, `y`, `width` and
/// `height` in no namespace set that part of the geometry, `result` the
/// name; any other attribute changes nothing.  A geometry attribute
/// whose value is no integer of its type is an error, which names the
/// attribute.
pub open spec fn primitive_attribute(current: PrimitiveView, attr: AttributeView) -> Result<
    PrimitiveView,
    Seq<char>,
> {
    if attr.name.is(""@, "x"@) {
        match parsed_i32(attr.value) {
            Some(v) => Ok(PrimitiveView { x: Some(v), ..current }),
            None => Err("x"@),
        }
    } else if attr.name.is(""@, "y"@) {
        match parsed_i32(attr.value) {
            Some(v) => Ok(PrimitiveView { y: Some(v), ..current }),
            None => Err("y"@),
        }
    } else if attr.name.is(""@, "width"@) {
        match parsed_u32(attr.value) {
            Some(v) => Ok(PrimitiveView { width: Some(v), ..current }),
            None => Err("width"@),
        }
    } else if attr.name.is(""@, "height"@) {
        match parsed_u32(attr.value) {
            Some(v) => Ok(PrimitiveView { height: Some(v), ..current }),
            None => Err("height"@),
        }
    } else if attr.name.is(""@, "result"@) {
        Ok(PrimitiveView { result: Some(attr.value), ..current })
    } else {
        Ok(current)
    }
}

/// What a list of attributes does to a primitive, one after the other.
/// The first attribute in error stops it: the primitive keeps what the
/// attributes before it did, and the attribute is named.
pub open spec fn primitive_attributes(current: PrimitiveView, attrs: Seq<AttributeView>) -> (
    PrimitiveView,
    Option<Seq<char>>,
)
    decreases attrs.len(),
{
    if attrs.len() == 0 {
        (current, None)
    } else {
        match primitive_attribute(current, attrs[0]) {
            Ok(next) => primitive_attributes(next, attrs.skip(1)),
            Err(attribute) => (current, Some(attribute)),
        }
    }
}

impl Primitive {
    /// Sets the primitive up from the attributes of its element.  Fails
    /// with `InvalidAttributeValue` at the first attribute whose value is
    /// malformed.
    pub fn set_atts(&mut self, pbag: &PropertyBag) -> (r: Result<(), FilterError>)
        ensures
            final(self)@ == primitive_attributes(old(self)@, pbag@).0,
            match r {
                Ok(_) => primitive_attributes(old(self)@, pbag@).1 is None,
                Err(e) => primitive_attributes(old(self)@, pbag@).1 matches Some(attribute) && e@
                    == FilterErrorView::InvalidAttributeValue(attribute),
            },
    {
        let ghost goal = primitive_attributes(self@, pbag@);
        let mut it = pbag.iter();
        loop
            invariant
                goal == primitive_attributes(old(self)@, pbag@),
                goal == primitive_attributes(self@, it.rest()),
            decreases it.rest().len(),
        {
            let (name, value) = match it.next() {
                Some(item) => item,
                None => {
                    return Ok(());
                },
            };
            if name.is("", "x") {
                match parse_i32(value.as_str()) {
                    Some(v) => {
                        self.x = Some(v);
                    },
                    None => {
                        return Err(FilterError::InvalidAttributeValue("x".to_owned()));
                    },
                }
            } else if name.is("", "y") {
                match parse_i32(value.as_str()) {
                    Some(v) => {
                        self.y = Some(v);
                    },
                    None => {
                        return Err(FilterError::InvalidAttributeValue("y".to_owned()));
                    },
                }
            } else if name.is("", "width") {
                match parse_u32(value.as_str()) {
                    Some(v) => {
                        self.width = Some(v);
                    },
                    None => {
                        return Err(FilterError::InvalidAttributeValue("width".to_owned()));
                    },
                }
            } else if name.is("", "height") {
                match parse_u32(value.as_str()) {
                    Some(v) => {
                        self.height = Some(v);
                    },
                    None => {
                        return Err(FilterError::InvalidAttributeValue("height".to_owned()));
                    },
                }
            } else if name.is("", "result") {
                self.result = Some(value);
            }
        }
    }

    /// A primitive with no geometry and no name, working in linear RGB.
    pub fn new() -> (p: Primitive)
        ensures
            p@ == PrimitiveView::initial(),
    {
        Primitive {
            x: None,
            y: None,
            width: None,
            height: None,
            result: None,
            color_interpolation_filters: ColorInterpolationFilters::LinearRgb,
        }
    }

    /// The bounds to start from: the primitive's own geometry and no input.
    pub open spec fn spec_base_bounds(self) -> PartialBounds {
        PartialBounds { x: self.x, y: self.y, width: self.width, height: self.height, inputs: None }
    }

    /// The bounds to start from: the primitive's own geometry and no input.
    pub fn base_bounds(&self) -> (b: PartialBounds)
        ensures
            b == self.spec_base_bounds(),
    {
        PartialBounds { x: self.x, y: self.y, width: self.width, height: self.height, inputs: None }
    }
}

impl PartialBounds {
    /// The bounds with `bounds` taken into the union of the inputs.
    pub open spec fn spec_add_input(self, bounds: IRect) -> PartialBounds {
        PartialBounds {
            inputs: Some(
                match self.inputs {
                    Some(u) => u.spec_union(bounds),
                    None => bounds,
                },
            ),
            ..self
        }
    }

    /// The rectangle that the bounds come to inside `region`.
    ///
    /// Along each axis, a position or length that the primitive states
    /// is carried from user units to pixels by `transform`; one that it
    /// leaves out is that of the union of the inputs, or of `region`
    /// where there is no input.  The edges are then confined to `region`.
    /// Where that leaves no pixel and there is no input, the rectangle is
    /// the whole of `region`.
    pub open spec fn finalized(self, region: IRect, transform: Transform) -> IRect {
        let inherited = match self.inputs {
            Some(u) => u,
            None => region,
        };
        let left: int = match self.x {
            Some(x) => transform.scale_x * x + transform.offset_x,
            None => inherited.x0 as int,
        };
        let top: int = match self.y {
            Some(y) => transform.scale_y * y + transform.offset_y,
            None => inherited.y0 as int,
        };
        let wide: int = match self.width {
            Some(w) => transform.scale_x * w,
            None => inherited.x1 - inherited.x0,
        };
        let high: int = match self.height {
            Some(h) => transform.scale_y * h,
            None => inherited.y1 - inherited.y0,
        };
        let placed = IRect {
            x0: clamp_int(left, region.x0 as int, region.x1 as int) as i32,
            y0: clamp_int(top, region.y0 as int, region.y1 as int) as i32,
            x1: clamp_int(left + wide, region.x0 as int, region.x1 as int) as i32,
            y1: clamp_int(top + high, region.y0 as int, region.y1 as int) as i32,
        };
        if self.inputs is None && placed.spec_is_empty() {
            region
        } else {
            placed
        }
    }

    /// Takes the bounds of one more input into the union.
    pub fn add_input(self, input: &FilterOutput) -> (b: PartialBounds)
        ensures
            b == self.spec_add_input(input.bounds),
    {
        let inputs = match self.inputs {
            Some(u) => u.union(&input.bounds),
            None => input.bounds,
        };
        PartialBounds {
            x: self.x,
            y: self.y,
            width: self.width,
            height: self.height,
            inputs: Some(inputs),
        }
    }

    /// Settles the bounds in integer pixels.  The rectangle always lies
    /// inside the filter region of the context.
    pub fn into_irect(self, ctx: &FilterContext) -> (r: IRect)
        ensures
            r == self.finalized(ctx@.filter_region, ctx@.viewport_transform),
            ctx@.filter_region.spec_contains(r),
    {
        let region = ctx.filter_region();
        let transform = ctx.viewport_transform();
        let inherited = match self.inputs {
            Some(u) => u,
            None => region,
        };
        let left: i128 = match self.x {
            Some(x) => scaled(transform.scale_x, x as i64) + transform.offset_x as i128,
            None => inherited.x0 as i128,
        };
        let top: i128 = match self.y {
            Some(y) => scaled(transform.scale_y, y as i64) + transform.offset_y as i128,
            None => inherited.y0 as i128,
        };
        let wide: i128 = match self.width {
            Some(w) => scaled(transform.scale_x, w as i64),
            None => inherited.x1 as i128 - inherited.x0 as i128,
        };
        let high: i128 = match self.height {
            Some(h) => scaled(transform.scale_y, h as i64),
            None => inherited.y1 as i128 - inherited.y0 as i128,
        };
        let placed = IRect {
            x0: clamp_wide(left, region.x0, region.x1),
            y0: clamp_wide(top, region.y0, region.y1),
            x1: clamp_wide(left + wide, region.x0, region.x1),
            y1: clamp_wide(top + high, region.y0, region.y1),
        };
        if self.inputs.is_none() && placed.is_empty() {
            region
        } else {
            placed
        }
    }
}

/// The settled bounds lie inside the region, whatever the geometry, the
/// inputs and the transform.
pub proof fn lemma_finalized_within(bounds: PartialBounds, region: IRect, transform: Transform)
    requires
        region.is_valid(),
    ensures
        region.spec_contains(bounds.finalized(region, transform)),
{
}

} // verus!
