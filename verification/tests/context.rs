use rsvg_internals::bounds::{PartialBounds, Primitive, Transform};
use rsvg_internals::context::{FilterContext, FilterOutput, FilterResult};
use rsvg_internals::error::{BackendError, FilterError};
use rsvg_internals::input::FilterInput;
use rsvg_internals::rect::IRect;
use rsvg_internals::surface::SurfaceType::{AlphaOnly, LinearRgb, SRgb};
use rsvg_internals::surface::{SharedImageSurface, SurfaceType};

fn solid(width: i32, height: i32, pixel: u32) -> SharedImageSurface {
    let pixels = vec![pixel; (width * height) as usize];
    SharedImageSurface::from_pixels(width, height, SurfaceType::SRgb, pixels).unwrap()
}

fn context(region: IRect, transform: Transform) -> FilterContext {
    FilterContext::new(
        solid(10, 8, 0x80402010),
        Some(solid(10, 8, 0xff000000)),
        solid(10, 8, 0xff00ff00),
        solid(10, 8, 0xff0000ff),
        transform,
        region,
    )
}

fn output(pixel: u32, bounds: IRect) -> FilterOutput {
    FilterOutput { surface: solid(10, 8, pixel), bounds }
}

fn bounds(x: Option<i32>, y: Option<i32>, width: Option<u32>, height: Option<u32>) -> PartialBounds {
    let mut p = Primitive::new();
    p.x = x;
    p.y = y;
    p.width = width;
    p.height = height;
    p.base_bounds()
}

#[test]
fn filter_region_is_confined_to_the_source() {
    let ctx = context(IRect::new(-5, 2, 30, 6), Transform::identity());
    assert_eq!(ctx.filter_region(), IRect::new(0, 2, 10, 6));
    let crossed = context(IRect::new(7, 7, 3, 3), Transform::identity());
    assert_eq!(crossed.filter_region(), IRect::new(7, 7, 7, 7));
}

#[test]
fn absent_input_is_the_source_graphic_then_the_previous_result() {
    let mut ctx = context(IRect::new(1, 1, 9, 7), Transform::identity());
    let first = ctx.get_input(None).unwrap();
    assert_eq!(first.surface.pixels()[0], 0x80402010);
    assert_eq!(first.bounds, IRect::new(1, 1, 9, 7));
    ctx.store_result(FilterResult { name: None, output: output(1, IRect::new(2, 2, 3, 3)) });
    let second = ctx.get_input(None).unwrap();
    assert_eq!(second.surface.pixels()[0], 1);
    assert_eq!(second.bounds, IRect::new(2, 2, 3, 3));
    let previous = ctx.get_input(Some(&FilterInput::PreviousResult)).unwrap();
    assert_eq!(previous.surface.pixels()[0], 1);
}

#[test]
fn named_input_is_the_most_recent_of_that_name() {
    let mut ctx = context(IRect::new(0, 0, 10, 8), Transform::identity());
    let a = FilterInput::Named("a".to_string());
    let b = FilterInput::Named("b".to_string());
    ctx.store_result(FilterResult {
        name: Some("a".to_string()),
        output: output(1, IRect::new(0, 0, 1, 1)),
    });
    ctx.store_result(FilterResult {
        name: Some("b".to_string()),
        output: output(2, IRect::new(0, 0, 2, 2)),
    });
    assert_eq!(ctx.get_input(Some(&a)).unwrap().surface.pixels()[0], 1);
    ctx.store_result(FilterResult {
        name: Some("a".to_string()),
        output: output(3, IRect::new(0, 0, 3, 3)),
    });
    ctx.store_result(FilterResult { name: None, output: output(4, IRect::new(0, 0, 4, 4)) });
    assert_eq!(ctx.get_input(Some(&a)).unwrap().surface.pixels()[0], 3);
    assert_eq!(ctx.get_input(Some(&a)).unwrap().bounds, IRect::new(0, 0, 3, 3));
    assert_eq!(ctx.get_input(Some(&b)).unwrap().surface.pixels()[0], 2);
    assert_eq!(ctx.get_input(None).unwrap().surface.pixels()[0], 4);
    assert_eq!(ctx.published(), 4);
}

#[test]
fn unknown_name_is_an_error() {
    let mut ctx = context(IRect::new(0, 0, 10, 8), Transform::identity());
    ctx.store_result(FilterResult {
        name: Some("a".to_string()),
        output: output(1, IRect::new(0, 0, 1, 1)),
    });
    match ctx.get_input(Some(&FilterInput::Named("A".to_string()))) {
        Err(FilterError::UnknownInput(name)) => assert_eq!(name, "A"),
        _ => panic!("expected UnknownInput"),
    }
    assert_eq!(ctx.published(), 1);
}

#[test]
fn standard_inputs_come_from_the_context() {
    let ctx = context(IRect::new(1, 0, 3, 8), Transform::identity());
    let graphic = ctx.get_input(Some(&FilterInput::SourceGraphic)).unwrap();
    assert_eq!(graphic.surface.pixels()[5], 0x80402010);
    assert_eq!(graphic.bounds, IRect::new(1, 0, 3, 8));
    let alpha = ctx.get_input(Some(&FilterInput::SourceAlpha)).unwrap();
    assert_eq!(alpha.surface.surface_type(), SurfaceType::AlphaOnly);
    assert_eq!(alpha.surface.pixels()[0], 0);
    assert_eq!(alpha.surface.pixels()[1], 0x80000000);
    assert_eq!(alpha.surface.pixels()[2], 0x80000000);
    assert_eq!(alpha.surface.pixels()[3], 0);
    let background = ctx.get_input(Some(&FilterInput::BackgroundImage)).unwrap();
    assert_eq!(background.surface.pixels()[0], 0xff000000);
    let background_alpha = ctx.get_input(Some(&FilterInput::BackgroundAlpha)).unwrap();
    assert_eq!(background_alpha.surface.pixels()[1], 0xff000000);
    assert_eq!(background_alpha.surface.pixels()[0], 0);
    let fill = ctx.get_input(Some(&FilterInput::FillPaint)).unwrap();
    assert_eq!(fill.surface.pixels()[0], 0xff00ff00);
    let stroke = ctx.get_input(Some(&FilterInput::StrokePaint)).unwrap();
    assert_eq!(stroke.surface.pixels()[0], 0xff0000ff);
}

#[test]
fn missing_background_is_transparent() {
    let ctx = FilterContext::new(
        solid(2, 2, 7),
        None,
        solid(2, 2, 8),
        solid(2, 2, 9),
        Transform::identity(),
        IRect::new(0, 0, 2, 2),
    );
    let background = ctx.get_input(Some(&FilterInput::BackgroundImage)).unwrap();
    assert_eq!(background.surface.pixels(), &vec![0u32; 4]);
    assert_eq!(background.surface.width(), 2);
    assert_eq!(background.surface.height(), 2);
}

#[test]
fn published_bounds_are_confined_to_the_region() {
    let mut ctx = context(IRect::new(2, 2, 6, 6), Transform::identity());
    ctx.store_result(FilterResult { name: None, output: output(1, IRect::new(0, 3, 20, 5)) });
    assert_eq!(ctx.get_input(None).unwrap().bounds, IRect::new(2, 3, 6, 5));
    ctx.store_result(FilterResult { name: None, output: output(1, IRect::new(7, 7, 9, 9)) });
    assert_eq!(ctx.get_input(None).unwrap().bounds, IRect::new(6, 6, 6, 6));
}

#[test]
fn bounds_without_geometry_are_the_union_of_the_inputs() {
    let ctx = context(IRect::new(0, 0, 10, 8), Transform::identity());
    let b = bounds(None, None, None, None)
        .add_input(&output(0, IRect::new(1, 2, 3, 4)))
        .add_input(&output(0, IRect::new(2, 1, 5, 3)));
    assert_eq!(b.inputs, Some(IRect::new(1, 1, 5, 4)));
    assert_eq!(b.into_irect(&ctx), IRect::new(1, 1, 5, 4));
}

#[test]
fn bounds_without_inputs_are_the_filter_region() {
    let ctx = context(IRect::new(1, 2, 9, 7), Transform::identity());
    assert_eq!(bounds(None, None, None, None).into_irect(&ctx), IRect::new(1, 2, 9, 7));
    assert_eq!(bounds(Some(3), None, Some(2), None).into_irect(&ctx), IRect::new(3, 2, 5, 7));
    assert_eq!(bounds(None, None, Some(0), None).into_irect(&ctx), IRect::new(1, 2, 9, 7));
}

#[test]
fn explicit_geometry_overrides_each_axis_on_its_own() {
    let ctx = context(IRect::new(0, 0, 10, 8), Transform::identity());
    let input = output(0, IRect::new(2, 2, 6, 5));
    assert_eq!(
        bounds(Some(4), None, None, None).add_input(&input).into_irect(&ctx),
        IRect::new(4, 2, 8, 5)
    );
    assert_eq!(
        bounds(None, Some(1), None, Some(2)).add_input(&input).into_irect(&ctx),
        IRect::new(2, 1, 6, 3)
    );
    assert_eq!(
        bounds(Some(-3), Some(-3), Some(100), Some(100)).add_input(&input).into_irect(&ctx),
        IRect::new(0, 0, 10, 8)
    );
    assert_eq!(
        bounds(None, None, Some(0), None).add_input(&input).into_irect(&ctx),
        IRect::new(2, 2, 2, 5)
    );
}

#[test]
fn transform_carries_user_units_to_pixels() {
    let t = Transform { scale_x: 2, scale_y: 3, offset_x: 1, offset_y: -1 };
    let ctx = context(IRect::new(0, 0, 10, 8), t);
    assert_eq!(
        bounds(Some(1), Some(1), Some(3), Some(2)).into_irect(&ctx),
        IRect::new(3, 2, 9, 8)
    );
    let huge = Transform { scale_x: u32::MAX, scale_y: u32::MAX, offset_x: i32::MAX, offset_y: i32::MIN };
    let ctx = context(IRect::new(0, 0, 10, 8), huge);
    assert_eq!(
        bounds(Some(i32::MAX), Some(i32::MIN), Some(u32::MAX), Some(u32::MAX)).into_irect(&ctx),
        IRect::new(0, 0, 10, 8)
    );
}

#[test]
fn finalized_bounds_stay_inside_the_region() {
    let region = IRect::new(2, 1, 7, 6);
    let ctx = context(region, Transform { scale_x: 3, scale_y: 1, offset_x: -4, offset_y: 2 });
    let choices = [None, Some(-50), Some(0), Some(3), Some(50)];
    let sizes = [None, Some(0u32), Some(2), Some(500)];
    let inputs = [None, Some(IRect::new(-9, -9, 3, 3)), Some(IRect::new(4, 4, 40, 40))];
    for x in choices {
        for y in choices {
            for w in sizes {
                for h in sizes {
                    for input in inputs {
                        let mut b = bounds(x, y, w, h);
                        if let Some(r) = input {
                            b = b.add_input(&output(0, r));
                        }
                        let r = b.into_irect(&ctx);
                        assert!(region.contains(&r));
                    }
                }
            }
        }
    }
}

#[test]
fn surfaces_reject_wrong_sizes() {
    assert!(matches!(
        SharedImageSurface::from_pixels(2, 2, SurfaceType::SRgb, vec![0; 3]),
        Err(BackendError::InvalidSize)
    ));
    assert!(matches!(
        SharedImageSurface::from_pixels(-1, -4, SurfaceType::SRgb, vec![0; 4]),
        Err(BackendError::InvalidSize)
    ));
    assert!(matches!(
        SharedImageSurface::empty(-1, 2, SurfaceType::SRgb),
        Err(BackendError::InvalidSize)
    ));
    let empty = SharedImageSurface::empty(3, 2, SurfaceType::AlphaOnly).unwrap();
    assert_eq!(empty.pixels(), &vec![0u32; 6]);
    assert_eq!(empty.extent(), IRect::new(0, 0, 3, 2));
    let none = SharedImageSurface::empty(0, 5, SurfaceType::SRgb).unwrap();
    assert_eq!(none.pixels().len(), 0);
}

#[test]
fn clone_shares_the_pixels() {
    let s = SharedImageSurface::from_pixels(2, 1, SurfaceType::LinearRgb, vec![5, 6]).unwrap();
    let c = s.clone();
    assert_eq!(c.pixels(), &vec![5u32, 6]);
    assert!(std::ptr::eq(c.pixels(), s.pixels()));
    assert_eq!(c.surface_type(), SurfaceType::LinearRgb);
    let t = s.transparent_like(SurfaceType::AlphaOnly);
    assert_eq!(t.pixels(), &vec![0u32, 0]);
}

#[test]
fn extract_alpha_keeps_alpha_inside_the_bounds() {
    let s = SharedImageSurface::from_pixels(
        3,
        2,
        SurfaceType::SRgb,
        vec![0x11223344, 0x80ffffff, 0xff010203, 0x7f000000, 0x01020304, 0xfe000001],
    )
    .unwrap();
    let a = s.extract_alpha(IRect::new(1, 0, 3, 2));
    assert_eq!(a.surface_type(), SurfaceType::AlphaOnly);
    assert_eq!(a.pixels(), &vec![0, 0x80000000, 0xff000000, 0, 0x01000000, 0xfe000000]);
    let none = s.extract_alpha(IRect::new(5, 5, 9, 9));
    assert_eq!(none.pixels(), &vec![0u32; 6]);
}

#[test]
fn surface_types_combine() {
    assert_eq!(AlphaOnly.combine(AlphaOnly, LinearRgb), AlphaOnly);
    assert_eq!(AlphaOnly.combine(SRgb, LinearRgb), LinearRgb);
    assert_eq!(SRgb.combine(AlphaOnly, SRgb), SRgb);
    assert_eq!(LinearRgb.combine(LinearRgb, LinearRgb), LinearRgb);
}

#[test]
fn rectangles() {
    let a = IRect::new(0, 0, 4, 4);
    let b = IRect::new(2, 3, 6, 9);
    assert_eq!(a.union(&b), IRect::new(0, 0, 6, 9));
    assert_eq!(b.union(&a), IRect::new(0, 0, 6, 9));
    assert_eq!(a.intersection(&b), Some(IRect::new(2, 3, 4, 4)));
    assert_eq!(a.intersection(&IRect::new(4, 0, 5, 5)), None);
    assert_eq!(b.clamp_to(&a), IRect::new(2, 3, 4, 4));
    assert_eq!(IRect::new(7, 7, 9, 9).clamp_to(&a), IRect::new(4, 4, 4, 4));
    assert_eq!(IRect::new(i32::MIN, 0, i32::MAX, 1).width(), 4294967295);
    assert_eq!(b.height(), 6);
    assert!(IRect::new(3, 3, 3, 9).is_empty());
    assert!(!a.is_empty());
    assert!(a.contains(&IRect::new(1, 1, 4, 2)));
    assert!(!a.contains(&b));
    assert_eq!(IRect::new(5, 5, 1, 9).normalized(), IRect::new(5, 5, 5, 9));
    assert_eq!(IRect::from_size(3, 2), IRect::new(0, 0, 3, 2));
}
