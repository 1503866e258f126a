use rsvg_internals::bounds::{Primitive, Transform};
use rsvg_internals::chain::{render_filter_chain, render_primitive, ChainStep};
use rsvg_internals::context::{FilterContext, FilterOutput, FilterResult};
use rsvg_internals::error::{BackendError, FilterError};
use rsvg_internals::input::FilterInput;
use rsvg_internals::merge::{ComposeRequest, FeMerge, FeMergeNode, MergeLayer, MergeStep};
use rsvg_internals::node::{ElementKind, Node, NodeArena, NodeData};
use rsvg_internals::property_bag::{PropertyBag, Xml2Attribute};
use rsvg_internals::rect::IRect;
use rsvg_internals::surface::{
    ColorInterpolationFilters, Operator, SharedImageSurface, SurfaceType,
};

const RED: u32 = 0xffff_0000;
const GREEN: u32 = 0xff00_ff00;
const BLUE: u32 = 0xff00_00ff;
const HALF_BLACK: u32 = 0x8000_0000;

fn solid(width: i32, height: i32, pixel: u32) -> SharedImageSurface {
    let pixels = vec![pixel; (width * height) as usize];
    SharedImageSurface::from_pixels(width, height, SurfaceType::SRgb, pixels).unwrap()
}

fn context(source: u32) -> FilterContext {
    FilterContext::new(
        solid(4, 3, source),
        None,
        solid(4, 3, GREEN),
        solid(4, 3, BLUE),
        Transform::identity(),
        IRect::new(0, 0, 4, 3),
    )
}

fn over(top: u32, bottom: u32) -> u32 {
    let keep = 255 - (top >> 24);
    let mut out = 0u32;
    for shift in [0u32, 8, 16, 24] {
        let t = (top >> shift) & 0xff;
        let b = (bottom >> shift) & 0xff;
        let c = (t + (b * keep + 127) / 255).min(255);
        out |= c << shift;
    }
    out
}

/// A stand-in for the graphics backend: paints `top` over `bottom`
/// inside the bounds and leaves the rest transparent.
fn paint(request: &ComposeRequest) -> Result<Vec<u32>, BackendError> {
    let width = request.bottom.width();
    let height = request.bottom.height();
    let mut out = vec![0u32; (width * height) as usize];
    for y in 0..height {
        for x in 0..width {
            let b = request.bounds;
            if b.x0 <= x && x < b.x1 && b.y0 <= y && y < b.y1 {
                let i = (y * width + x) as usize;
                out[i] = over(request.top.pixels()[i], request.bottom.pixels()[i]);
            }
        }
    }
    Ok(out)
}

fn finish_merge(ctx: &FilterContext, first: MergeStep) -> (FilterResult, usize) {
    let mut step = first;
    let mut painted = 0;
    loop {
        match step {
            MergeStep::Done(result) => return (result, painted),
            MergeStep::Compose(request, run) => {
                assert_eq!(request.operator, Operator::Over);
                painted += 1;
                step = run.resume(ctx, paint(&request)).unwrap();
            }
        }
    }
}

fn finish_chain(
    filter: &Node,
    tree: &NodeArena,
    ctx: &mut FilterContext,
) -> Result<FilterOutput, FilterError> {
    let mut step = render_filter_chain(filter, tree, ctx)?;
    loop {
        match step {
            ChainStep::Finished(output) => return Ok(output),
            ChainStep::Compose(request, run) => {
                step = run.resume(filter, tree, ctx, paint(&request))?;
            }
        }
    }
}

fn named(name: &str) -> Option<FilterInput> {
    Some(FilterInput::Named(name.to_string()))
}

/// Adds a merge with one `feMergeNode` for each input and returns the
/// index of the merge.
fn add_merge(tree: &mut NodeArena, base: Primitive, inputs: Vec<Option<FilterInput>>) -> usize {
    let mut children = Vec::new();
    for input in inputs {
        children.push(tree.add(NodeData::FeMergeNode(FeMergeNode::new(input)), false, Vec::new()));
    }
    tree.add(NodeData::FeMerge(FeMerge::new(base)), false, children)
}

fn render_merge(tree: &NodeArena, id: usize, ctx: &FilterContext) -> Result<MergeStep, FilterError> {
    let node = tree.get(id).unwrap();
    match &node.data {
        NodeData::FeMerge(merge) => merge.render(node, tree, ctx),
        _ => unreachable!(),
    }
}

fn publish(ctx: &mut FilterContext, name: Option<&str>, pixel: u32, bounds: IRect) {
    ctx.store_result(FilterResult {
        name: name.map(|n| n.to_string()),
        output: FilterOutput { surface: solid(4, 3, pixel), bounds },
    });
}

#[test]
fn empty_merge_is_transparent_and_sized_like_the_source() {
    let ctx = context(RED);
    let mut tree = NodeArena::new();
    let mut base = Primitive::new();
    base.x = Some(1);
    base.width = Some(2);
    base.result = Some("nothing".to_string());
    let id = add_merge(&mut tree, base, vec![]);
    let (result, painted) = finish_merge(&ctx, render_merge(&tree, id, &ctx).unwrap());
    assert_eq!(painted, 0);
    assert_eq!(result.name.as_deref(), Some("nothing"));
    assert_eq!(result.output.surface.width(), 4);
    assert_eq!(result.output.surface.height(), 3);
    assert_eq!(result.output.surface.surface_type(), SurfaceType::AlphaOnly);
    assert_eq!(result.output.surface.pixels(), &vec![0u32; 12]);
    assert_eq!(result.output.bounds, IRect::new(1, 0, 3, 3));
}

#[test]
fn empty_merge_without_geometry_covers_the_filter_region() {
    let ctx = FilterContext::new(
        solid(4, 3, RED),
        None,
        solid(4, 3, GREEN),
        solid(4, 3, BLUE),
        Transform::identity(),
        IRect::new(1, 1, 3, 2),
    );
    let mut tree = NodeArena::new();
    let id = add_merge(&mut tree, Primitive::new(), vec![]);
    let (result, _) = finish_merge(&ctx, render_merge(&tree, id, &ctx).unwrap());
    assert_eq!(result.output.bounds, IRect::new(1, 1, 3, 2));
    assert!(result.name.is_none());
}

#[test]
fn single_child_is_handed_on_unpainted() {
    let mut ctx = context(RED);
    publish(&mut ctx, Some("a"), HALF_BLACK, IRect::new(1, 1, 2, 2));
    let mut tree = NodeArena::new();
    let id = add_merge(&mut tree, Primitive::new(), vec![named("a")]);
    let (result, painted) = finish_merge(&ctx, render_merge(&tree, id, &ctx).unwrap());
    assert_eq!(painted, 0);
    assert_eq!(result.output.surface.pixels(), &vec![HALF_BLACK; 12]);
    assert_eq!(result.output.surface.surface_type(), SurfaceType::SRgb);
    assert_eq!(result.output.bounds, IRect::new(1, 1, 2, 2));
}

#[test]
fn later_children_are_painted_over_earlier_ones() {
    let ctx = context(RED);
    let mut tree = NodeArena::new();
    let source_then_fill = add_merge(
        &mut tree,
        Primitive::new(),
        vec![Some(FilterInput::SourceGraphic), Some(FilterInput::FillPaint)],
    );
    let fill_then_source = add_merge(
        &mut tree,
        Primitive::new(),
        vec![Some(FilterInput::FillPaint), Some(FilterInput::SourceGraphic)],
    );
    let (a, painted_a) = finish_merge(&ctx, render_merge(&tree, source_then_fill, &ctx).unwrap());
    let (b, painted_b) = finish_merge(&ctx, render_merge(&tree, fill_then_source, &ctx).unwrap());
    assert_eq!(painted_a, 1);
    assert_eq!(painted_b, 1);
    assert_eq!(a.output.surface.pixels(), &vec![GREEN; 12]);
    assert_eq!(b.output.surface.pixels(), &vec![RED; 12]);
    assert_eq!(a.output.bounds, b.output.bounds);
    assert_eq!(a.output.surface.surface_type(), SurfaceType::LinearRgb);
}

#[test]
fn first_request_has_second_child_on_top() {
    let ctx = context(RED);
    let mut tree = NodeArena::new();
    let mut base = Primitive::new();
    base.color_interpolation_filters = ColorInterpolationFilters::SRgb;
    let id = add_merge(
        &mut tree,
        base,
        vec![
            Some(FilterInput::SourceGraphic),
            Some(FilterInput::FillPaint),
            Some(FilterInput::StrokePaint),
        ],
    );
    match render_merge(&tree, id, &ctx).unwrap() {
        MergeStep::Compose(request, run) => {
            assert_eq!(request.top.pixels(), &vec![GREEN; 12]);
            assert_eq!(request.bottom.pixels(), &vec![RED; 12]);
            assert_eq!(request.bounds, IRect::new(0, 0, 4, 3));
            assert_eq!(request.space, SurfaceType::SRgb);
            match run.resume(&ctx, Ok(vec![HALF_BLACK; 12])).unwrap() {
                MergeStep::Compose(second, _) => {
                    assert_eq!(second.top.pixels(), &vec![BLUE; 12]);
                    assert_eq!(second.bottom.pixels(), &vec![HALF_BLACK; 12]);
                    assert_eq!(second.bottom.surface_type(), SurfaceType::SRgb);
                }
                MergeStep::Done(_) => panic!("the third child was not painted"),
            }
        }
        MergeStep::Done(_) => panic!("no compositing was asked for"),
    }
}

#[test]
fn bounds_are_the_union_of_the_inputs_in_any_order() {
    let mut ctx = context(RED);
    publish(&mut ctx, Some("a"), RED, IRect::new(0, 0, 1, 1));
    publish(&mut ctx, Some("b"), GREEN, IRect::new(2, 1, 3, 3));
    publish(&mut ctx, Some("c"), BLUE, IRect::new(1, 2, 4, 3));
    let mut tree = NodeArena::new();
    let abc = add_merge(&mut tree, Primitive::new(), vec![named("a"), named("b"), named("c")]);
    let cba = add_merge(&mut tree, Primitive::new(), vec![named("c"), named("b"), named("a")]);
    let bc = add_merge(&mut tree, Primitive::new(), vec![named("b"), named("c")]);
    let (r_abc, _) = finish_merge(&ctx, render_merge(&tree, abc, &ctx).unwrap());
    let (r_cba, _) = finish_merge(&ctx, render_merge(&tree, cba, &ctx).unwrap());
    let (r_bc, _) = finish_merge(&ctx, render_merge(&tree, bc, &ctx).unwrap());
    assert_eq!(r_abc.output.bounds, IRect::new(0, 0, 4, 3));
    assert_eq!(r_cba.output.bounds, IRect::new(0, 0, 4, 3));
    assert_eq!(r_bc.output.bounds, IRect::new(1, 1, 4, 3));
    assert_eq!(r_abc.output.surface.pixels()[0], BLUE);
    assert_eq!(r_cba.output.surface.pixels()[0], RED);
}

#[test]
fn painting_is_confined_to_the_bounds() {
    let mut ctx = context(RED);
    publish(&mut ctx, Some("a"), RED, IRect::new(0, 0, 2, 1));
    publish(&mut ctx, Some("b"), GREEN, IRect::new(1, 0, 2, 2));
    let mut tree = NodeArena::new();
    let id = add_merge(&mut tree, Primitive::new(), vec![named("a"), named("b")]);
    let (result, _) = finish_merge(&ctx, render_merge(&tree, id, &ctx).unwrap());
    assert_eq!(result.output.bounds, IRect::new(0, 0, 2, 2));
    let pixels = result.output.surface.pixels();
    assert_eq!(pixels[0], GREEN);
    assert_eq!(pixels[5], GREEN);
    assert_eq!(pixels[2], 0);
    assert_eq!(pixels[11], 0);
}

#[test]
fn child_in_error_fails_the_merge() {
    let ctx = context(RED);
    let mut tree = NodeArena::new();
    let good = tree.add(
        NodeData::FeMergeNode(FeMergeNode::new(Some(FilterInput::SourceGraphic))),
        false,
        Vec::new(),
    );
    let bad = tree.add(NodeData::FeMergeNode(FeMergeNode::default()), true, Vec::new());
    let id = tree.add(NodeData::FeMerge(FeMerge::default()), false, vec![good, bad]);
    assert!(matches!(render_merge(&tree, id, &ctx), Err(FilterError::ChildNodeInError)));
}

#[test]
fn first_failing_child_decides_the_error() {
    let ctx = context(RED);
    let mut tree = NodeArena::new();
    let unknown = tree.add(NodeData::FeMergeNode(FeMergeNode::new(named("x"))), false, Vec::new());
    let bad = tree.add(NodeData::FeMergeNode(FeMergeNode::default()), true, Vec::new());
    let unknown_first = tree.add(NodeData::FeMerge(FeMerge::default()), false, vec![unknown, bad]);
    let bad_first = tree.add(NodeData::FeMerge(FeMerge::default()), false, vec![bad, unknown]);
    match render_merge(&tree, unknown_first, &ctx) {
        Err(FilterError::UnknownInput(name)) => assert_eq!(name, "x"),
        _ => panic!("expected UnknownInput"),
    }
    assert!(matches!(render_merge(&tree, bad_first, &ctx), Err(FilterError::ChildNodeInError)));
}

#[test]
fn other_children_of_a_merge_are_passed_over() {
    let ctx = context(RED);
    let mut tree = NodeArena::new();
    let text = tree.add(NodeData::Other, true, Vec::new());
    let node = tree.add(
        NodeData::FeMergeNode(FeMergeNode::new(Some(FilterInput::StrokePaint))),
        false,
        Vec::new(),
    );
    let id = tree.add(NodeData::FeMerge(FeMerge::default()), false, vec![text, node, 99]);
    let (result, painted) = finish_merge(&ctx, render_merge(&tree, id, &ctx).unwrap());
    assert_eq!(painted, 0);
    assert_eq!(result.output.surface.pixels(), &vec![BLUE; 12]);
}

#[test]
fn backend_failure_ends_the_merge() {
    let ctx = context(RED);
    let mut tree = NodeArena::new();
    let id = add_merge(
        &mut tree,
        Primitive::new(),
        vec![Some(FilterInput::SourceGraphic), Some(FilterInput::FillPaint)],
    );
    match render_merge(&tree, id, &ctx).unwrap() {
        MergeStep::Compose(_, run) => {
            let r = run.resume(&ctx, Err(BackendError::NoMemory));
            assert!(matches!(r, Err(FilterError::BackendError(BackendError::NoMemory))));
        }
        MergeStep::Done(_) => panic!("no compositing was asked for"),
    }
    match render_merge(&tree, id, &ctx).unwrap() {
        MergeStep::Compose(_, run) => {
            let r = run.resume(&ctx, Ok(vec![0u32; 11]));
            assert!(matches!(r, Err(FilterError::BackendError(BackendError::InvalidSize))));
        }
        MergeStep::Done(_) => panic!("no compositing was asked for"),
    }
}

#[test]
fn merge_node_render_base_and_over() {
    let ctx = context(RED);
    let node = FeMergeNode::new(Some(FilterInput::FillPaint));
    let bounds = IRect::new(0, 0, 2, 2);
    match node.render(&ctx, bounds, None, SurfaceType::LinearRgb).unwrap() {
        MergeLayer::Base(surface) => assert_eq!(surface.pixels(), &vec![GREEN; 12]),
        MergeLayer::Over(_) => panic!("the first layer is not painted"),
    }
    match node.render(&ctx, bounds, Some(solid(4, 3, BLUE)), SurfaceType::LinearRgb).unwrap() {
        MergeLayer::Over(request) => {
            assert_eq!(request.top.pixels(), &vec![GREEN; 12]);
            assert_eq!(request.bottom.pixels(), &vec![BLUE; 12]);
            assert_eq!(request.bounds, bounds);
            assert_eq!(request.space, SurfaceType::LinearRgb);
        }
        MergeLayer::Base(_) => panic!("a later layer is painted"),
    }
    let unknown = FeMergeNode::new(named("nowhere"));
    assert!(matches!(
        unknown.render(&ctx, bounds, None, SurfaceType::SRgb),
        Err(FilterError::UnknownInput(_))
    ));
}

#[test]
fn merge_is_affected_by_color_interpolation_filters() {
    assert!(FeMerge::default().is_affected_by_color_interpolation_filters());
    assert!(FeMerge::default().base().result.is_none());
}

#[test]
fn alpha_only_layers_stay_alpha_only() {
    let ctx = context(HALF_BLACK);
    let mut tree = NodeArena::new();
    let id = add_merge(
        &mut tree,
        Primitive::new(),
        vec![Some(FilterInput::SourceAlpha), Some(FilterInput::BackgroundAlpha)],
    );
    let (result, painted) = finish_merge(&ctx, render_merge(&tree, id, &ctx).unwrap());
    assert_eq!(painted, 1);
    assert_eq!(result.output.surface.surface_type(), SurfaceType::AlphaOnly);
    assert_eq!(result.output.surface.pixels(), &vec![HALF_BLACK; 12]);
}

#[test]
fn chain_publishes_each_result_for_the_next_primitive() {
    let mut ctx = context(RED);
    let mut tree = NodeArena::new();
    let mut first = Primitive::new();
    first.result = Some("a".to_string());
    first.width = Some(2);
    let m1 = add_merge(
        &mut tree,
        first,
        vec![Some(FilterInput::SourceGraphic), Some(FilterInput::FillPaint)],
    );
    let other = tree.add(NodeData::Other, false, Vec::new());
    let m2 = add_merge(&mut tree, Primitive::new(), vec![named("a"), None]);
    let filter = tree.add(NodeData::Other, false, vec![m1, other, m2]);
    let filter_node = tree.get(filter).unwrap();
    let output = finish_chain(filter_node, &tree, &mut ctx).unwrap();
    assert_eq!(ctx.published(), 2);
    assert_eq!(output.bounds, IRect::new(0, 0, 2, 3));
    assert_eq!(output.surface.pixels()[0], GREEN);
    assert_eq!(output.surface.pixels()[3], 0);
    let a = ctx.get_input(Some(&FilterInput::Named("a".to_string()))).unwrap();
    assert_eq!(a.bounds, IRect::new(0, 0, 2, 3));
}

#[test]
fn chain_with_unknown_input_publishes_nothing() {
    let mut ctx = context(RED);
    let mut tree = NodeArena::new();
    let mut base = Primitive::new();
    base.result = Some("out".to_string());
    let m1 = add_merge(&mut tree, base, vec![Some(FilterInput::SourceGraphic), named("missing")]);
    let m2 = add_merge(&mut tree, Primitive::new(), vec![named("out")]);
    let filter = tree.add(NodeData::Other, false, vec![m1, m2]);
    let filter_node = tree.get(filter).unwrap();
    match finish_chain(filter_node, &tree, &mut ctx) {
        Err(FilterError::UnknownInput(name)) => assert_eq!(name, "missing"),
        _ => panic!("expected UnknownInput"),
    }
    assert_eq!(ctx.published(), 0);
    assert!(matches!(
        ctx.get_input(Some(&FilterInput::Named("out".to_string()))),
        Err(FilterError::UnknownInput(_))
    ));
}

#[test]
fn chain_fails_on_a_primitive_in_error() {
    let mut ctx = context(RED);
    let mut tree = NodeArena::new();
    let m1 = add_merge(&mut tree, Primitive::new(), vec![Some(FilterInput::SourceGraphic)]);
    let m2 = tree.add(NodeData::FeMerge(FeMerge::default()), true, Vec::new());
    let filter = tree.add(NodeData::Other, false, vec![m1, m2]);
    let filter_node = tree.get(filter).unwrap();
    assert!(matches!(
        finish_chain(filter_node, &tree, &mut ctx),
        Err(FilterError::ChildNodeInError)
    ));
    assert_eq!(ctx.published(), 1);
}

#[test]
fn chain_without_primitives_is_transparent() {
    let mut ctx = context(RED);
    let mut tree = NodeArena::new();
    let filter = tree.add(NodeData::Other, false, Vec::new());
    let filter_node = tree.get(filter).unwrap();
    let output = finish_chain(filter_node, &tree, &mut ctx).unwrap();
    assert_eq!(output.surface.pixels(), &vec![0u32; 12]);
    assert_eq!(output.surface.surface_type(), SurfaceType::AlphaOnly);
    assert_eq!(output.bounds, IRect::new(0, 0, 4, 3));
    assert_eq!(ctx.published(), 0);
}

fn bag(pairs: &[(&str, &str)]) -> PropertyBag {
    let attrs: Vec<Xml2Attribute> = pairs
        .iter()
        .map(|(name, value)| Xml2Attribute {
            localname: name.to_string(),
            prefix: None,
            uri: None,
            value: Some(value.to_string()),
        })
        .collect();
    PropertyBag::new_from_xml2_attributes(&attrs)
}

#[test]
fn elements_with_malformed_attributes_are_in_error() {
    let (good, good_error) = NodeData::from_attributes(ElementKind::FeMergeNode, &bag(&[("in", "FillPaint")]));
    assert!(!good_error);
    match &good {
        NodeData::FeMergeNode(node) => assert!(matches!(node.input_ref(), Some(FilterInput::FillPaint))),
        _ => panic!("expected an feMergeNode"),
    }
    let (bad, bad_error) = NodeData::from_attributes(ElementKind::FeMergeNode, &bag(&[("in", "")]));
    assert!(bad_error);
    let (merge, merge_error) =
        NodeData::from_attributes(ElementKind::FeMerge, &bag(&[("x", "1"), ("result", "m")]));
    assert!(!merge_error);
    match &merge {
        NodeData::FeMerge(m) => {
            assert_eq!(m.base().x, Some(1));
            assert_eq!(m.base().result.as_deref(), Some("m"));
        }
        _ => panic!("expected an feMerge"),
    }
    let (_, broken) = NodeData::from_attributes(ElementKind::FeMerge, &bag(&[("width", "wide")]));
    assert!(broken);
    let (other, other_error) = NodeData::from_attributes(ElementKind::Other, &bag(&[("in", "")]));
    assert!(matches!(other, NodeData::Other));
    assert!(!other_error);

    let ctx = context(RED);
    let mut tree = NodeArena::new();
    let a = tree.add(good, good_error, Vec::new());
    let b = tree.add(bad, bad_error, Vec::new());
    let id = tree.add(merge, merge_error, vec![a, b]);
    assert!(matches!(render_merge(&tree, id, &ctx), Err(FilterError::ChildNodeInError)));
}

#[test]
fn primitives_are_rendered_by_their_kind() {
    let ctx = context(RED);
    let mut tree = NodeArena::new();
    let other = tree.add(NodeData::Other, false, Vec::new());
    let leaf = tree.add(NodeData::FeMergeNode(FeMergeNode::default()), false, Vec::new());
    let merge = tree.add(NodeData::FeMerge(FeMerge::default()), false, vec![leaf]);
    let broken = tree.add(NodeData::FeMerge(FeMerge::default()), true, vec![leaf]);
    assert_eq!(tree.len(), 4);
    assert!(render_primitive(&tree, other, &ctx).is_none());
    assert!(render_primitive(&tree, leaf, &ctx).is_none());
    assert!(render_primitive(&tree, 17, &ctx).is_none());
    assert!(tree.get(17).is_none());
    match render_primitive(&tree, merge, &ctx) {
        Some(Ok(MergeStep::Done(result))) => {
            assert_eq!(result.output.surface.pixels(), &vec![RED; 12]);
        }
        _ => panic!("expected the result of the merge"),
    }
    assert!(matches!(
        render_primitive(&tree, broken, &ctx),
        Some(Err(FilterError::ChildNodeInError))
    ));
}

#[test]
fn last_result_is_the_most_recent_entry() {
    let mut ctx = context(RED);
    assert!(ctx.last_result().is_none());
    publish(&mut ctx, Some("a"), GREEN, IRect::new(0, 0, 1, 1));
    publish(&mut ctx, None, BLUE, IRect::new(0, 0, 2, 2));
    let last = ctx.last_result().unwrap();
    assert_eq!(last.surface.pixels()[0], BLUE);
    assert_eq!(last.bounds, IRect::new(0, 0, 2, 2));
    assert_eq!(ctx.source_graphic().pixels()[0], RED);
    assert_eq!(ctx.viewport_transform(), Transform::identity());
}
