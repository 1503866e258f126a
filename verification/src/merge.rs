//! The `feMerge` filter primitive: its inputs stacked in document order,
//! each painted over what the earlier ones came to.

use vstd::prelude::*;
use crate::bounds::{PartialBounds, Primitive, PrimitiveView, primitive_attributes};
use crate::context::{
    FilterContext, FilterContextView, FilterOutput, FilterOutputView, FilterResult,
    FilterResultView, input_ref_view, name_view,
};
use crate::error::{BackendError, FilterError, FilterErrorView};
use crate::input::{FilterInput, FilterInputView, input_view, parsed_input};
use crate::laws::{
    lemma_child_in_error, lemma_empty_merge, lemma_render_bounds, lemma_render_fails,
    lemma_single_child_identity,
};
use crate::node::{MergeChildView, Node, NodeArena, merge_children, merge_children_view};
use crate::property_bag::{AttributeView, PropertyBag};
use crate::rect::IRect;
use crate::surface::{Operator, SharedImageSurface, SurfaceType, SurfaceView, surface_view};

verus! {

/// The `feMerge` filter primitive.
pub struct FeMerge {
    base: Primitive,
}

/// The `<feMergeNode>` element.
pub struct FeMergeNode {
    in_: Option<FilterInput>,
}

/// What a merge asks of the graphics backend: to paint `top` onto
/// `bottom` with `operator`, inside `bounds` and nowhere else, working in
/// the colour space `space`.
pub struct ComposeRequest {
    pub top: SharedImageSurface,
    pub bottom: SharedImageSurface,
    pub bounds: IRect,
    pub operator: Operator,
    pub space: SurfaceType,
}

/// The mathematical content of a `ComposeRequest`.
pub ghost struct ComposeRequestView {
    pub top: SurfaceView,
    pub bottom: SurfaceView,
    pub bounds: IRect,
    pub operator: Operator,
    pub space: SurfaceType,
}

impl View for ComposeRequest {
    type V = ComposeRequestView;

    open spec fn view(&self) -> ComposeRequestView {
        ComposeRequestView {
            top: self.top@,
            bottom: self.bottom@,
            bounds: self.bounds,
            operator: self.operator,
            space: self.space,
        }
    }
}

/// What one `feMergeNode` adds to the stack.
pub enum MergeLayer {
    /// The first layer: the input itself, with nothing painted.
    Base(SharedImageSurface),
    /// A later layer: the input is to be painted over the stack so far.
    Over(ComposeRequest),
}

/// The mathematical content of a `MergeLayer`.
pub ghost enum MergeLayerView {
    Base(SurfaceView),
    Over(ComposeRequestView),
}

impl View for MergeLayer {
    type V = MergeLayerView;

    open spec fn view(&self) -> MergeLayerView {
        match *self {
            MergeLayer::Base(s) => MergeLayerView::Base(s@),
            MergeLayer::Over(r) => MergeLayerView::Over(r@),
        }
    }
}

/// The layer that an input adds to a stack: the base where the stack is
/// empty, else a compositing with the input on top.
pub open spec fn merge_layer(
    input: SurfaceView,
    stack: Option<SurfaceView>,
    bounds: IRect,
    space: SurfaceType,
) -> MergeLayerView {
    match stack {
        None => MergeLayerView::Base(input),
        Some(bottom) => MergeLayerView::Over(
            ComposeRequestView { top: input, bottom, bounds, operator: Operator::Over, space },
        ),
    }
}

/// What a list of attributes does to the input of an `feMergeNode`:
/// each `in` attribute in no namespace sets it, the last one standing.
/// The flag is `false` where an `in` attribute denotes no input; the
/// input is then what the attributes before had made it.
pub open spec fn merge_node_attributes(
    current: Option<FilterInputView>,
    attrs: Seq<AttributeView>,
) -> (Option<FilterInputView>, bool)
    decreases attrs.len(),
{
    if attrs.len() == 0 {
        (current, true)
    } else if attrs[0].name.is(""@, "in"@) {
        match parsed_input(attrs[0].value) {
            Some(input) => merge_node_attributes(Some(input), attrs.skip(1)),
            None => (current, false),
        }
    } else {
        merge_node_attributes(current, attrs.skip(1))
    }
}

impl Default for FeMergeNode {
    /// A node without an `in` attribute: it refers to the previous result.
    fn default() -> (node: FeMergeNode)
        ensures
            node.input() is None,
    {
        FeMergeNode { in_: None }
    }
}

impl FeMergeNode {
    /// The input that the node refers to; `None` where it has no `in`
    /// attribute.
    pub closed spec fn input(&self) -> Option<FilterInputView> {
        input_view(self.in_)
    }

    /// A node that refers to the given input.
    pub fn new(in_: Option<FilterInput>) -> (node: FeMergeNode)
        ensures
            node.input() == input_view(in_),
    {
        FeMergeNode { in_ }
    }

    /// The input that the node refers to.
    pub fn input_ref(&self) -> (input: Option<&FilterInput>)
        ensures
            input_ref_view(input) == self.input(),
    {
        self.in_.as_ref()
    }

    /// A copy of the node.
    pub fn duplicate(&self) -> (copy: FeMergeNode)
        ensures
            copy.input() == self.input(),
    {
        FeMergeNode {
            in_: match &self.in_ {
                Some(i) => Some(i.duplicate()),
                None => None,
            },
        }
    }

    /// Sets the node up from the attributes of its element: each `in`
    /// attribute in no namespace sets the input.  Fails with
    /// `InvalidAttributeValue` at the first `in` whose value denotes no
    /// input; the node then keeps what it had.
    pub fn set_atts(&mut self, pbag: &PropertyBag) -> (r: Result<(), FilterError>)
        ensures
            final(self).input() == merge_node_attributes(old(self).input(), pbag@).0,
            match r {
                Ok(_) => merge_node_attributes(old(self).input(), pbag@).1,
                Err(e) => !merge_node_attributes(old(self).input(), pbag@).1 && e@
                    == FilterErrorView::InvalidAttributeValue("in"@),
            },
    {
        let ghost goal = merge_node_attributes(self.input(), pbag@);
        let mut it = pbag.iter();
        loop
            invariant
                goal == merge_node_attributes(old(self).input(), pbag@),
                goal == merge_node_attributes(self.input(), it.rest()),
            decreases it.rest().len(),
        {
            let (name, value) = match it.next() {
                Some(item) => item,
                None => {
                    return Ok(());
                },
            };
            if name.is("", "in") {
                match FilterInput::parse("in", value.as_str()) {
                    Ok(input) => {
                        self.in_ = Some(input);
                    },
                    Err(e) => {
                        return Err(e);
                    },
                }
            }
        }
    }

    /// Resolves the node's input and says what it adds to the stack
    /// `output_surface`: the first layer is the input as it is, every
    /// later one a compositing of the input over the stack.  Fails as the
    /// resolution of the input fails.
    pub fn render(
        &self,
        ctx: &FilterContext,
        bounds: IRect,
        output_surface: Option<SharedImageSurface>,
        space: SurfaceType,
    ) -> (r: Result<MergeLayer, FilterError>)
        ensures
            match ctx@.resolve(self.input()) {
                Ok(input) => r matches Ok(layer) && layer@ == merge_layer(
                    input.surface,
                    surface_view(output_surface),
                    bounds,
                    space,
                ),
                Err(e) => r matches Err(f) && f@ == e,
            },
    {
        let input = match ctx.get_input(self.in_.as_ref()) {
            Ok(input) => input,
            Err(e) => {
                return Err(e);
            },
        };
        match output_surface {
            None => Ok(MergeLayer::Base(input.surface)),
            Some(bottom) => Ok(
                MergeLayer::Over(
                    ComposeRequest {
                        top: input.surface,
                        bottom,
                        bounds,
                        operator: Operator::Over,
                        space,
                    },
                ),
            ),
        }
    }
}

/// What a merge is to come to: the name and the bounds of its result,
/// its working colour space, and the inputs of its `feMergeNode`
/// children in document order.
pub ghost struct MergePlan {
    pub name: Option<Seq<char>>,
    pub bounds: IRect,
    pub space: SurfaceType,
    pub inputs: Seq<Option<FilterInputView>>,
}

/// A merge that waits for the backend to paint one layer.
pub ghost struct MergeRunView {
    pub plan: MergePlan,
    /// The index of the child whose input is being painted over the stack.
    pub next: int,
    /// The size of the stack, which the painted surface must have.
    pub width: int,
    pub height: int,
    /// The type of the painted surface.
    pub surface_type: SurfaceType,
}

/// Where a merge stands.
pub ghost enum MergeStepView {
    /// The backend is asked to paint; the merge goes on from the run.
    Compose(ComposeRequestView, MergeRunView),
    /// Every layer is in place: the result.
    Done(FilterResultView),
}

/// The inputs of a list of merge children.
pub open spec fn child_inputs(children: Seq<MergeChildView>) -> Seq<Option<FilterInputView>> {
    Seq::new(children.len(), |i: int| children[i].input)
}

/// No child is in error and the input of every child resolves.
pub open spec fn children_resolve(ctx: FilterContextView, children: Seq<MergeChildView>) -> bool {
    forall|k: int|
        0 <= k < children.len() ==> !(#[trigger] children[k]).in_error && ctx.resolve(
            children[k].input,
        ) is Ok
}

/// The surface that the input of a child resolves to.
pub open spec fn child_surface(ctx: FilterContextView, child: MergeChildView) -> SurfaceView {
    ctx.resolve(child.input)->Ok_0.surface
}

/// What a child has for the bounds of its merge: the bounds of the input
/// it refers to; `ChildNodeInError` where the child is in error, or else
/// the error of resolving its input.
pub open spec fn child_outcome(ctx: FilterContextView, child: MergeChildView) -> Result<
    IRect,
    FilterErrorView,
> {
    if child.in_error {
        Err(FilterErrorView::ChildNodeInError)
    } else {
        match ctx.resolve(child.input) {
            Ok(input) => Ok(input.bounds),
            Err(e) => Err(e),
        }
    }
}

/// The bounds pass from child `i` on: the bounds of the children's
/// inputs are taken into `partial` one after the other.  The first child
/// that fails decides the error.
pub open spec fn bounds_pass(
    ctx: FilterContextView,
    children: Seq<MergeChildView>,
    i: int,
    partial: PartialBounds,
) -> Result<PartialBounds, FilterErrorView>
    decreases children.len() - i,
{
    if i < 0 || i >= children.len() {
        Ok(partial)
    } else {
        match child_outcome(ctx, children[i]) {
            Err(e) => Err(e),
            Ok(bounds) => bounds_pass(ctx, children, i + 1, partial.spec_add_input(bounds)),
        }
    }
}

/// The result of a merge whose layers came to `surface`.
pub open spec fn merge_result(plan: MergePlan, surface: SurfaceView) -> FilterResultView {
    FilterResultView {
        name: plan.name,
        output: FilterOutputView { surface, bounds: plan.bounds },
    }
}

/// The step of a merge whose children before `i` came to `stack`.
///
/// Where there is a child `i`, its input is to be painted over the
/// stack: the merge asks for that compositing and waits.  Where there is
/// none, the stack is the surface of the result.
pub open spec fn merge_next(
    ctx: FilterContextView,
    plan: MergePlan,
    i: int,
    stack: SurfaceView,
) -> Result<MergeStepView, FilterErrorView> {
    if 0 <= i < plan.inputs.len() {
        match ctx.resolve(plan.inputs[i]) {
            Err(e) => Err(e),
            Ok(input) => Ok(
                MergeStepView::Compose(
                    ComposeRequestView {
                        top: input.surface,
                        bottom: stack,
                        bounds: plan.bounds,
                        operator: Operator::Over,
                        space: plan.space,
                    },
                    MergeRunView {
                        plan,
                        next: i,
                        width: stack.width,
                        height: stack.height,
                        surface_type: input.surface.surface_type.spec_combine(
                            stack.surface_type,
                            plan.space,
                        ),
                    },
                ),
            ),
        }
    } else {
        Ok(MergeStepView::Done(merge_result(plan, stack)))
    }
}

/// The compositing pass from child `i` on, with `stack` being what the
/// children before `i` came to, if anything.
///
/// On an empty stack, the input of child `i` becomes the stack as it is,
/// with nothing painted, and the merge goes on with the child after it.
/// With no child to begin with, the result is a transparent alpha-only
/// surface of the source graphic's size.
pub open spec fn merge_from(
    ctx: FilterContextView,
    plan: MergePlan,
    i: int,
    stack: Option<SurfaceView>,
) -> Result<MergeStepView, FilterErrorView> {
    match stack {
        Some(bottom) => merge_next(ctx, plan, i, bottom),
        None => if 0 <= i < plan.inputs.len() {
            match ctx.resolve(plan.inputs[i]) {
                Err(e) => Err(e),
                Ok(first) => merge_next(ctx, plan, i + 1, first.surface),
            }
        } else {
            Ok(
                MergeStepView::Done(
                    merge_result(
                        plan,
                        SurfaceView::transparent(
                            ctx.source_graphic.width,
                            ctx.source_graphic.height,
                            SurfaceType::AlphaOnly,
                        ),
                    ),
                ),
            )
        },
    }
}

/// How a waiting merge goes on with what the backend hands back.
///
/// A failure of the backend ends the merge.  So does a pixel buffer that
/// has not the size of the stack.  Else the buffer is the new stack, and
/// the compositing pass goes on with the next child.
pub open spec fn resumed(
    ctx: FilterContextView,
    run: MergeRunView,
    painted: Result<Seq<u32>, BackendError>,
) -> Result<MergeStepView, FilterErrorView> {
    match painted {
        Err(e) => Err(FilterErrorView::BackendError(e)),
        Ok(pixels) => if run.width < 0 || run.height < 0 || pixels.len() != run.width
            * run.height {
            Err(FilterErrorView::BackendError(BackendError::InvalidSize))
        } else {
            merge_next(
                ctx,
                run.plan,
                run.next + 1,
                SurfaceView {
                    width: run.width,
                    height: run.height,
                    surface_type: run.surface_type,
                    pixels,
                },
            )
        },
    }
}

/// The pixels that the backend painted, or its failure, as a
/// specification value.
pub open spec fn painted_view(painted: Result<Vec<u32>, BackendError>) -> Result<
    Seq<u32>,
    BackendError,
> {
    match painted {
        Ok(pixels) => Ok(pixels@),
        Err(e) => Err(e),
    }
}

/// A merge that waits for the backend to paint one layer.  It goes on
/// with `resume`.
pub struct MergeRun {
    name: Option<String>,
    bounds: IRect,
    space: SurfaceType,
    nodes: Vec<FeMergeNode>,
    next: usize,
    width: i32,
    height: i32,
    surface_type: SurfaceType,
}

/// The inputs of a list of nodes.
pub open spec fn node_inputs(nodes: Seq<FeMergeNode>) -> Seq<Option<FilterInputView>> {
    Seq::new(nodes.len(), |i: int| nodes[i].input())
}

impl View for MergeRun {
    type V = MergeRunView;

    closed spec fn view(&self) -> MergeRunView {
        MergeRunView {
            plan: MergePlan {
                name: name_view(self.name),
                bounds: self.bounds,
                space: self.space,
                inputs: node_inputs(self.nodes@),
            },
            next: self.next as int,
            width: self.width as int,
            height: self.height as int,
            surface_type: self.surface_type,
        }
    }
}

/// Where a merge stands.
pub enum MergeStep {
    /// The backend is asked to paint what the request says; the merge
    /// goes on from the run with what was painted.
    Compose(ComposeRequest, MergeRun),
    /// Every layer is in place: the result of the primitive.
    Done(FilterResult),
}

impl View for MergeStep {
    type V = MergeStepView;

    open spec fn view(&self) -> MergeStepView {
        match *self {
            MergeStep::Compose(request, run) => MergeStepView::Compose(request@, run@),
            MergeStep::Done(result) => MergeStepView::Done(result@),
        }
    }
}

/// `r` is the outcome `expected`, seen through the views.
pub open spec fn step_is(
    r: Result<MergeStep, FilterError>,
    expected: Result<MergeStepView, FilterErrorView>,
) -> bool {
    match r {
        Ok(step) => expected == Ok::<MergeStepView, FilterErrorView>(step@),
        Err(e) => expected == Err::<MergeStepView, FilterErrorView>(e@),
    }
}

/// The merge has come to its result, whose surface is `surface`.
pub open spec fn is_done_with(r: Result<MergeStep, FilterError>, surface: SurfaceView) -> bool {
    r matches Ok(MergeStep::Done(result)) && result.output.surface@ == surface
}

/// The merge has failed with `error`.
pub open spec fn fails_with(r: Result<MergeStep, FilterError>, error: FilterErrorView) -> bool {
    r matches Err(e) && e@ == error
}

/// A copy of a name.
fn duplicate_name(name: &Option<String>) -> (copy: Option<String>)
    ensures
        copy == *name,
{
    match name {
        Some(n) => Some(n.clone()),
        None => None,
    }
}

/// The compositing pass from node `start` on.
fn merge_onward(
    ctx: &FilterContext,
    name: Option<String>,
    bounds: IRect,
    space: SurfaceType,
    nodes: Vec<FeMergeNode>,
    start: usize,
    stack: Option<SharedImageSurface>,
) -> (r: Result<MergeStep, FilterError>)
    ensures
        step_is(
            r,
            merge_from(
                ctx@,
                MergePlan { name: name_view(name), bounds, space, inputs: node_inputs(nodes@) },
                start as int,
                surface_view(stack),
            ),
        ),
{
    let ghost plan = MergePlan {
        name: name_view(name),
        bounds,
        space,
        inputs: node_inputs(nodes@),
    };
    let ghost below = surface_view(stack);
    let ghost goal = merge_from(ctx@, plan, start as int, below);
    let mut current = stack;
    let mut i: usize = start;
    while i < nodes.len()
        invariant
            start <= i,
            plan == (MergePlan {
                name: name_view(name),
                bounds,
                space,
                inputs: node_inputs(nodes@),
            }),
            below == surface_view(stack),
            goal == merge_from(ctx@, plan, start as int, below),
            goal == merge_from(ctx@, plan, i as int, surface_view(current)),
        decreases nodes@.len() - i,
    {
        let layer = match nodes[i].render(ctx, bounds, current, space) {
            Ok(layer) => layer,
            Err(e) => {
                return Err(e);
            },
        };
        match layer {
            MergeLayer::Base(surface) => {
                current = Some(surface);
                i += 1;
            },
            MergeLayer::Over(request) => {
                let run = MergeRun {
                    name,
                    bounds,
                    space,
                    next: i,
                    width: request.bottom.width(),
                    height: request.bottom.height(),
                    surface_type: request.top.surface_type().combine(
                        request.bottom.surface_type(),
                        space,
                    ),
                    nodes,
                };
                return Ok(MergeStep::Compose(request, run));
            },
        }
    }
    let surface = match current {
        Some(s) => s,
        None => ctx.source_graphic().transparent_like(SurfaceType::AlphaOnly),
    };
    Ok(MergeStep::Done(FilterResult { name, output: FilterOutput { surface, bounds } }))
}

impl MergeRun {
    /// Goes on with the merge after the backend has answered the request
    /// that came with this run: `painted` holds the pixels of the new
    /// stack, row after row, or the backend's failure.
    pub fn resume(self, ctx: &FilterContext, painted: Result<Vec<u32>, BackendError>) -> (r: Result<
        MergeStep,
        FilterError,
    >)
        ensures
            step_is(
                r,
                resumed(ctx@, self@, painted_view(painted)),
            ),
    {
        let pixels = match painted {
            Ok(pixels) => pixels,
            Err(e) => {
                return Err(FilterError::BackendError(e));
            },
        };
        let stack = match SharedImageSurface::from_pixels(
            self.width,
            self.height,
            self.surface_type,
            pixels,
        ) {
            Ok(s) => s,
            Err(e) => {
                return Err(FilterError::BackendError(e));
            },
        };
        if self.next >= self.nodes.len() {
            return Ok(
                MergeStep::Done(
                    FilterResult {
                        name: self.name,
                        output: FilterOutput { surface: stack, bounds: self.bounds },
                    },
                ),
            );
        }
        merge_onward(
            ctx,
            self.name,
            self.bounds,
            self.space,
            self.nodes,
            self.next + 1,
            Some(stack),
        )
    }
}

impl Default for FeMerge {
    /// A merge with no geometry and no name.
    fn default() -> (merge: FeMerge)
        ensures
            merge.primitive()@ == PrimitiveView::initial(),
    {
        FeMerge { base: Primitive::new() }
    }
}

impl FeMerge {
    /// What the merge has in common with every primitive.
    pub closed spec fn primitive(&self) -> Primitive {
        self.base
    }

    /// The colour space in which the merge works.
    pub open spec fn working_space(&self) -> SurfaceType {
        self.primitive().color_interpolation_filters.spec_surface_type()
    }

    /// What rendering the merge comes to, with `children` being its
    /// `feMergeNode` children: the bounds pass over all of them, then the
    /// compositing pass up to the first compositing, or to the result.
    pub open spec fn rendered(&self, ctx: FilterContextView, children: Seq<MergeChildView>) -> Result<
        MergeStepView,
        FilterErrorView,
    > {
        match bounds_pass(ctx, children, 0, self.primitive().spec_base_bounds()) {
            Err(e) => Err(e),
            Ok(partial) => merge_from(
                ctx,
                MergePlan {
                    name: name_view(self.primitive().result),
                    bounds: partial.finalized(ctx.filter_region, ctx.viewport_transform),
                    space: self.working_space(),
                    inputs: child_inputs(children),
                },
                0,
                None,
            ),
        }
    }

    /// A merge with the given geometry, name and working space.
    pub fn new(base: Primitive) -> (merge: FeMerge)
        ensures
            merge.primitive() == base,
    {
        FeMerge { base }
    }

    /// Sets the merge up from the attributes of its element, as every
    /// primitive is set up.
    pub fn set_atts(&mut self, pbag: &PropertyBag) -> (r: Result<(), FilterError>)
        ensures
            final(self).primitive()@ == primitive_attributes(old(self).primitive()@, pbag@).0,
            match r {
                Ok(_) => primitive_attributes(old(self).primitive()@, pbag@).1 is None,
                Err(e) => primitive_attributes(old(self).primitive()@, pbag@).1 matches Some(
                    attribute,
                ) && e@ == FilterErrorView::InvalidAttributeValue(attribute),
            },
    {
        self.base.set_atts(pbag)
    }

    /// What the merge has in common with every primitive.
    pub fn base(&self) -> (base: &Primitive)
        ensures
            *base == self.primitive(),
    {
        &self.base
    }

    /// The merge works in the colour space that
    /// `color-interpolation-filters` selects.
    pub fn is_affected_by_color_interpolation_filters(&self) -> (affected: bool)
        ensures
            affected,
    {
        true
    }

    /// Renders the merge, whose element is `node`, as far as it goes
    /// without the backend.
    ///
    /// First the bounds: every `feMergeNode` child of `node`, in document
    /// order, must not be in error (else `ChildNodeInError`) and its
    /// input must resolve (else the error of the resolution); the first
    /// child that fails decides.  No compositing is asked for before
    /// every child has passed.  Then the layers, up to the first
    /// compositing or, with fewer than two children, to the result.
    ///
    /// So the merge fails exactly where a child fails.  Without children
    /// the result is transparent, alpha-only and of the source graphic's
    /// size; with one child it is the surface of that child's input,
    /// unpainted.  Whatever bounds the step holds lie inside the filter
    /// region.
    pub fn render(&self, node: &Node, tree: &NodeArena, ctx: &FilterContext) -> (r: Result<
        MergeStep,
        FilterError,
    >)
        ensures
            step_is(r, self.rendered(ctx@, merge_children(tree@, node.children@))),
            ({
                let kids = merge_children(tree@, node.children@);
                &&& r is Ok <==> children_resolve(ctx@, kids)
                &&& kids.len() == 0 ==> is_done_with(
                    r,
                    SurfaceView::transparent(
                        ctx@.source_graphic.width,
                        ctx@.source_graphic.height,
                        SurfaceType::AlphaOnly,
                    ),
                )
                &&& kids.len() == 1 && r is Ok ==> is_done_with(r, child_surface(ctx@, kids[0]))
                &&& forall|k: int|
                    0 <= k < kids.len() && (#[trigger] kids[k]).in_error && (forall|j: int|
                        0 <= j < k ==> ctx@.resolve((#[trigger] kids[j]).input) is Ok)
                        ==> fails_with(r, FilterErrorView::ChildNodeInError)
            }),
            r matches Ok(MergeStep::Compose(request, _)) ==> ctx@.filter_region.spec_contains(
                request.bounds,
            ),
            r matches Ok(MergeStep::Done(result)) ==> ctx@.filter_region.spec_contains(
                result.output.bounds,
            ),
    {
        let r = self.render_steps(node, tree, ctx);
        proof {
            let kids = merge_children(tree@, node.children@);
            if children_resolve(ctx@, kids) {
                lemma_render_bounds(*self, ctx@, kids);
                if kids.len() == 1 {
                    assert(kids =~= seq![kids[0]]);
                    lemma_single_child_identity(*self, ctx@, kids[0]);
                }
            } else {
                lemma_render_fails(*self, ctx@, kids);
            }
            if kids.len() == 0 {
                assert(kids =~= Seq::empty());
                lemma_empty_merge(*self, ctx@);
            }
            assert forall|k: int|
                0 <= k < kids.len() && (#[trigger] kids[k]).in_error && (forall|j: int|
                    0 <= j < k ==> ctx@.resolve((#[trigger] kids[j]).input) is Ok) implies fails_with(
                r,
                FilterErrorView::ChildNodeInError,
            ) by {
                lemma_child_in_error(*self, ctx@, kids, k);
            }
        }
        r
    }

    /// The bounds pass and the compositing pass up to its first step.
    fn render_steps(&self, node: &Node, tree: &NodeArena, ctx: &FilterContext) -> (r: Result<
        MergeStep,
        FilterError,
    >)
        ensures
            step_is(r, self.rendered(ctx@, merge_children(tree@, node.children@))),
            r matches Ok(MergeStep::Compose(request, _)) ==> ctx@.filter_region.spec_contains(
                request.bounds,
            ),
            r matches Ok(MergeStep::Done(result)) ==> ctx@.filter_region.spec_contains(
                result.output.bounds,
            ),
    {
        let children = tree.merge_children(node);
        let ghost kids = merge_children(tree@, node.children@);
        let mut bounds = self.base.base_bounds();
        let mut nodes: Vec<FeMergeNode> = Vec::new();
        let mut i: usize = 0;
        while i < children.len()
            invariant
                i <= children@.len(),
                kids == merge_children_view(children@),
                kids == merge_children(tree@, node.children@),
                nodes@.len() == i,
                forall|k: int| 0 <= k < i ==> (#[trigger] nodes@[k]).input() == kids[k].input,
                bounds_pass(ctx@, kids, 0, self.primitive().spec_base_bounds()) == bounds_pass(
                    ctx@,
                    kids,
                    i as int,
                    bounds,
                ),
            decreases children@.len() - i,
        {
            let child = &children[i];
            if child.in_error {
                return Err(FilterError::ChildNodeInError);
            }
            let input = match ctx.get_input(child.node.input_ref()) {
                Ok(input) => input,
                Err(e) => {
                    return Err(e);
                },
            };
            bounds = bounds.add_input(&input);
            nodes.push(child.node.duplicate());
            i += 1;
        }
        let bounds = bounds.into_irect(ctx);
        let space = if self.is_affected_by_color_interpolation_filters() {
            self.base.color_interpolation_filters.surface_type()
        } else {
            SurfaceType::SRgb
        };
        assert(node_inputs(nodes@) =~= child_inputs(kids));
        let name = duplicate_name(&self.base.result);
        let r = merge_onward(ctx, name, bounds, space, nodes, 0, None);
        proof {
            lemma_merge_keeps_bounds(
                ctx@,
                MergePlan {
                    name: name_view(name),
                    bounds,
                    space,
                    inputs: child_inputs(kids),
                },
                0,
                None,
            );
        }
        r
    }
}

/// Whatever step the compositing pass comes to, the bounds in it are
/// those of the plan.
pub proof fn lemma_merge_keeps_bounds(
    ctx: FilterContextView,
    plan: MergePlan,
    i: int,
    stack: Option<SurfaceView>,
)
    ensures
        match merge_from(ctx, plan, i, stack) {
            Ok(MergeStepView::Compose(request, run)) => request.bounds == plan.bounds && run.plan
                == plan,
            Ok(MergeStepView::Done(result)) => result.output.bounds == plan.bounds,
            Err(_) => true,
        },
{
}

} // verus!
