//! What holds of every merge: laws over the specifications of `bounds`,
//! `context` and `merge`.

use vstd::prelude::*;
use crate::bounds::PartialBounds;
use crate::chain::{ChainOutcome, ChainRunView, chain_from, chain_resumed, primitive_rendered};
use crate::context::{
    FilterContextView, FilterOutputView, FilterResultView, find_named, name_view,
};
use crate::error::{BackendError, FilterErrorView};
use crate::input::FilterInputView;
use crate::merge::{
    FeMerge, MergePlan, MergeRunView, MergeStepView, bounds_pass, child_inputs, child_outcome,
    child_surface, children_resolve, lemma_merge_keeps_bounds, merge_from, resumed,
};
use crate::node::{MergeChildView, Node, merge_children};
use crate::rect::{IRect, lemma_clamp_within};
use crate::surface::{Operator, SurfaceType, SurfaceView};

verus! {

/// The bounds of what the input of a child resolves to.
pub open spec fn child_bounds(ctx: FilterContextView, child: MergeChildView) -> IRect {
    ctx.resolve(child.input)->Ok_0.bounds
}

/// The effect region of a merge: the rectangle that its bounds pass and
/// the settling of the bounds come to; `None` where the bounds pass fails.
pub open spec fn effect_region(
    merge: FeMerge,
    ctx: FilterContextView,
    children: Seq<MergeChildView>,
) -> Option<IRect> {
    match bounds_pass(ctx, children, 0, merge.primitive().spec_base_bounds()) {
        Ok(partial) => Some(partial.finalized(ctx.filter_region, ctx.viewport_transform)),
        Err(_) => None,
    }
}

/// `hull` is the smallest rectangle whose edges enclose the edges of
/// every child's bounds: it encloses each, and each of its edges is an
/// edge of one of them.
pub open spec fn is_hull(ctx: FilterContextView, children: Seq<MergeChildView>, hull: IRect) -> bool {
    &&& forall|k: int|
        0 <= k < children.len() ==> hull.spec_contains(child_bounds(ctx, #[trigger] children[k]))
    &&& exists|k: int| 0 <= k < children.len() && child_bounds(ctx, #[trigger] children[k]).x0 == hull.x0
    &&& exists|k: int| 0 <= k < children.len() && child_bounds(ctx, #[trigger] children[k]).y0 == hull.y0
    &&& exists|k: int| 0 <= k < children.len() && child_bounds(ctx, #[trigger] children[k]).x1 == hull.x1
    &&& exists|k: int| 0 <= k < children.len() && child_bounds(ctx, #[trigger] children[k]).y1 == hull.y1
}

/// What the bounds have taken in after the first `i` children: nothing
/// before the first child, else the hull of those children.
pub open spec fn taken_in(
    ctx: FilterContextView,
    children: Seq<MergeChildView>,
    i: int,
    inputs: Option<IRect>,
) -> bool {
    if i == 0 {
        inputs is None
    } else {
        inputs matches Some(hull) && is_hull(ctx, children.take(i), hull)
    }
}

proof fn lemma_bounds_pass_hull(
    ctx: FilterContextView,
    children: Seq<MergeChildView>,
    i: int,
    partial: PartialBounds,
)
    requires
        children_resolve(ctx, children),
        0 <= i <= children.len(),
        taken_in(ctx, children, i, partial.inputs),
    ensures
        bounds_pass(ctx, children, i, partial) matches Ok(all) && all.x == partial.x && all.y
            == partial.y && all.width == partial.width && all.height == partial.height && taken_in(
            ctx,
            children,
            children.len() as int,
            all.inputs,
        ),
    decreases children.len() - i,
{
    if i == children.len() {
        assert(children.take(i) =~= children);
    } else {
        let r = child_bounds(ctx, children[i]);
        let next = partial.spec_add_input(r);
        let grown = children.take(i + 1);
        let hull = next.inputs->Some_0;
        assert(grown[i] == children[i]);
        if i > 0 {
            let before = partial.inputs->Some_0;
            let shorter = children.take(i);
            assert forall|k: int| 0 <= k < grown.len() implies hull.spec_contains(
                child_bounds(ctx, #[trigger] grown[k]),
            ) by {
                if k < i {
                    assert(before.spec_contains(child_bounds(ctx, shorter[k])));
                }
            }
            let kx0 = choose|k: int| 0 <= k < i && child_bounds(ctx, #[trigger] shorter[k]).x0 == before.x0;
            let ky0 = choose|k: int| 0 <= k < i && child_bounds(ctx, #[trigger] shorter[k]).y0 == before.y0;
            let kx1 = choose|k: int| 0 <= k < i && child_bounds(ctx, #[trigger] shorter[k]).x1 == before.x1;
            let ky1 = choose|k: int| 0 <= k < i && child_bounds(ctx, #[trigger] shorter[k]).y1 == before.y1;
            assert(child_bounds(ctx, grown[if hull.x0 == r.x0 { i } else { kx0 }]).x0 == hull.x0);
            assert(child_bounds(ctx, grown[if hull.y0 == r.y0 { i } else { ky0 }]).y0 == hull.y0);
            assert(child_bounds(ctx, grown[if hull.x1 == r.x1 { i } else { kx1 }]).x1 == hull.x1);
            assert(child_bounds(ctx, grown[if hull.y1 == r.y1 { i } else { ky1 }]).y1 == hull.y1);
        }
        assert(is_hull(ctx, grown, hull));
        lemma_bounds_pass_hull(ctx, children, i + 1, next);
    }
}

/// Two lists hold the same children, in whatever order and number.
pub open spec fn same_children(a: Seq<MergeChildView>, b: Seq<MergeChildView>) -> bool {
    &&& forall|i: int| 0 <= i < a.len() ==> b.contains(#[trigger] a[i])
    &&& forall|j: int| 0 <= j < b.len() ==> a.contains(#[trigger] b[j])
}

proof fn lemma_hull_unique(
    ctx: FilterContextView,
    a: Seq<MergeChildView>,
    b: Seq<MergeChildView>,
    u: IRect,
    v: IRect,
)
    requires
        same_children(a, b),
        is_hull(ctx, a, u),
        is_hull(ctx, b, v),
    ensures
        u == v,
{
    lemma_hull_encloses(ctx, a, b, u, v);
    lemma_hull_encloses(ctx, b, a, v, u);
}

proof fn lemma_hull_encloses(
    ctx: FilterContextView,
    a: Seq<MergeChildView>,
    b: Seq<MergeChildView>,
    u: IRect,
    v: IRect,
)
    requires
        forall|j: int| 0 <= j < b.len() ==> a.contains(#[trigger] b[j]),
        is_hull(ctx, a, u),
        is_hull(ctx, b, v),
    ensures
        u.spec_contains(v),
{
    let kx0 = choose|k: int| 0 <= k < b.len() && child_bounds(ctx, #[trigger] b[k]).x0 == v.x0;
    let ky0 = choose|k: int| 0 <= k < b.len() && child_bounds(ctx, #[trigger] b[k]).y0 == v.y0;
    let kx1 = choose|k: int| 0 <= k < b.len() && child_bounds(ctx, #[trigger] b[k]).x1 == v.x1;
    let ky1 = choose|k: int| 0 <= k < b.len() && child_bounds(ctx, #[trigger] b[k]).y1 == v.y1;
    lemma_hull_encloses_member(ctx, a, u, b[kx0]);
    lemma_hull_encloses_member(ctx, a, u, b[ky0]);
    lemma_hull_encloses_member(ctx, a, u, b[kx1]);
    lemma_hull_encloses_member(ctx, a, u, b[ky1]);
}

proof fn lemma_hull_encloses_member(
    ctx: FilterContextView,
    a: Seq<MergeChildView>,
    u: IRect,
    child: MergeChildView,
)
    requires
        a.contains(child),
        is_hull(ctx, a, u),
    ensures
        u.spec_contains(child_bounds(ctx, child)),
{
    let k = choose|k: int| 0 <= k < a.len() && a[k] == child;
    assert(u.spec_contains(child_bounds(ctx, a[k])));
}

/// A child that fails fails the bounds pass, wherever it stands.
proof fn lemma_bounds_pass_fails(
    ctx: FilterContextView,
    children: Seq<MergeChildView>,
    i: int,
    partial: PartialBounds,
    k: int,
)
    requires
        0 <= i <= k < children.len(),
        child_outcome(ctx, children[k]) is Err,
    ensures
        bounds_pass(ctx, children, i, partial) is Err,
    decreases k - i,
{
    if i < k {
        match child_outcome(ctx, children[i]) {
            Ok(bounds) => {
                lemma_bounds_pass_fails(ctx, children, i + 1, partial.spec_add_input(bounds), k);
            },
            Err(_) => {},
        }
    }
}

/// The order of the children does not matter to the effect region: two
/// lists that hold the same children give a merge the same rectangle, or
/// both give it none.  There is a rectangle where every child resolves.
pub proof fn lemma_effect_region_ignores_order(
    merge: FeMerge,
    ctx: FilterContextView,
    a: Seq<MergeChildView>,
    b: Seq<MergeChildView>,
)
    requires
        same_children(a, b),
    ensures
        effect_region(merge, ctx, a) == effect_region(merge, ctx, b),
        children_resolve(ctx, a) ==> effect_region(merge, ctx, a) is Some,
{
    let base = merge.primitive().spec_base_bounds();
    if children_resolve(ctx, a) {
        assert(children_resolve(ctx, b)) by {
            assert forall|k: int| 0 <= k < b.len() implies !(#[trigger] b[k]).in_error
                && ctx.resolve(b[k].input) is Ok by {
                let i = choose|i: int| 0 <= i < a.len() && a[i] == b[k];
                assert(!a[i].in_error);
            }
        }
        lemma_bounds_pass_hull(ctx, a, 0, base);
        lemma_bounds_pass_hull(ctx, b, 0, base);
        let pa = bounds_pass(ctx, a, 0, base)->Ok_0;
        let pb = bounds_pass(ctx, b, 0, base)->Ok_0;
        if a.len() == 0 {
            assert(b.len() > 0 ==> a.contains(b[0]));
        } else {
            assert(b.contains(a[0]));
            assert(a.take(a.len() as int) =~= a);
            assert(b.take(b.len() as int) =~= b);
            lemma_hull_unique(ctx, a, b, pa.inputs->Some_0, pb.inputs->Some_0);
        }
    } else {
        let k = choose|k: int|
            0 <= k < a.len() && !(!(#[trigger] a[k]).in_error && ctx.resolve(a[k].input) is Ok);
        lemma_bounds_pass_fails(ctx, a, 0, base, k);
        assert(b.contains(a[k]));
        let j = choose|j: int| 0 <= j < b.len() && b[j] == a[k];
        lemma_bounds_pass_fails(ctx, b, 0, base, j);
    }
}

/// Exchanging two children of a merge leaves its effect region as it is.
pub proof fn lemma_effect_region_ignores_swap(
    merge: FeMerge,
    ctx: FilterContextView,
    children: Seq<MergeChildView>,
    i: int,
    j: int,
)
    requires
        0 <= i < children.len(),
        0 <= j < children.len(),
    ensures
        effect_region(merge, ctx, children) == effect_region(
            merge,
            ctx,
            children.update(i, children[j]).update(j, children[i]),
        ),
{
    let swapped = children.update(i, children[j]).update(j, children[i]);
    assert(same_children(children, swapped)) by {
        assert forall|k: int| 0 <= k < children.len() implies swapped.contains(
            #[trigger] children[k],
        ) by {
            let at = if k == i {
                j
            } else if k == j {
                i
            } else {
                k
            };
            assert(swapped[at] == children[k]);
        }
        assert forall|k: int| 0 <= k < swapped.len() implies children.contains(
            #[trigger] swapped[k],
        ) by {
            let at = if k == j {
                i
            } else if k == i {
                j
            } else {
                k
            };
            assert(children[at] == swapped[k]);
        }
    }
    lemma_effect_region_ignores_order(merge, ctx, children, swapped);
}

/// A merge without children comes to its result at once: a transparent,
/// alpha-only surface of the source graphic's size, whatever geometry the
/// merge states.
pub proof fn lemma_empty_merge(merge: FeMerge, ctx: FilterContextView)
    ensures
        merge.rendered(ctx, Seq::empty()) matches Ok(MergeStepView::Done(result))
            && result.output.surface == SurfaceView::transparent(
            ctx.source_graphic.width,
            ctx.source_graphic.height,
            SurfaceType::AlphaOnly,
        ) && result.output.surface.is_transparent() && result.name == name_view(
            merge.primitive().result,
        ),
{
}

/// A merge with one child comes to its result at once, and the surface
/// of the result is the very surface that the child's input resolves to:
/// nothing is painted.
pub proof fn lemma_single_child_identity(
    merge: FeMerge,
    ctx: FilterContextView,
    child: MergeChildView,
)
    requires
        !child.in_error,
        ctx.resolve(child.input) is Ok,
    ensures
        merge.rendered(ctx, seq![child]) matches Ok(MergeStepView::Done(result))
            && result.output.surface == child_surface(ctx, child),
{
    let children = seq![child];
    let base = merge.primitive().spec_base_bounds();
    assert(children[0] == child);
    assert(bounds_pass(ctx, children, 0, base) is Ok) by {
        lemma_bounds_pass_hull(ctx, children, 0, base);
    }
    assert(child_inputs(children)[0] == child.input);
}

/// With two children, the merge asks for one compositing, in which the
/// input of the later child is on top and that of the earlier child
/// below: exchanging the two exchanges top and bottom.
pub proof fn lemma_later_child_on_top(
    merge: FeMerge,
    ctx: FilterContextView,
    first: MergeChildView,
    second: MergeChildView,
)
    requires
        children_resolve(ctx, seq![first, second]),
    ensures
        merge.rendered(ctx, seq![first, second]) matches Ok(MergeStepView::Compose(request, _))
            && request.top == child_surface(ctx, second) && request.bottom == child_surface(
            ctx,
            first,
        ) && request.operator == Operator::Over,
        merge.rendered(ctx, seq![second, first]) matches Ok(MergeStepView::Compose(request, _))
            && request.top == child_surface(ctx, first) && request.bottom == child_surface(
            ctx,
            second,
        ),
{
    lemma_pair(merge, ctx, first, second);
    assert(children_resolve(ctx, seq![second, first])) by {
        let a = seq![first, second];
        let b = seq![second, first];
        assert(a[0] == first && a[1] == second);
        assert forall|k: int| 0 <= k < b.len() implies !(#[trigger] b[k]).in_error && ctx.resolve(
            b[k].input,
        ) is Ok by {
            assert(b[k] == a[1 - k]);
        }
    }
    lemma_pair(merge, ctx, second, first);
}

proof fn lemma_pair(
    merge: FeMerge,
    ctx: FilterContextView,
    first: MergeChildView,
    second: MergeChildView,
)
    requires
        children_resolve(ctx, seq![first, second]),
    ensures
        merge.rendered(ctx, seq![first, second]) matches Ok(MergeStepView::Compose(request, _))
            && request.top == child_surface(ctx, second) && request.bottom == child_surface(
            ctx,
            first,
        ) && request.operator == Operator::Over,
{
    let children = seq![first, second];
    let base = merge.primitive().spec_base_bounds();
    assert(children[0] == first && children[1] == second);
    assert(bounds_pass(ctx, children, 0, base) is Ok) by {
        lemma_bounds_pass_hull(ctx, children, 0, base);
    }
    assert(child_inputs(children)[0] == first.input && child_inputs(children)[1] == second.input);
}

/// A waiting merge that is handed a buffer of the size of its stack goes
/// on with the child after the one that was painted: the buffer is the
/// new stack, below the input of that child; after the last child, the
/// buffer is the surface of the result.  The bounds never change.
pub proof fn lemma_resume_paints_next(ctx: FilterContextView, run: MergeRunView, pixels: Seq<u32>)
    requires
        0 <= run.next,
        0 <= run.width,
        0 <= run.height,
        pixels.len() == run.width * run.height,
        run.next + 1 < run.plan.inputs.len() ==> ctx.resolve(run.plan.inputs[run.next + 1]) is Ok,
    ensures
        ({
            let stack = SurfaceView {
                width: run.width,
                height: run.height,
                surface_type: run.surface_type,
                pixels,
            };
            if run.next + 1 < run.plan.inputs.len() {
                resumed(ctx, run, Ok(pixels)) matches Ok(MergeStepView::Compose(request, next))
                    && request.bottom == stack && request.top == ctx.resolve(
                    run.plan.inputs[run.next + 1],
                )->Ok_0.surface && request.bounds == run.plan.bounds && request.space
                    == run.plan.space && next.plan == run.plan && next.next == run.next + 1
            } else {
                resumed(ctx, run, Ok(pixels)) == Ok::<MergeStepView, FilterErrorView>(
                    MergeStepView::Done(
                        FilterResultView {
                            name: run.plan.name,
                            output: FilterOutputView { surface: stack, bounds: run.plan.bounds },
                        },
                    ),
                )
            }
        }),
{
}

/// The first child that fails decides how the merge fails: where child
/// `k` fails and no child before it does, the merge fails as that child
/// does.  The merge then asks for no compositing and has no result.
pub proof fn lemma_first_failure_decides(
    merge: FeMerge,
    ctx: FilterContextView,
    children: Seq<MergeChildView>,
    k: int,
)
    requires
        0 <= k < children.len(),
        child_outcome(ctx, children[k]) is Err,
        forall|j: int| 0 <= j < k ==> child_outcome(ctx, #[trigger] children[j]) is Ok,
    ensures
        merge.rendered(ctx, children) == Err::<MergeStepView, FilterErrorView>(
            child_outcome(ctx, children[k])->Err_0,
        ),
{
    lemma_bounds_pass_stops(ctx, children, 0, merge.primitive().spec_base_bounds(), k);
}

proof fn lemma_bounds_pass_stops(
    ctx: FilterContextView,
    children: Seq<MergeChildView>,
    i: int,
    partial: PartialBounds,
    k: int,
)
    requires
        0 <= i <= k < children.len(),
        child_outcome(ctx, children[k]) is Err,
        forall|j: int| 0 <= j < k ==> child_outcome(ctx, #[trigger] children[j]) is Ok,
    ensures
        bounds_pass(ctx, children, i, partial) == Err::<PartialBounds, FilterErrorView>(
            child_outcome(ctx, children[k])->Err_0,
        ),
    decreases k - i,
{
    if i < k {
        let bounds = child_outcome(ctx, children[i])->Ok_0;
        lemma_bounds_pass_stops(ctx, children, i + 1, partial.spec_add_input(bounds), k);
    }
}

/// A child in error fails the merge with `ChildNodeInError`, provided
/// the inputs of the children before it resolve.  The merge then asks
/// for no compositing and has no result.
pub proof fn lemma_child_in_error(
    merge: FeMerge,
    ctx: FilterContextView,
    children: Seq<MergeChildView>,
    k: int,
)
    requires
        0 <= k < children.len(),
        children[k].in_error,
        forall|j: int| 0 <= j < k ==> ctx.resolve((#[trigger] children[j]).input) is Ok,
    ensures
        merge.rendered(ctx, children) == Err::<MergeStepView, FilterErrorView>(
            FilterErrorView::ChildNodeInError,
        ),
{
    lemma_first_in_error(children, k);
    let first = choose|f: int|
        0 <= f <= k && children[f].in_error && forall|j: int|
            0 <= j < f ==> !(#[trigger] children[j]).in_error;
    lemma_first_failure_decides(merge, ctx, children, first);
}

/// Where a child is in error, there is a first such child.
proof fn lemma_first_in_error(children: Seq<MergeChildView>, k: int)
    requires
        0 <= k < children.len(),
        children[k].in_error,
    ensures
        exists|f: int|
            0 <= f <= k && children[f].in_error && forall|j: int|
                0 <= j < f ==> !(#[trigger] children[j]).in_error,
    decreases k,
{
    if exists|j: int| 0 <= j < k && (#[trigger] children[j]).in_error {
        let j = choose|j: int| 0 <= j < k && (#[trigger] children[j]).in_error;
        lemma_first_in_error(children, j);
    }
}

/// A child whose input names a result that was never published fails
/// the merge with `UnknownInput` of that name, provided that neither it
/// nor a child before it is in error and the inputs of the children
/// before it resolve.
pub proof fn lemma_unknown_input(
    merge: FeMerge,
    ctx: FilterContextView,
    children: Seq<MergeChildView>,
    k: int,
    name: Seq<char>,
)
    requires
        0 <= k < children.len(),
        children[k].input == Some(FilterInputView::Named(name)),
        find_named(ctx.results, name) is None,
        forall|j: int| 0 <= j <= k ==> !(#[trigger] children[j]).in_error,
        forall|j: int| 0 <= j < k ==> ctx.resolve((#[trigger] children[j]).input) is Ok,
    ensures
        merge.rendered(ctx, children) == Err::<MergeStepView, FilterErrorView>(
            FilterErrorView::UnknownInput(name),
        ),
{
    lemma_first_failure_decides(merge, ctx, children, k);
}

/// Where every child resolves, the merge does not fail before the
/// backend is asked, and the bounds of the step it comes to are its
/// effect region.
pub proof fn lemma_render_bounds(
    merge: FeMerge,
    ctx: FilterContextView,
    children: Seq<MergeChildView>,
)
    requires
        children_resolve(ctx, children),
    ensures
        match merge.rendered(ctx, children) {
            Ok(MergeStepView::Compose(request, run)) => Some(request.bounds) == effect_region(
                merge,
                ctx,
                children,
            ) && run.plan.bounds == request.bounds,
            Ok(MergeStepView::Done(result)) => Some(result.output.bounds) == effect_region(
                merge,
                ctx,
                children,
            ),
            Err(_) => false,
        },
{
    let base = merge.primitive().spec_base_bounds();
    lemma_bounds_pass_hull(ctx, children, 0, base);
    let partial = bounds_pass(ctx, children, 0, base)->Ok_0;
    let plan = MergePlan {
        name: name_view(merge.primitive().result),
        bounds: partial.finalized(ctx.filter_region, ctx.viewport_transform),
        space: merge.working_space(),
        inputs: child_inputs(children),
    };
    lemma_merge_keeps_bounds(ctx, plan, 0, None);
    lemma_merge_goes_on(ctx, plan, 0, None);
}

/// Where a child is in error or its input does not resolve, the merge
/// fails.
pub proof fn lemma_render_fails(
    merge: FeMerge,
    ctx: FilterContextView,
    children: Seq<MergeChildView>,
)
    requires
        !children_resolve(ctx, children),
    ensures
        merge.rendered(ctx, children) is Err,
{
    let k = choose|k: int|
        0 <= k < children.len() && !(!(#[trigger] children[k]).in_error && ctx.resolve(
            children[k].input,
        ) is Ok);
    lemma_bounds_pass_fails(ctx, children, 0, merge.primitive().spec_base_bounds(), k);
}

/// Where every input of the plan resolves, the compositing pass does
/// not fail.
pub proof fn lemma_merge_goes_on(
    ctx: FilterContextView,
    plan: MergePlan,
    i: int,
    stack: Option<SurfaceView>,
)
    requires
        forall|k: int| 0 <= k < plan.inputs.len() ==> ctx.resolve(#[trigger] plan.inputs[k]) is Ok,
    ensures
        merge_from(ctx, plan, i, stack) is Ok,
{
}

/// A chain that reaches a merge with a child whose input names a result
/// that was never published ends with `UnknownInput` of that name, and
/// the merge publishes nothing: the context is as it was when the merge
/// was reached, so the name of the merge's own result stays unknown too.
/// (The merge itself must not be in error, nor the child or a child
/// before it, and the inputs of the children before it must resolve.)
pub proof fn lemma_chain_unknown_input(
    nodes: Seq<Node>,
    children: Seq<usize>,
    ctx: FilterContextView,
    position: int,
    k: int,
    name: Seq<char>,
)
    requires
        0 <= position < children.len(),
        children[position] < nodes.len(),
        nodes[children[position] as int].data is FeMerge,
        !nodes[children[position] as int].in_error,
        ({
            let kids = merge_children(nodes, nodes[children[position] as int].children@);
            &&& 0 <= k < kids.len()
            &&& kids[k].input == Some(FilterInputView::Named(name))
            &&& forall|j: int| 0 <= j <= k ==> !(#[trigger] kids[j]).in_error
            &&& forall|j: int| 0 <= j < k ==> ctx.resolve((#[trigger] kids[j]).input) is Ok
        }),
        find_named(ctx.results, name) is None,
    ensures
        chain_from(nodes, children, ctx, position) == (ChainOutcome {
            ctx,
            step: Err(FilterErrorView::UnknownInput(name)),
        }),
{
    let node = nodes[children[position] as int];
    lemma_unknown_input(
        node.data->FeMerge_0,
        ctx,
        merge_children(nodes, node.children@),
        k,
        name,
    );
}

/// A chain only ever adds to the log of results: whatever it comes to,
/// the results published before are still there, in their places, and
/// the rest of the context is as it was.  The bounds of every result
/// stay inside the filter region.
pub proof fn lemma_chain_appends(
    nodes: Seq<Node>,
    children: Seq<usize>,
    ctx: FilterContextView,
    position: int,
)
    requires
        ctx.is_valid(),
    ensures
        chain_from(nodes, children, ctx, position).ctx.is_valid(),
        only_appended(ctx, chain_from(nodes, children, ctx, position).ctx),
    decreases children.len() - position,
{
    assert(ctx.results.take(ctx.results.len() as int) =~= ctx.results);
    if 0 <= position < children.len() {
        match primitive_rendered(nodes, children[position], ctx) {
            None => {
                lemma_chain_appends(nodes, children, ctx, position + 1);
            },
            Some(Ok(MergeStepView::Done(result))) => {
                let published = ctx.publish(result);
                lemma_publish_keeps_valid(ctx, result);
                lemma_chain_appends(nodes, children, published, position + 1);
                let after = chain_from(nodes, children, published, position + 1).ctx;
                assert(after.results.take(ctx.results.len() as int) =~= after.results.take(
                    published.results.len() as int,
                ).take(ctx.results.len() as int));
                assert(published.results.take(ctx.results.len() as int) =~= ctx.results);
            },
            _ => {},
        }
    }
}

/// The log of `after` begins with the whole log of `before`, and the two
/// contexts differ in nothing but their logs.
pub open spec fn only_appended(before: FilterContextView, after: FilterContextView) -> bool {
    &&& after.results.len() >= before.results.len()
    &&& after.results.take(before.results.len() as int) == before.results
    &&& after == FilterContextView { results: after.results, ..before }
}

/// A chain that goes on after the backend has painted only ever adds to
/// the log of results, as a chain does from its start.
pub proof fn lemma_chain_resumed_appends(
    nodes: Seq<Node>,
    children: Seq<usize>,
    ctx: FilterContextView,
    run: ChainRunView,
    painted: Result<Seq<u32>, BackendError>,
)
    requires
        ctx.is_valid(),
    ensures
        chain_resumed(nodes, children, ctx, run, painted).ctx.is_valid(),
        only_appended(ctx, chain_resumed(nodes, children, ctx, run, painted).ctx),
{
    assert(ctx.results.take(ctx.results.len() as int) =~= ctx.results);
    match resumed(ctx, run.run, painted) {
        Ok(MergeStepView::Done(result)) => {
            let published = ctx.publish(result);
            lemma_publish_keeps_valid(ctx, result);
            lemma_chain_appends(nodes, children, published, run.position + 1);
            let after = chain_from(nodes, children, published, run.position + 1).ctx;
            assert(after.results.take(ctx.results.len() as int) =~= after.results.take(
                published.results.len() as int,
            ).take(ctx.results.len() as int));
        },
        _ => {},
    }
}

/// Publishing a result adds exactly one entry to the log and keeps the
/// context valid.
pub proof fn lemma_publish_keeps_valid(ctx: FilterContextView, result: FilterResultView)
    requires
        ctx.is_valid(),
    ensures
        ctx.publish(result).is_valid(),
        ctx.publish(result).results.len() == ctx.results.len() + 1,
        ctx.publish(result).results.take(ctx.results.len() as int) == ctx.results,
{
    lemma_clamp_within(result.output.bounds, ctx.filter_region);
    assert(ctx.publish(result).results.take(ctx.results.len() as int) =~= ctx.results);
}

/// A name resolves to the latest entry of the log that bears it: where
/// entry `i` bears the name and no later entry does, the lookup finds the
/// output of entry `i`.
pub proof fn lemma_find_named_latest(results: Seq<FilterResultView>, name: Seq<char>, i: int)
    requires
        0 <= i < results.len(),
        results[i].name == Some(name),
        forall|j: int| i < j < results.len() ==> (#[trigger] results[j]).name != Some(name),
    ensures
        find_named(results, name) == Some(results[i].output),
    decreases results.len(),
{
    if i < results.len() - 1 {
        lemma_find_named_latest(results.drop_last(), name, i);
    }
}

/// A name that no entry of the log bears resolves to nothing.
pub proof fn lemma_find_named_none(results: Seq<FilterResultView>, name: Seq<char>)
    requires
        forall|j: int| 0 <= j < results.len() ==> (#[trigger] results[j]).name != Some(name),
    ensures
        find_named(results, name) is None,
    decreases results.len(),
{
    if results.len() > 0 {
        lemma_find_named_none(results.drop_last(), name);
    }
}

/// A result is found again under its name as soon as it is published,
/// whatever was published under that name before; a result published
/// under another name, or under none, hides nothing.
pub proof fn lemma_publish_shadows(
    ctx: FilterContextView,
    result: FilterResultView,
    name: Seq<char>,
)
    ensures
        result.name == Some(name) ==> ctx.publish(result).resolve(
            Some(FilterInputView::Named(name)),
        ) == Ok::<FilterOutputView, FilterErrorView>(ctx.publish(result).results.last().output),
        result.name != Some(name) ==> ctx.publish(result).resolve(
            Some(FilterInputView::Named(name)),
        ) == ctx.resolve(Some(FilterInputView::Named(name))),
        ctx.publish(result).resolve(None) == Ok::<FilterOutputView, FilterErrorView>(
            ctx.publish(result).results.last().output,
        ),
{
    let log = ctx.publish(result).results;
    assert(log.drop_last() =~= ctx.results);
}

} // verus!
