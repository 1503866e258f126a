//! The chain of primitives of one filter: each primitive in document
//! order is rendered and its result published, until the chain has its
//! output or fails.

use vstd::prelude::*;
use crate::context::{FilterContext, FilterContextView, FilterOutput, FilterOutputView};
use crate::error::{BackendError, FilterError, FilterErrorView};
use crate::laws::{lemma_chain_appends, lemma_chain_resumed_appends, only_appended};
use crate::merge::{
    ComposeRequest, ComposeRequestView, FeMerge, MergeRun, MergeRunView, MergeStep, MergeStepView,
    painted_view, resumed, step_is,
};
use crate::node::{Node, NodeArena, NodeData, merge_children};
use crate::surface::{SurfaceType, SurfaceView};

verus! {

/// A chain that waits for the backend to paint one layer of the
/// primitive at `position` among the children of the filter.
pub ghost struct ChainRunView {
    pub position: int,
    pub run: MergeRunView,
}

/// Where a chain stands.
pub ghost enum ChainStepView {
    /// The backend is asked to paint; the chain goes on from the run.
    Compose(ComposeRequestView, ChainRunView),
    /// Every primitive has published its result: the output of the chain.
    Finished(FilterOutputView),
}

/// A chain together with the context it has brought about.
pub ghost struct ChainOutcome {
    pub ctx: FilterContextView,
    pub step: Result<ChainStepView, FilterErrorView>,
}

/// The output of a chain that has run through: the most recent result,
/// or, where nothing was published, a transparent alpha-only surface of
/// the source graphic's size over the whole filter region.
pub open spec fn final_output(ctx: FilterContextView) -> FilterOutputView {
    if ctx.results.len() > 0 {
        ctx.results.last().output
    } else {
        FilterOutputView {
            surface: SurfaceView::transparent(
                ctx.source_graphic.width,
                ctx.source_graphic.height,
                SurfaceType::AlphaOnly,
            ),
            bounds: ctx.filter_region,
        }
    }
}

/// What rendering the node with index `id` as a filter primitive comes
/// to; `None` where there is no such node or the node is no filter
/// primitive.  A primitive in error is not rendered: it fails with
/// `ChildNodeInError`.
pub open spec fn primitive_rendered(nodes: Seq<Node>, id: usize, ctx: FilterContextView) -> Option<
    Result<MergeStepView, FilterErrorView>,
> {
    if id < nodes.len() {
        match nodes[id as int].data {
            NodeData::FeMerge(merge) => Some(
                if nodes[id as int].in_error {
                    Err(FilterErrorView::ChildNodeInError)
                } else {
                    merge.rendered(ctx, merge_children(nodes, nodes[id as int].children@))
                },
            ),
            _ => None,
        }
    } else {
        None
    }
}

/// The chain from child `position` of the filter on.
///
/// A child that is no filter primitive is passed over.  Any other child
/// is rendered against the context as it then is: its result is
/// published and the chain goes on with the next child; a request for
/// the backend stops the chain; a failure ends the chain and leaves the
/// context as it was before that primitive.
pub open spec fn chain_from(
    nodes: Seq<Node>,
    children: Seq<usize>,
    ctx: FilterContextView,
    position: int,
) -> ChainOutcome
    decreases children.len() - position,
{
    if position < 0 || position >= children.len() {
        ChainOutcome { ctx, step: Ok(ChainStepView::Finished(final_output(ctx))) }
    } else {
        match primitive_rendered(nodes, children[position], ctx) {
            None => chain_from(nodes, children, ctx, position + 1),
            Some(Err(e)) => ChainOutcome { ctx, step: Err(e) },
            Some(Ok(MergeStepView::Compose(request, run))) => ChainOutcome {
                ctx,
                step: Ok(ChainStepView::Compose(request, ChainRunView { position, run })),
            },
            Some(Ok(MergeStepView::Done(result))) => chain_from(
                nodes,
                children,
                ctx.publish(result),
                position + 1,
            ),
        }
    }
}

/// A chain that waits for the backend to paint one layer.  It goes on
/// with `resume`.
pub struct ChainRun {
    position: usize,
    run: MergeRun,
}

impl View for ChainRun {
    type V = ChainRunView;

    closed spec fn view(&self) -> ChainRunView {
        ChainRunView { position: self.position as int, run: self.run@ }
    }
}

/// Where a chain stands.
pub enum ChainStep {
    /// The backend is asked to paint what the request says; the chain
    /// goes on from the run with what was painted.
    Compose(ComposeRequest, ChainRun),
    /// The output of the chain.
    Finished(FilterOutput),
}

impl View for ChainStep {
    type V = ChainStepView;

    open spec fn view(&self) -> ChainStepView {
        match *self {
            ChainStep::Compose(request, run) => ChainStepView::Compose(request@, run@),
            ChainStep::Finished(output) => ChainStepView::Finished(output@),
        }
    }
}

/// `r` is the outcome `expected`, seen through the views.
pub open spec fn chain_step_is(
    r: Result<ChainStep, FilterError>,
    expected: Result<ChainStepView, FilterErrorView>,
) -> bool {
    match r {
        Ok(step) => expected == Ok::<ChainStepView, FilterErrorView>(step@),
        Err(e) => expected == Err::<ChainStepView, FilterErrorView>(e@),
    }
}

/// The output of a chain that has run through.
fn chain_output(ctx: &FilterContext) -> (output: FilterOutput)
    ensures
        output@ == final_output(ctx@),
{
    match ctx.last_result() {
        Some(output) => output,
        None => FilterOutput {
            surface: ctx.source_graphic().transparent_like(SurfaceType::AlphaOnly),
            bounds: ctx.filter_region(),
        },
    }
}

/// Renders the node with index `id` by its kind, as far as it goes
/// without the backend.  `None` where the node is no filter primitive.
pub fn render_primitive(tree: &NodeArena, id: usize, ctx: &FilterContext) -> (r: Option<
    Result<MergeStep, FilterError>,
>)
    ensures
        match r {
            Some(step) => primitive_rendered(tree@, id, ctx@) matches Some(expected) && step_is(
                step,
                expected,
            ),
            None => primitive_rendered(tree@, id, ctx@) is None,
        },
{
    match tree.get(id) {
        Some(node) => match &node.data {
            NodeData::FeMerge(merge) => {
                if node.in_error {
                    Some(Err(FilterError::ChildNodeInError))
                } else {
                    Some(merge.render(node, tree, ctx))
                }
            },
            _ => None,
        },
        None => None,
    }
}

/// The chain from child `start` of the filter on.
fn chain_onward(
    filter: &Node,
    tree: &NodeArena,
    ctx: &mut FilterContext,
    start: usize,
) -> (r: Result<ChainStep, FilterError>)
    ensures
        final(ctx)@ == chain_from(tree@, filter.children@, old(ctx)@, start as int).ctx,
        chain_step_is(r, chain_from(tree@, filter.children@, old(ctx)@, start as int).step),
{
    let ghost goal = chain_from(tree@, filter.children@, ctx@, start as int);
    let mut position: usize = start;
    while position < filter.children.len()
        invariant
            goal == chain_from(tree@, filter.children@, old(ctx)@, start as int),
            goal == chain_from(tree@, filter.children@, ctx@, position as int),
        decreases filter.children@.len() - position,
    {
        match render_primitive(tree, filter.children[position], ctx) {
            None => {},
            Some(Err(e)) => {
                return Err(e);
            },
            Some(Ok(MergeStep::Compose(request, run))) => {
                return Ok(ChainStep::Compose(request, ChainRun { position, run }));
            },
            Some(Ok(MergeStep::Done(result))) => {
                ctx.store_result(result);
            },
        }
        position += 1;
    }
    Ok(ChainStep::Finished(chain_output(ctx)))
}

/// Renders the chain of primitives under the filter element `filter`
/// as far as it goes without the backend.
///
/// The primitives are the children of `filter` that are filter
/// primitives, in document order.  Each is rendered against the results
/// published before it, and its result is published before the next one
/// is looked at.  The first failure ends the chain; the primitive that
/// failed publishes nothing.  Whatever the chain comes to, the context
/// has only gained results: those published before are untouched.
pub fn render_filter_chain(filter: &Node, tree: &NodeArena, ctx: &mut FilterContext) -> (r: Result<
    ChainStep,
    FilterError,
>)
    ensures
        final(ctx)@ == chain_from(tree@, filter.children@, old(ctx)@, 0).ctx,
        chain_step_is(r, chain_from(tree@, filter.children@, old(ctx)@, 0).step),
        final(ctx)@.is_valid(),
        only_appended(old(ctx)@, final(ctx)@),
{
    let ghost before = ctx@;
    let _ = ctx.filter_region();
    proof {
        lemma_chain_appends(tree@, filter.children@, before, 0);
    }
    chain_onward(filter, tree, ctx, 0)
}

/// How a waiting chain goes on with what the backend hands back: as
/// the waiting primitive goes on; once that has its result, the result is
/// published and the chain goes on with the next child of the filter.
pub open spec fn chain_resumed(
    nodes: Seq<Node>,
    children: Seq<usize>,
    ctx: FilterContextView,
    run: ChainRunView,
    painted: Result<Seq<u32>, BackendError>,
) -> ChainOutcome {
    match resumed(ctx, run.run, painted) {
        Err(e) => ChainOutcome { ctx, step: Err(e) },
        Ok(MergeStepView::Compose(request, next)) => ChainOutcome {
            ctx,
            step: Ok(
                ChainStepView::Compose(request, ChainRunView { position: run.position, run: next }),
            ),
        },
        Ok(MergeStepView::Done(result)) => chain_from(
            nodes,
            children,
            ctx.publish(result),
            run.position + 1,
        ),
    }
}

impl ChainRun {
    /// Goes on with the chain after the backend has answered the request
    /// that came with this run.  `filter`, `tree` and `ctx` are those the
    /// chain was begun with.
    pub fn resume(
        self,
        filter: &Node,
        tree: &NodeArena,
        ctx: &mut FilterContext,
        painted: Result<Vec<u32>, BackendError>,
    ) -> (r: Result<ChainStep, FilterError>)
        ensures
            final(ctx)@ == chain_resumed(
                tree@,
                filter.children@,
                old(ctx)@,
                self@,
                painted_view(painted),
            ).ctx,
            chain_step_is(
                r,
                chain_resumed(tree@, filter.children@, old(ctx)@, self@, painted_view(painted)).step,
            ),
            final(ctx)@.is_valid(),
            only_appended(old(ctx)@, final(ctx)@),
    {
        let ghost before = ctx@;
        let _ = ctx.filter_region();
        proof {
            lemma_chain_resumed_appends(
                tree@,
                filter.children@,
                before,
                self@,
                painted_view(painted),
            );
        }
        let position = self.position;
        match self.run.resume(ctx, painted) {
            Err(e) => Err(e),
            Ok(MergeStep::Compose(request, run)) => Ok(
                ChainStep::Compose(request, ChainRun { position, run }),
            ),
            Ok(MergeStep::Done(result)) => {
                ctx.store_result(result);
                if position < filter.children.len() {
                    chain_onward(filter, tree, ctx, position + 1)
                } else {
                    Ok(ChainStep::Finished(chain_output(ctx)))
                }
            },
        }
    }
}

} // verus!
