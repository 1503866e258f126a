//! What drawing an element in a viewport consists of.

use vstd::prelude::*;

verus! {

/// What the drawing is clipped to.
#[derive(Debug, Copy, Clone, PartialEq, Eq, Structural)]
pub enum ClipMode {
    ClipToViewport,
    ClipToVbox,
}

/// One thing that is done to the drawing context.
#[derive(Debug, Copy, Clone, PartialEq, Eq, Structural)]
pub enum ViewportStep {
    /// Open a layer of its own for the element.
    DiscreteLayer,
    /// Clip to the rectangle of the viewport.
    ClipToViewport,
    /// Make the size of the view box the reference for lengths.
    PushVbox,
    /// Place the view box in the viewport as `preserveAspectRatio` says:
    /// move to where it comes to lie, scale it to the size it gets there,
    /// and move its origin away.
    FitVboxToViewport,
    /// Clip to the rectangle of the view box.
    ClipToVbox,
    /// Make the size of the viewport the reference for lengths.
    PushViewport,
    /// Move to the origin of the viewport.
    TranslateToViewport,
    /// Draw the element.
    Draw,
}

/// The steps of drawing in a viewport, in their order.
///
/// A viewport without width or height disables rendering: there is no
/// step at all.  Else the element gets a layer of its own, clipped to the
/// viewport where `clip_mode` says so.  With a view box (`vbox_is_empty`
/// is `Some`) that has no width or no height, nothing more is done.  With
/// any other view box, the view box is pushed and fitted to the viewport,
/// clipped where `clip_mode` says so, and the element is drawn.  Without
/// a view box, the viewport is pushed, its origin moved to, and the
/// element drawn.
pub open spec fn viewport_steps(
    viewport_is_empty: bool,
    clip_mode: Option<ClipMode>,
    vbox_is_empty: Option<bool>,
) -> Seq<ViewportStep> {
    if viewport_is_empty {
        Seq::empty()
    } else {
        let layer = if clip_mode == Some(ClipMode::ClipToViewport) {
            seq![ViewportStep::DiscreteLayer, ViewportStep::ClipToViewport]
        } else {
            seq![ViewportStep::DiscreteLayer]
        };
        match vbox_is_empty {
            Some(true) => layer,
            Some(false) => if clip_mode == Some(ClipMode::ClipToVbox) {
                layer + seq![
                    ViewportStep::PushVbox,
                    ViewportStep::FitVboxToViewport,
                    ViewportStep::ClipToVbox,
                    ViewportStep::Draw,
                ]
            } else {
                layer + seq![
                    ViewportStep::PushVbox,
                    ViewportStep::FitVboxToViewport,
                    ViewportStep::Draw,
                ]
            },
            None => layer + seq![
                ViewportStep::PushViewport,
                ViewportStep::TranslateToViewport,
                ViewportStep::Draw,
            ],
        }
    }
}

/// Says what drawing an element in a viewport consists of.
/// `viewport_is_empty` tells whether the width or the height of the
/// viewport is zero; `vbox_is_empty` tells the same of the view box,
/// where there is one.
pub fn draw_in_viewport(
    viewport_is_empty: bool,
    clip_mode: Option<ClipMode>,
    vbox_is_empty: Option<bool>,
) -> (steps: Vec<ViewportStep>)
    ensures
        steps@ == viewport_steps(viewport_is_empty, clip_mode, vbox_is_empty),
{
    let mut steps: Vec<ViewportStep> = Vec::new();
    if viewport_is_empty {
        return steps;
    }
    steps.push(ViewportStep::DiscreteLayer);
    if let Some(clip) = clip_mode {
        if clip == ClipMode::ClipToViewport {
            steps.push(ViewportStep::ClipToViewport);
        }
    }
    match vbox_is_empty {
        Some(empty) => {
            if empty {
                return steps;
            }
            steps.push(ViewportStep::PushVbox);
            steps.push(ViewportStep::FitVboxToViewport);
            if let Some(clip) = clip_mode {
                if clip == ClipMode::ClipToVbox {
                    steps.push(ViewportStep::ClipToVbox);
                }
            }
        },
        None => {
            steps.push(ViewportStep::PushViewport);
            steps.push(ViewportStep::TranslateToViewport);
        },
    }
    steps.push(ViewportStep::Draw);
    steps
}

/// The element is drawn exactly where the viewport has a width and a
/// height and the view box, if there is one, has them too; the drawing
/// is then the last step.  Whatever is clipped is clipped before.
pub proof fn lemma_viewport_draws(
    viewport_is_empty: bool,
    clip_mode: Option<ClipMode>,
    vbox_is_empty: Option<bool>,
)
    ensures
        ({
            let steps = viewport_steps(viewport_is_empty, clip_mode, vbox_is_empty);
            let drawn = !viewport_is_empty && vbox_is_empty != Some(true);
            &&& steps.contains(ViewportStep::Draw) <==> drawn
            &&& drawn ==> steps.last() == ViewportStep::Draw
            &&& steps.contains(ViewportStep::ClipToViewport) <==> !viewport_is_empty && clip_mode
                == Some(ClipMode::ClipToViewport)
            &&& steps.contains(ViewportStep::ClipToVbox) <==> drawn && vbox_is_empty is Some
                && clip_mode == Some(ClipMode::ClipToVbox)
        }),
{
    let steps = viewport_steps(viewport_is_empty, clip_mode, vbox_is_empty);
    if steps.len() > 0 {
        assert(steps[0] == ViewportStep::DiscreteLayer);
        assert(steps.last() == steps[steps.len() - 1]);
    }
    if steps.contains(ViewportStep::Draw) {
        let i = choose|i: int| 0 <= i < steps.len() && steps[i] == ViewportStep::Draw;
    }
    if steps.contains(ViewportStep::ClipToViewport) {
        let i = choose|i: int| 0 <= i < steps.len() && steps[i] == ViewportStep::ClipToViewport;
    }
    if steps.contains(ViewportStep::ClipToVbox) {
        let i = choose|i: int| 0 <= i < steps.len() && steps[i] == ViewportStep::ClipToVbox;
    }
    if !viewport_is_empty {
        if clip_mode == Some(ClipMode::ClipToViewport) {
            assert(steps[1] == ViewportStep::ClipToViewport);
        }
        if vbox_is_empty != Some(true) {
            assert(steps[steps.len() - 1] == ViewportStep::Draw);
            if vbox_is_empty is Some && clip_mode == Some(ClipMode::ClipToVbox) {
                assert(steps[steps.len() - 2] == ViewportStep::ClipToVbox);
            }
        }
    }
}

} // verus!
