//! The state of one application of a filter: the standard inputs, the
//! geometry, and the results published so far.

use vstd::prelude::*;
use crate::bounds::Transform;
use crate::error::{FilterError, FilterErrorView};
use crate::input::{FilterInput, FilterInputView};
use crate::rect::{IRect, lemma_clamp_within};
use crate::surface::{SharedImageSurface, SurfaceType, SurfaceView, surface_view};

verus! {

/// What a primitive hands on: a surface, and the rectangle of it that
/// the primitive's effect occupies.
pub struct FilterOutput {
    pub surface: SharedImageSurface,
    pub bounds: IRect,
}

/// The mathematical content of a `FilterOutput`.
pub ghost struct FilterOutputView {
    pub surface: SurfaceView,
    pub bounds: IRect,
}

impl View for FilterOutput {
    type V = FilterOutputView;

    open spec fn view(&self) -> FilterOutputView {
        FilterOutputView { surface: self.surface@, bounds: self.bounds }
    }
}

impl Clone for FilterOutput {
    fn clone(&self) -> (copy: FilterOutput)
        ensures
            copy == *self,
    {
        FilterOutput { surface: self.surface.clone(), bounds: self.bounds }
    }
}

/// The output of a primitive together with the name, if any, under which
/// later primitives can refer to it.
pub struct FilterResult {
    pub name: Option<String>,
    pub output: FilterOutput,
}

/// The mathematical content of a `FilterResult`.
pub ghost struct FilterResultView {
    pub name: Option<Seq<char>>,
    pub output: FilterOutputView,
}

/// The view of a name that may be absent.
pub open spec fn name_view(name: Option<String>) -> Option<Seq<char>> {
    match name {
        Some(n) => Some(n@),
        None => None,
    }
}

impl View for FilterResult {
    type V = FilterResultView;

    open spec fn view(&self) -> FilterResultView {
        FilterResultView { name: name_view(self.name), output: self.output@ }
    }
}

/// The views of a log of results, entry by entry.
pub open spec fn results_view(results: Seq<FilterResult>) -> Seq<FilterResultView> {
    Seq::new(results.len(), |i: int| results[i]@)
}

/// The output of the most recent entry of the log that was published
/// under `name`.
pub open spec fn find_named(results: Seq<FilterResultView>, name: Seq<char>) -> Option<
    FilterOutputView,
>
    decreases results.len(),
{
    if results.len() == 0 {
        None
    } else if results.last().name == Some(name) {
        Some(results.last().output)
    } else {
        find_named(results.drop_last(), name)
    }
}

/// The mathematical content of a `FilterContext`.
pub ghost struct FilterContextView {
    pub source_graphic: SurfaceView,
    pub background_surface: Option<SurfaceView>,
    pub fill_paint: SurfaceView,
    pub stroke_paint: SurfaceView,
    pub viewport_transform: Transform,
    /// The rectangle inside which the filter may produce output.
    pub filter_region: IRect,
    /// The results of the primitives evaluated so far, in document order.
    pub results: Seq<FilterResultView>,
}

impl FilterContextView {
    /// The filter region is a valid rectangle, and the bounds of every
    /// published result lie inside it.
    pub open spec fn is_valid(self) -> bool {
        &&& self.filter_region.is_valid()
        &&& forall|i: int|
            0 <= i < self.results.len() ==> self.filter_region.spec_contains(
                #[trigger] self.results[i].output.bounds,
            )
    }

    /// The background image; where the context has none, a transparent
    /// surface of the source graphic's size.
    pub open spec fn background(self) -> SurfaceView {
        match self.background_surface {
            Some(s) => s,
            None => SurfaceView::transparent(
                self.source_graphic.width,
                self.source_graphic.height,
                SurfaceType::SRgb,
            ),
        }
    }

    /// A standard input: the surface, over the whole filter region.
    pub open spec fn standard(self, surface: SurfaceView) -> FilterOutputView {
        FilterOutputView { surface, bounds: self.filter_region }
    }

    /// The reference names a result that was never published.
    pub open spec fn is_unknown(self, input: Option<FilterInputView>) -> bool {
        input matches Some(FilterInputView::Named(name)) && find_named(self.results, name) is None
    }

    /// What an input reference stands for in this context.
    ///
    /// An absent reference and `PreviousResult` stand for the most recent
    /// result, or for the source graphic where nothing was published yet.
    /// A name stands for the most recent result published under it, and
    /// is an `UnknownInput` where there is none.
    pub open spec fn resolve(self, input: Option<FilterInputView>) -> Result<
        FilterOutputView,
        FilterErrorView,
    > {
        match input {
            None | Some(FilterInputView::PreviousResult) => if self.results.len() > 0 {
                Ok(self.results.last().output)
            } else {
                Ok(self.standard(self.source_graphic))
            },
            Some(FilterInputView::SourceGraphic) => Ok(self.standard(self.source_graphic)),
            Some(FilterInputView::SourceAlpha) => Ok(
                self.standard(self.source_graphic.alpha_within(self.filter_region)),
            ),
            Some(FilterInputView::BackgroundImage) => Ok(self.standard(self.background())),
            Some(FilterInputView::BackgroundAlpha) => Ok(
                self.standard(self.background().alpha_within(self.filter_region)),
            ),
            Some(FilterInputView::FillPaint) => Ok(self.standard(self.fill_paint)),
            Some(FilterInputView::StrokePaint) => Ok(self.standard(self.stroke_paint)),
            Some(FilterInputView::Named(name)) => match find_named(self.results, name) {
                Some(output) => Ok(output),
                None => Err(FilterErrorView::UnknownInput(name)),
            },
        }
    }

    /// The context after `result` was published: the log grows by one
    /// entry, whose bounds are confined to the filter region.
    pub open spec fn publish(self, result: FilterResultView) -> FilterContextView {
        FilterContextView {
            results: self.results.push(
                FilterResultView {
                    name: result.name,
                    output: FilterOutputView {
                        surface: result.output.surface,
                        bounds: result.output.bounds.spec_clamp_to(self.filter_region),
                    },
                },
            ),
            ..self
        }
    }
}

/// The view of a reference to an input that may be absent.
pub open spec fn input_ref_view(input: Option<&FilterInput>) -> Option<FilterInputView> {
    match input {
        Some(i) => Some(i@),
        None => None,
    }
}

/// The append-only log of published results, with the region that
/// confines them.
struct ResultLog {
    region: IRect,
    entries: Vec<FilterResult>,
}

impl ResultLog {
    #[verifier::type_invariant]
    spec fn well_formed(self) -> bool {
        &&& self.region.is_valid()
        &&& forall|i: int|
            0 <= i < self.entries@.len() ==> self.region.spec_contains(
                #[trigger] self.entries@[i].output.bounds,
            )
    }

    fn new(region: IRect) -> (log: ResultLog)
        requires
            region.is_valid(),
        ensures
            log.region == region,
            log.entries@.len() == 0,
    {
        ResultLog { region, entries: Vec::new() }
    }

    /// The log with one more entry, whose bounds are confined to the region.
    fn push(self, result: FilterResult) -> (log: ResultLog)
        ensures
            log.region == self.region,
            results_view(log.entries@) == results_view(self.entries@).push(
                (FilterResultView {
                    name: result@.name,
                    output: FilterOutputView {
                        surface: result@.output.surface,
                        bounds: result@.output.bounds.spec_clamp_to(self.region),
                    },
                }),
            ),
    {
        proof {
            use_type_invariant(&self);
            lemma_clamp_within(result.output.bounds, self.region);
        }
        let ghost before = results_view(self.entries@);
        let ResultLog { region, entries } = self;
        let mut entries = entries;
        let FilterResult { name, output } = result;
        let FilterOutput { surface, bounds } = output;
        let entry = FilterResult {
            name,
            output: FilterOutput { surface, bounds: bounds.clamp_to(&region) },
        };
        entries.push(entry);
        proof {
            assert(results_view(entries@) =~= before.push(entry@));
        }
        ResultLog { region, entries }
    }
}

/// The state of one application of a filter.  The log of results only
/// ever grows.
pub struct FilterContext {
    source_graphic: SharedImageSurface,
    background_surface: Option<SharedImageSurface>,
    fill_paint: SharedImageSurface,
    stroke_paint: SharedImageSurface,
    viewport_transform: Transform,
    log: ResultLog,
}

impl View for FilterContext {
    type V = FilterContextView;

    closed spec fn view(&self) -> FilterContextView {
        FilterContextView {
            source_graphic: self.source_graphic@,
            background_surface: surface_view(self.background_surface),
            fill_paint: self.fill_paint@,
            stroke_paint: self.stroke_paint@,
            viewport_transform: self.viewport_transform,
            filter_region: self.log.region,
            results: results_view(self.log.entries@),
        }
    }
}

impl FilterContext {
    /// A context with nothing published.  The filter region is made
    /// valid and confined to the rectangle that the source graphic covers.
    pub fn new(
        source_graphic: SharedImageSurface,
        background_surface: Option<SharedImageSurface>,
        fill_paint: SharedImageSurface,
        stroke_paint: SharedImageSurface,
        viewport_transform: Transform,
        filter_region: IRect,
    ) -> (ctx: FilterContext)
        ensures
            ctx@ == (FilterContextView {
                source_graphic: source_graphic@,
                background_surface: surface_view(background_surface),
                fill_paint: fill_paint@,
                stroke_paint: stroke_paint@,
                viewport_transform,
                filter_region: filter_region.spec_normalized().spec_clamp_to(source_graphic@.extent()),
                results: Seq::empty(),
            }),
            ctx@.is_valid(),
            source_graphic@.extent().spec_contains(ctx@.filter_region),
    {
        let extent = source_graphic.extent();
        let region = filter_region.normalized().clamp_to(&extent);
        proof {
            lemma_clamp_within(filter_region.spec_normalized(), extent);
        }
        let log = ResultLog::new(region);
        assert(results_view(log.entries@) =~= Seq::empty());
        FilterContext {
            source_graphic,
            background_surface,
            fill_paint,
            stroke_paint,
            viewport_transform,
            log,
        }
    }
    /// The rasterised element that is being filtered.
    pub fn source_graphic(&self) -> (s: &SharedImageSurface)
        ensures
            s@ == self@.source_graphic,
    {
        &self.source_graphic
    }

    /// The rectangle inside which the filter may produce output.
    pub fn filter_region(&self) -> (r: IRect)
        ensures
            r == self@.filter_region,
            self@.is_valid(),
    {
        proof {
            use_type_invariant(&self.log);
        }
        self.log.region
    }

    /// The map from user units to pixels.
    pub fn viewport_transform(&self) -> (t: Transform)
        ensures
            t == self@.viewport_transform,
    {
        self.viewport_transform
    }

    /// How many results were published.
    pub fn published(&self) -> (n: usize)
        ensures
            n == self@.results.len(),
    {
        self.log.entries.len()
    }

    /// The most recent result, where anything was published.
    pub fn last_result(&self) -> (r: Option<FilterOutput>)
        ensures
            match r {
                Some(o) => self@.results.len() > 0 && o@ == self@.results.last().output,
                None => self@.results.len() == 0,
            },
    {
        let n = self.log.entries.len();
        if n > 0 {
            Some(self.log.entries[n - 1].output.clone())
        } else {
            None
        }
    }

    /// The background image, or a transparent stand-in for it.
    fn background(&self) -> (s: SharedImageSurface)
        ensures
            s@ == self@.background(),
    {
        match &self.background_surface {
            Some(s) => s.clone(),
            None => self.source_graphic.transparent_like(SurfaceType::SRgb),
        }
    }

    /// The most recent result published under `name`.
    fn lookup(&self, name: &String) -> (r: Option<FilterOutput>)
        ensures
            match r {
                Some(o) => find_named(self@.results, name@) == Some(o@),
                None => find_named(self@.results, name@) is None,
            },
    {
        let ghost log = self@.results;
        let mut i: usize = self.log.entries.len();
        assert(log.take(i as int) =~= log);
        while i > 0
            invariant
                i <= self.log.entries@.len(),
                log == results_view(self.log.entries@),
                find_named(log, name@) == find_named(log.take(i as int), name@),
            decreases i,
        {
            proof {
                assert(log.take(i as int).drop_last() =~= log.take(i - 1));
                assert(log.take(i as int).last() == log[i - 1]);
            }
            i -= 1;
            let found = match &self.log.entries[i].name {
                Some(n) => *n == *name,
                None => false,
            };
            if found {
                return Some(self.log.entries[i].output.clone());
            }
        }
        None
    }

    /// Resolves an input reference against the context as it is now.
    /// Nothing in the context changes.  The only failure is a name that
    /// no published result bears.
    pub fn get_input(&self, input: Option<&FilterInput>) -> (r: Result<FilterOutput, FilterError>)
        ensures
            r is Err <==> self@.is_unknown(input_ref_view(input)),
            match r {
                Ok(o) => self@.resolve(input_ref_view(input)) == Ok::<
                    FilterOutputView,
                    FilterErrorView,
                >(o@),
                Err(e) => self@.resolve(input_ref_view(input)) == Err::<
                    FilterOutputView,
                    FilterErrorView,
                >(e@),
            },
    {
        let region = self.log.region;
        match input {
            None | Some(FilterInput::PreviousResult) => match self.last_result() {
                Some(output) => Ok(output),
                None => Ok(FilterOutput { surface: self.source_graphic.clone(), bounds: region }),
            },
            Some(FilterInput::SourceGraphic) => Ok(
                FilterOutput { surface: self.source_graphic.clone(), bounds: region },
            ),
            Some(FilterInput::SourceAlpha) => Ok(
                FilterOutput { surface: self.source_graphic.extract_alpha(region), bounds: region },
            ),
            Some(FilterInput::BackgroundImage) => Ok(
                FilterOutput { surface: self.background(), bounds: region },
            ),
            Some(FilterInput::BackgroundAlpha) => Ok(
                FilterOutput { surface: self.background().extract_alpha(region), bounds: region },
            ),
            Some(FilterInput::FillPaint) => Ok(
                FilterOutput { surface: self.fill_paint.clone(), bounds: region },
            ),
            Some(FilterInput::StrokePaint) => Ok(
                FilterOutput { surface: self.stroke_paint.clone(), bounds: region },
            ),
            Some(FilterInput::Named(name)) => match self.lookup(name) {
                Some(output) => Ok(output),
                None => Err(FilterError::UnknownInput(name.clone())),
            },
        }
    }

    /// Publishes the result of a primitive: the log grows by this one
    /// entry and nothing else changes.  The bounds of the entry are the
    /// result's bounds confined to the filter region.
    pub fn store_result(&mut self, result: FilterResult)
        ensures
            final(self)@ == old(self)@.publish(result@),
            final(self)@.is_valid(),
    {
        proof {
            use_type_invariant(&self.log);
        }
        let mut log = ResultLog::new(self.log.region);
        core::mem::swap(&mut self.log, &mut log);
        let grown = log.push(result);
        proof {
            use_type_invariant(&grown);
        }
        self.log = grown;
    }
}

} // verus!
