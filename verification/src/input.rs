//! Symbolic references to the inputs of a filter primitive.

use vstd::prelude::*;
use crate::error::{FilterError, FilterErrorView};

verus! {

/// What a primitive's `in` attribute refers to.
#[derive(Debug)]
pub enum FilterInput {
    /// The rasterised element that is being filtered.
    SourceGraphic,
    /// The alpha channel of the source graphic.
    SourceAlpha,
    /// The image behind the filtered element.
    BackgroundImage,
    /// The alpha channel of the background image.
    BackgroundAlpha,
    /// The element's fill paint, spread over the filter region.
    FillPaint,
    /// The element's stroke paint, spread over the filter region.
    StrokePaint,
    /// The result that an earlier primitive published under this name.
    Named(String),
    /// The result of the primitive just before; for the first primitive,
    /// the source graphic.
    PreviousResult,
}

/// A `FilterInput` with the name it may hold as a sequence of characters.
pub enum FilterInputView {
    SourceGraphic,
    SourceAlpha,
    BackgroundImage,
    BackgroundAlpha,
    FillPaint,
    StrokePaint,
    Named(Seq<char>),
    PreviousResult,
}

impl View for FilterInput {
    type V = FilterInputView;

    open spec fn view(&self) -> FilterInputView {
        match *self {
            FilterInput::SourceGraphic => FilterInputView::SourceGraphic,
            FilterInput::SourceAlpha => FilterInputView::SourceAlpha,
            FilterInput::BackgroundImage => FilterInputView::BackgroundImage,
            FilterInput::BackgroundAlpha => FilterInputView::BackgroundAlpha,
            FilterInput::FillPaint => FilterInputView::FillPaint,
            FilterInput::StrokePaint => FilterInputView::StrokePaint,
            FilterInput::Named(name) => FilterInputView::Named(name@),
            FilterInput::PreviousResult => FilterInputView::PreviousResult,
        }
    }
}

/// The view of an input that may be absent.
pub open spec fn input_view(input: Option<FilterInput>) -> Option<FilterInputView> {
    match input {
        Some(i) => Some(i@),
        None => None,
    }
}

/// Two texts hold the same characters.
pub fn same_text(a: &str, b: &str) -> (same: bool)
    ensures
        same == (a@ == b@),
{
    let left: String = a.to_owned();
    let right: String = b.to_owned();
    left == right
}

/// The input that the text of an `in` attribute denotes, where it denotes
/// one: a well-known source by its exact name, else the result of that
/// name.  The empty text denotes nothing.
pub open spec fn parsed_input(text: Seq<char>) -> Option<FilterInputView> {
    if text == "SourceGraphic"@ {
        Some(FilterInputView::SourceGraphic)
    } else if text == "SourceAlpha"@ {
        Some(FilterInputView::SourceAlpha)
    } else if text == "BackgroundImage"@ {
        Some(FilterInputView::BackgroundImage)
    } else if text == "BackgroundAlpha"@ {
        Some(FilterInputView::BackgroundAlpha)
    } else if text == "FillPaint"@ {
        Some(FilterInputView::FillPaint)
    } else if text == "StrokePaint"@ {
        Some(FilterInputView::StrokePaint)
    } else if text.len() == 0 {
        None
    } else {
        Some(FilterInputView::Named(text))
    }
}

impl FilterInput {
    /// Reads the value of the attribute `attribute`.  A text that denotes
    /// no input is rejected with `InvalidAttributeValue`, which names the
    /// attribute.
    pub fn parse(attribute: &str, text: &str) -> (r: Result<FilterInput, FilterError>)
        ensures
            match r {
                Ok(input) => parsed_input(text@) == Some(input@),
                Err(e) => parsed_input(text@) is None && e@ == FilterErrorView::InvalidAttributeValue(
                    attribute@,
                ),
            },
    {
        if same_text(text, "SourceGraphic") {
            Ok(FilterInput::SourceGraphic)
        } else if same_text(text, "SourceAlpha") {
            Ok(FilterInput::SourceAlpha)
        } else if same_text(text, "BackgroundImage") {
            Ok(FilterInput::BackgroundImage)
        } else if same_text(text, "BackgroundAlpha") {
            Ok(FilterInput::BackgroundAlpha)
        } else if same_text(text, "FillPaint") {
            Ok(FilterInput::FillPaint)
        } else if same_text(text, "StrokePaint") {
            Ok(FilterInput::StrokePaint)
        } else if text.unicode_len() == 0 {
            Err(FilterError::InvalidAttributeValue(attribute.to_owned()))
        } else {
            Ok(FilterInput::Named(text.to_owned()))
        }
    }

    /// A copy of the input.
    pub fn duplicate(&self) -> (copy: FilterInput)
        ensures
            copy == *self,
    {
        match self {
            FilterInput::SourceGraphic => FilterInput::SourceGraphic,
            FilterInput::SourceAlpha => FilterInput::SourceAlpha,
            FilterInput::BackgroundImage => FilterInput::BackgroundImage,
            FilterInput::BackgroundAlpha => FilterInput::BackgroundAlpha,
            FilterInput::FillPaint => FilterInput::FillPaint,
            FilterInput::StrokePaint => FilterInput::StrokePaint,
            FilterInput::Named(name) => FilterInput::Named(name.clone()),
            FilterInput::PreviousResult => FilterInput::PreviousResult,
        }
    }
}

} // verus!
