//! Filter-effects compositing core of an SVG renderer.
//!
//! A filter is a chain of primitives evaluated in document order over
//! rasterised surfaces.  Every primitive resolves its inputs against the
//! results published so far, settles the rectangle its effect occupies, and
//! publishes one result.  The `feMerge` primitive, which stacks its inputs
//! with the "over" operator, is implemented in full.
//!
//! Painting pixels over one another is left to the graphics backend: the
//! library states which compositing it needs next and continues with what
//! the backend painted.  A caller drives a chain like this:
//!
//! ```text
//! let mut step = render_filter_chain(filter, tree, ctx)?;
//! loop {
//!     match step {
//!         ChainStep::Finished(output) => return Ok(output),
//!         ChainStep::Compose(request, run) => {
//!             step = run.resume(filter, tree, ctx, backend.paint(&request))?;
//!         }
//!     }
//! }
//! ```

pub mod rect;
pub mod error;
pub mod surface;
pub mod input;
pub mod parsers;
pub mod property_bag;
pub mod bounds;
pub mod context;
pub mod node;
pub mod merge;
pub mod chain;
pub mod laws;
pub mod viewport;
