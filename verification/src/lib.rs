//! A small layout engine for HTML documents.
//!
//! The engine walks a parsed document tree, wraps its text into lines that
//! fit the window, positions lines and images in one vertical flow, and
//! records a table of clickable rectangles. It never draws or measures by
//! itself: a layout pass is a state machine that hands each piece of backend
//! work to its driver and takes the outcome back as an event.
//!
//! One pass goes like this. [`renderer::render`] walks the document and
//! writes down what there is to place. [`pass::LayoutPass::new`] makes the
//! [`context::RendererContext`] ready and begins the pass. The driver then
//! calls [`pass::LayoutPass::step`] again and again, each time doing what the
//! returned [`pass::Action`] asks for and handing back the [`pass::Event`]
//! that came of it, until the pass is finished. The regions of the pass are
//! then in the context, where [`context::RendererContext::click`] finds the
//! one that a click goes to.

pub mod colorscheme;
pub mod context;
pub mod dom;
pub mod hitmap;
pub mod image;
pub mod layout;
pub mod metrics;
pub mod outline;
pub mod pass;
pub mod renderer;
pub mod style;
pub mod text;
pub mod trace;
pub mod wrap;
